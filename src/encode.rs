//! Writing a document as pretty-printed JSON text, and the proof that the
//! decoder reads every such text back as the document that was written.
use vstd::prelude::*;
use crate::codec::{
    COLON, COMMA, LBRACE, LBRACKET, RBRACE, RBRACKET, parse_byte, parse_document, parse_items,
    parse_members, parse_mode, parse_object, parse_setting_members, parse_settings,
    parse_str_array, set_field, set_setting,
};
use crate::model::{AppData, AppSettings, DataModel, OperationMode, SettingsModel, default_data, default_settings};
use crate::text::{
    BACKSLASH, QUOTE, body_len, is_ws, json_quoted, literal_len, parse_str, quote,
    quotes_back, trim_ws,
};

verus! {

pub const SPACE: u8 = 0x20;

pub const NEWLINE: u8 = 0x0a;

/// A line break followed by `n` spaces of indentation.
pub open spec fn nl(n: nat) -> Seq<u8> {
    seq![NEWLINE] + Seq::new(n, |_i: int| SPACE)
}

/// The tag under which an operation mode is stored.
pub open spec fn mode_name(m: OperationMode) -> Seq<char> {
    match m {
        OperationMode::Local => "Local"@,
        OperationMode::Public => "Public"@,
    }
}

/// A member's key on its own indented line, with the colon and space after it.
pub open spec fn member_head(indent: nat, key: Seq<char>) -> Seq<u8> {
    nl(indent) + json_quoted(key) + seq![COLON, SPACE]
}

/// The array items after the first, each behind a comma on its own line.
pub open spec fn tail_bytes(xs: Seq<Seq<char>>) -> Seq<u8>
    decreases xs.len(),
{
    if xs.len() == 0 {
        Seq::empty()
    } else {
        seq![COMMA] + nl(4) + json_quoted(xs[0]) + tail_bytes(xs.drop_first())
    }
}

pub open spec fn array_bytes(xs: Seq<Seq<char>>) -> Seq<u8> {
    if xs.len() == 0 {
        seq![LBRACKET, RBRACKET]
    } else {
        seq![LBRACKET] + nl(4) + json_quoted(xs[0]) + tail_bytes(xs.drop_first()) + nl(2) + seq![
            RBRACKET,
        ]
    }
}

pub open spec fn settings_bytes(s: SettingsModel) -> Seq<u8> {
    seq![LBRACE] + member_head(4, "ui_language"@) + json_quoted(s.ui_language) + seq![COMMA]
        + member_head(4, "mode"@) + json_quoted(mode_name(s.mode)) + seq![COMMA] + member_head(
        4,
        "server_url"@,
    ) + json_quoted(s.server_url) + nl(2) + seq![RBRACE]
}

/// The stored text of a document.
pub open spec fn document_bytes(d: DataModel) -> Seq<u8> {
    seq![LBRACE] + member_head(2, "clippings"@) + array_bytes(d.clippings) + seq![COMMA]
        + member_head(2, "last_session_content"@) + json_quoted(d.last_session_content) + seq![
        COMMA,
    ] + member_head(2, "settings"@) + settings_bytes(d.settings) + nl(0) + seq![RBRACE]
}

/// Every key and value that the text of `d` quotes is read back as itself.
pub open spec fn strings_quote_back(d: DataModel) -> bool {
    &&& forall|i: int| 0 <= i < d.clippings.len() ==> quotes_back(#[trigger] d.clippings[i])
    &&& quotes_back(d.last_session_content)
    &&& quotes_back(d.settings.ui_language)
    &&& quotes_back(mode_name(d.settings.mode))
    &&& quotes_back(d.settings.server_url)
    &&& quotes_back("clippings"@)
    &&& quotes_back("last_session_content"@)
    &&& quotes_back("settings"@)
    &&& quotes_back("ui_language"@)
    &&& quotes_back("mode"@)
    &&& quotes_back("server_url"@)
}

pub open spec fn all_ws(w: Seq<u8>) -> bool {
    forall|i: int| 0 <= i < w.len() ==> is_ws(#[trigger] w[i])
}

proof fn lemma_nl_ws(n: nat)
    ensures
        all_ws(nl(n)),
{
    assert forall|i: int| 0 <= i < nl(n).len() implies is_ws(#[trigger] nl(n)[i]) by {
        if i > 0 {
            assert(nl(n)[i] == SPACE);
        }
    }
}

proof fn lemma_trim_ws_prefix(w: Seq<u8>, x: Seq<u8>)
    requires
        all_ws(w),
    ensures
        trim_ws(w + x) == trim_ws(x),
    decreases w.len(),
{
    if w.len() == 0 {
        assert(w + x =~= x);
    } else {
        assert((w + x).drop_first() =~= w.drop_first() + x);
        lemma_trim_ws_prefix(w.drop_first(), x);
    }
}

proof fn lemma_body_prefix(p: Seq<u8>, rest: Seq<u8>)
    requires
        body_len(p) is Some,
    ensures
        body_len(p + rest) == body_len(p),
    decreases p.len(),
{
    let q = p + rest;
    if p[0] == QUOTE {
    } else if p[0] == BACKSLASH {
        assert(q.subrange(2, q.len() as int) =~= p.subrange(2, p.len() as int) + rest);
        lemma_body_prefix(p.subrange(2, p.len() as int), rest);
    } else {
        assert(q.drop_first() =~= p.drop_first() + rest);
        lemma_body_prefix(p.drop_first(), rest);
    }
}

/// A quoted string behind whitespace is read as that string.
proof fn lemma_read_quoted(w: Seq<u8>, v: Seq<char>, k: Seq<u8>)
    requires
        all_ws(w),
        quotes_back(v),
    ensures
        parse_str(w + (json_quoted(v) + k)) == Some((v, k)),
{
    let p = json_quoted(v);
    lemma_trim_ws_prefix(w, p + k);
    assert(p.drop_first() + k =~= (p + k).drop_first());
    lemma_body_prefix(p.drop_first(), k);
    assert(literal_len(p + k) == Some(p.len()));
    assert((p + k).take(p.len() as int) =~= p);
    assert((p + k).skip(p.len() as int) =~= k);
}

/// A byte behind whitespace is the one that `parse_byte` looks for, and no other.
proof fn lemma_read_byte(w: Seq<u8>, c: u8, k: Seq<u8>)
    requires
        all_ws(w),
        !is_ws(c),
    ensures
        parse_byte(w + (seq![c] + k), c) == Some(k),
        forall|d: u8| d != c ==> parse_byte(w + (seq![c] + k), d) is None,
{
    lemma_trim_ws_prefix(w, seq![c] + k);
    assert((seq![c] + k).drop_first() =~= k);
}

proof fn lemma_member(indent: nat, key: Seq<char>, k: Seq<u8>)
    requires
        quotes_back(key),
    ensures
        parse_str(member_head(indent, key) + k) == Some((key, seq![COLON, SPACE] + k)),
        parse_byte(seq![COLON, SPACE] + k, COLON) == Some(seq![SPACE] + k),
{
    lemma_nl_ws(indent);
    assert(member_head(indent, key) + k =~= nl(indent) + (json_quoted(key) + (seq![COLON, SPACE] + k)));
    lemma_read_quoted(nl(indent), key, seq![COLON, SPACE] + k);
    assert(seq![COLON, SPACE] + k =~= Seq::<u8>::empty() + (seq![COLON] + (seq![SPACE] + k)));
    lemma_read_byte(Seq::empty(), COLON, seq![SPACE] + k);
}

#[verifier::rlimit(40)]
proof fn lemma_items(xs: Seq<Seq<char>>, acc: Seq<Seq<char>>, k: Seq<u8>)
    requires
        xs.len() > 0,
        forall|i: int| 0 <= i < xs.len() ==> quotes_back(#[trigger] xs[i]),
    ensures
        parse_items(nl(4) + json_quoted(xs[0]) + tail_bytes(xs.drop_first()) + nl(2) + seq![RBRACKET] + k, acc)
            == Some((acc + xs, k)),
    decreases xs.len(),
{
    let ys = xs.drop_first();
    let closing = nl(2) + (seq![RBRACKET] + k);
    let s = nl(4) + json_quoted(xs[0]) + tail_bytes(ys) + nl(2) + seq![RBRACKET] + k;
    assert(s =~= nl(4) + (json_quoted(xs[0]) + (tail_bytes(ys) + closing)));
    lemma_nl_ws(4);
    lemma_nl_ws(2);
    assert(quotes_back(xs[0]));
    lemma_read_quoted(nl(4), xs[0], tail_bytes(ys) + closing);
    if ys.len() == 0 {
        assert(tail_bytes(ys) + closing =~= closing);
        lemma_read_byte(nl(2), RBRACKET, k);
        assert(acc.push(xs[0]) =~= acc + xs);
    } else {
        let zs = ys.drop_first();
        let r2 = nl(4) + json_quoted(ys[0]) + tail_bytes(zs) + nl(2) + seq![RBRACKET] + k;
        assert(tail_bytes(ys) + closing =~= Seq::<u8>::empty() + (seq![COMMA] + r2));
        lemma_read_byte(Seq::empty(), COMMA, r2);
        assert forall|i: int| 0 <= i < ys.len() implies quotes_back(#[trigger] ys[i]) by {
            assert(ys[i] == xs[i + 1]);
        }
        lemma_items(ys, acc.push(xs[0]), k);
        assert(acc.push(xs[0]) + ys =~= acc + xs);
    }
}

#[verifier::rlimit(40)]
proof fn lemma_array(xs: Seq<Seq<char>>, k: Seq<u8>)
    requires
        forall|i: int| 0 <= i < xs.len() ==> quotes_back(#[trigger] xs[i]),
    ensures
        parse_str_array(array_bytes(xs) + k) == Some((xs, k)),
{
    if xs.len() == 0 {
        assert(array_bytes(xs) + k =~= Seq::<u8>::empty() + (seq![LBRACKET] + (seq![RBRACKET] + k)));
        lemma_read_byte(Seq::empty(), LBRACKET, seq![RBRACKET] + k);
        assert(seq![RBRACKET] + k =~= Seq::<u8>::empty() + (seq![RBRACKET] + k));
        lemma_read_byte(Seq::empty(), RBRACKET, k);
        assert(xs =~= Seq::<Seq<char>>::empty());
    } else {
        let r = nl(4) + json_quoted(xs[0]) + tail_bytes(xs.drop_first()) + nl(2) + seq![RBRACKET] + k;
        assert(array_bytes(xs) + k =~= Seq::<u8>::empty() + (seq![LBRACKET] + r));
        lemma_read_byte(Seq::empty(), LBRACKET, r);
        lemma_nl_ws(4);
        lemma_trim_ws_prefix(nl(4), json_quoted(xs[0]) + tail_bytes(xs.drop_first()) + nl(2) + seq![RBRACKET] + k);
        assert(r =~= nl(4) + (json_quoted(xs[0]) + tail_bytes(xs.drop_first()) + nl(2) + seq![RBRACKET] + k));
        assert(quotes_back(xs[0]));
        assert(json_quoted(xs[0])[0] == QUOTE);
        lemma_items(xs, Seq::empty(), k);
        assert(Seq::<Seq<char>>::empty() + xs =~= xs);
    }
}

/// A member `key: value` after whitespace, where the value is a quoted string
/// and what follows it is `k`.
proof fn lemma_string_member(indent: nat, key: Seq<char>, v: Seq<char>, k: Seq<u8>)
    requires
        quotes_back(key),
        quotes_back(v),
    ensures
        parse_str(member_head(indent, key) + json_quoted(v) + k) == Some(
            (key, seq![COLON, SPACE] + (json_quoted(v) + k)),
        ),
        parse_byte(seq![COLON, SPACE] + (json_quoted(v) + k), COLON) == Some(
            seq![SPACE] + (json_quoted(v) + k),
        ),
        parse_str(seq![SPACE] + (json_quoted(v) + k)) == Some((v, k)),
{
    assert(member_head(indent, key) + json_quoted(v) + k =~= member_head(indent, key) + (json_quoted(v) + k));
    lemma_member(indent, key, json_quoted(v) + k);
    lemma_read_quoted(seq![SPACE], v, k);
}

/// After a member's value: a comma, or the closing brace behind whitespace.
proof fn lemma_after_value(k: Seq<u8>)
    ensures
        parse_byte(seq![COMMA] + k, COMMA) == Some(k),
        parse_byte(seq![COMMA] + k, RBRACE) is None,
{
    assert(seq![COMMA] + k =~= Seq::<u8>::empty() + (seq![COMMA] + k));
    lemma_read_byte(Seq::empty(), COMMA, k);
}

proof fn lemma_closing(n: nat, k: Seq<u8>)
    ensures
        parse_byte(nl(n) + seq![RBRACE] + k, COMMA) is None,
        parse_byte(nl(n) + seq![RBRACE] + k, RBRACE) == Some(k),
{
    lemma_nl_ws(n);
    assert(nl(n) + seq![RBRACE] + k =~= nl(n) + (seq![RBRACE] + k));
    lemma_read_byte(nl(n), RBRACE, k);
}

pub open spec fn settings_m3(s: SettingsModel, k: Seq<u8>) -> Seq<u8> {
    member_head(4, "server_url"@) + json_quoted(s.server_url) + (nl(2) + seq![RBRACE] + k)
}

pub open spec fn settings_m2(s: SettingsModel, k: Seq<u8>) -> Seq<u8> {
    member_head(4, "mode"@) + json_quoted(mode_name(s.mode)) + (seq![COMMA] + settings_m3(s, k))
}

pub open spec fn settings_m1(s: SettingsModel, k: Seq<u8>) -> Seq<u8> {
    member_head(4, "ui_language"@) + json_quoted(s.ui_language) + (seq![COMMA] + settings_m2(s, k))
}

#[verifier::rlimit(40)]
proof fn lemma_settings_url(s: SettingsModel, k: Seq<u8>, acc: SettingsModel)
    requires
        quotes_back(s.server_url),
        quotes_back("server_url"@),
    ensures
        parse_setting_members(settings_m3(s, k), acc) == Some((SettingsModel { server_url: s.server_url, ..acc }, k)),
{
    lemma_setting_keys();
    let tail = nl(2) + seq![RBRACE] + k;
    lemma_string_member(4, "server_url"@, s.server_url, tail);
    lemma_closing(2, k);
    assert(set_setting(acc, "server_url"@, seq![SPACE] + (json_quoted(s.server_url) + tail))
        == Some((SettingsModel { server_url: s.server_url, ..acc }, tail)));
}

#[verifier::rlimit(40)]
proof fn lemma_settings_mode(s: SettingsModel, k: Seq<u8>, acc: SettingsModel)
    requires
        quotes_back(mode_name(s.mode)),
        quotes_back(s.server_url),
        quotes_back("mode"@),
        quotes_back("server_url"@),
    ensures
        parse_setting_members(settings_m2(s, k), acc) == Some(
            (SettingsModel { mode: s.mode, server_url: s.server_url, ..acc }, k),
        ),
{
    lemma_setting_keys();
    let m3 = settings_m3(s, k);
    lemma_string_member(4, "mode"@, mode_name(s.mode), seq![COMMA] + m3);
    lemma_after_value(m3);
    lemma_mode_name(s.mode);
    let a2 = SettingsModel { mode: s.mode, ..acc };
    assert(parse_mode(seq![SPACE] + (json_quoted(mode_name(s.mode)) + (seq![COMMA] + m3))) == Some((s.mode, seq![COMMA] + m3)));
    assert(set_setting(acc, "mode"@, seq![SPACE] + (json_quoted(mode_name(s.mode)) + (seq![COMMA] + m3)))
        == Some((a2, seq![COMMA] + m3)));
    lemma_settings_url(s, k, a2);
}

#[verifier::rlimit(40)]
proof fn lemma_settings_language(s: SettingsModel, k: Seq<u8>, acc: SettingsModel)
    requires
        quotes_back(s.ui_language),
        quotes_back(mode_name(s.mode)),
        quotes_back(s.server_url),
        quotes_back("ui_language"@),
        quotes_back("mode"@),
        quotes_back("server_url"@),
    ensures
        parse_setting_members(settings_m1(s, k), acc) == Some((s, k)),
{
    lemma_setting_keys();
    let m2 = settings_m2(s, k);
    lemma_string_member(4, "ui_language"@, s.ui_language, seq![COMMA] + m2);
    lemma_after_value(m2);
    let a1 = SettingsModel { ui_language: s.ui_language, ..acc };
    assert(set_setting(acc, "ui_language"@, seq![SPACE] + (json_quoted(s.ui_language) + (seq![COMMA] + m2)))
        == Some((a1, seq![COMMA] + m2)));
    lemma_settings_mode(s, k, a1);
}

proof fn lemma_settings_shape(s: SettingsModel, k: Seq<u8>)
    ensures
        settings_bytes(s) + k == Seq::<u8>::empty() + (seq![LBRACE] + settings_m1(s, k)),
{
    assert(settings_bytes(s) + k =~= Seq::<u8>::empty() + (seq![LBRACE] + settings_m1(s, k)));
}

#[verifier::rlimit(40)]
proof fn lemma_settings(s: SettingsModel, k: Seq<u8>)
    requires
        quotes_back(s.ui_language),
        quotes_back(mode_name(s.mode)),
        quotes_back(s.server_url),
        quotes_back("ui_language"@),
        quotes_back("mode"@),
        quotes_back("server_url"@),
    ensures
        parse_settings(settings_bytes(s) + k) == Some((s, k)),
{
    let m1 = settings_m1(s, k);
    lemma_settings_shape(s, k);
    lemma_read_byte(Seq::empty(), LBRACE, m1);
    lemma_nl_ws(4);
    let rest = json_quoted("ui_language"@) + seq![COLON, SPACE] + json_quoted(s.ui_language) + (seq![COMMA] + settings_m2(s, k));
    assert(m1 =~= nl(4) + rest);
    lemma_trim_ws_prefix(nl(4), rest);
    assert(json_quoted("ui_language"@)[0] == QUOTE);
    lemma_settings_language(s, k, default_settings());
}

proof fn lemma_mode_name(m: OperationMode)
    ensures
        crate::codec::mode_of(mode_name(m)) == Some(m),
{
    reveal_strlit("Local");
    reveal_strlit("Public");
    assert("Local"@.len() != "Public"@.len());
}

pub(crate) proof fn lemma_setting_keys()
    ensures
        "ui_language"@ != "mode"@,
        "ui_language"@ != "server_url"@,
        "mode"@ != "server_url"@,
{
    reveal_strlit("ui_language");
    reveal_strlit("mode");
    reveal_strlit("server_url");
    assert("ui_language"@.len() == 11 && "mode"@.len() == 4 && "server_url"@.len() == 10);
}

pub(crate) proof fn lemma_field_keys()
    ensures
        "clippings"@ != "last_session_content"@,
        "clippings"@ != "settings"@,
        "last_session_content"@ != "settings"@,
{
    reveal_strlit("clippings");
    reveal_strlit("last_session_content");
    reveal_strlit("settings");
    assert("clippings"@.len() == 9 && "last_session_content"@.len() == 20 && "settings"@.len() == 8);
}

/// A single space is whitespace: what follows it is read as if it were not there.
proof fn lemma_space(x: Seq<u8>)
    ensures
        trim_ws(seq![SPACE] + x) == trim_ws(x),
{
    assert(all_ws(seq![SPACE]));
    lemma_trim_ws_prefix(seq![SPACE], x);
}

pub open spec fn doc_tail() -> Seq<u8> {
    nl(0) + seq![RBRACE]
}

pub open spec fn doc_m3(d: DataModel) -> Seq<u8> {
    member_head(2, "settings"@) + settings_bytes(d.settings) + doc_tail()
}

pub open spec fn doc_m2(d: DataModel) -> Seq<u8> {
    member_head(2, "last_session_content"@) + json_quoted(d.last_session_content) + (seq![COMMA] + doc_m3(d))
}

pub open spec fn doc_m1(d: DataModel) -> Seq<u8> {
    member_head(2, "clippings"@) + array_bytes(d.clippings) + (seq![COMMA] + doc_m2(d))
}

#[verifier::rlimit(40)]
proof fn lemma_doc_settings(d: DataModel, acc: DataModel)
    requires
        strings_quote_back(d),
    ensures
        parse_members(doc_m3(d), acc) == Some((DataModel { settings: d.settings, ..acc }, Seq::<u8>::empty())),
{
    lemma_field_keys();
    let k = Seq::<u8>::empty();
    let tail = doc_tail();
    assert(tail =~= nl(0) + seq![RBRACE] + k);
    let v3 = settings_bytes(d.settings) + tail;
    assert(doc_m3(d) =~= member_head(2, "settings"@) + v3);
    lemma_member(2, "settings"@, v3);
    lemma_space(v3);
    lemma_settings(d.settings, tail);
    assert(parse_settings(seq![SPACE] + v3) == parse_settings(v3));
    lemma_closing(0, k);
    let a3 = DataModel { settings: d.settings, ..acc };
    assert(set_field(acc, "settings"@, seq![SPACE] + v3) == Some((a3, tail)));
}

#[verifier::rlimit(40)]
proof fn lemma_doc_content(d: DataModel, acc: DataModel)
    requires
        strings_quote_back(d),
    ensures
        parse_members(doc_m2(d), acc) == Some(
            (DataModel { last_session_content: d.last_session_content, settings: d.settings, ..acc }, Seq::<u8>::empty()),
        ),
{
    lemma_field_keys();
    let m3 = doc_m3(d);
    lemma_string_member(2, "last_session_content"@, d.last_session_content, seq![COMMA] + m3);
    lemma_after_value(m3);
    let a2 = DataModel { last_session_content: d.last_session_content, ..acc };
    assert(set_field(acc, "last_session_content"@, seq![SPACE] + (json_quoted(d.last_session_content) + (seq![COMMA] + m3)))
        == Some((a2, seq![COMMA] + m3)));
    lemma_doc_settings(d, a2);
}

#[verifier::rlimit(40)]
proof fn lemma_doc_clippings(d: DataModel, acc: DataModel)
    requires
        strings_quote_back(d),
    ensures
        parse_members(doc_m1(d), acc) == Some((DataModel { clippings: d.clippings, last_session_content: d.last_session_content, settings: d.settings }, Seq::<u8>::empty())),
{
    lemma_field_keys();
    let m2 = doc_m2(d);
    let v1 = array_bytes(d.clippings) + (seq![COMMA] + m2);
    assert(doc_m1(d) =~= member_head(2, "clippings"@) + v1);
    lemma_member(2, "clippings"@, v1);
    lemma_space(v1);
    lemma_array(d.clippings, seq![COMMA] + m2);
    assert(parse_str_array(seq![SPACE] + v1) == parse_str_array(v1));
    lemma_after_value(m2);
    let a1 = DataModel { clippings: d.clippings, ..acc };
    assert(set_field(acc, "clippings"@, seq![SPACE] + v1) == Some((a1, seq![COMMA] + m2)));
    lemma_doc_content(d, a1);
}

proof fn lemma_document_shape(d: DataModel)
    ensures
        document_bytes(d) == Seq::<u8>::empty() + (seq![LBRACE] + doc_m1(d)),
{
    assert(document_bytes(d) =~= Seq::<u8>::empty() + (seq![LBRACE] + doc_m1(d)));
}

#[verifier::rlimit(40)]
proof fn lemma_document(d: DataModel)
    requires
        strings_quote_back(d),
    ensures
        parse_document(document_bytes(d)) == Some(d),
{
    let m1 = doc_m1(d);
    lemma_document_shape(d);
    lemma_read_byte(Seq::empty(), LBRACE, m1);
    lemma_nl_ws(2);
    let rest = json_quoted("clippings"@) + seq![COLON, SPACE] + array_bytes(d.clippings) + (seq![COMMA] + doc_m2(d));
    assert(m1 =~= nl(2) + rest);
    lemma_trim_ws_prefix(nl(2), rest);
    assert(json_quoted("clippings"@)[0] == QUOTE);
    lemma_doc_clippings(d, default_data());
    assert(parse_object(document_bytes(d)) == Some((d, Seq::<u8>::empty())));
}

fn put_bytes(out: &mut Vec<u8>, p: Vec<u8>)
    ensures
        final(out)@ == old(out)@ + p@,
{
    let mut p = p;
    out.append(&mut p);
}

fn put_byte(out: &mut Vec<u8>, c: u8)
    ensures
        final(out)@ == old(out)@ + seq![c],
{
    out.push(c);
    assert(final(out)@ =~= old(out)@ + seq![c]);
}

fn put_nl(out: &mut Vec<u8>, n: usize)
    ensures
        final(out)@ == old(out)@ + nl(n as nat),
{
    let ghost start = out@;
    out.push(NEWLINE);
    let mut i: usize = 0;
    while i < n
        invariant
            i <= n,
            out@ == start + seq![NEWLINE] + Seq::new(i as nat, |_i: int| SPACE),
        decreases n - i,
    {
        out.push(SPACE);
        i = i + 1;
        assert(out@ =~= start + seq![NEWLINE] + Seq::new(i as nat, |_i: int| SPACE));
    }
    assert(out@ =~= start + nl(n as nat));
}

fn put_str(out: &mut Vec<u8>, s: &str)
    ensures
        final(out)@ == old(out)@ + json_quoted(s@),
        quotes_back(s@),
{
    let q = quote(s);
    put_bytes(out, q);
}

fn put_member_head(out: &mut Vec<u8>, indent: usize, key: &str)
    ensures
        final(out)@ == old(out)@ + member_head(indent as nat, key@),
        quotes_back(key@),
{
    let ghost start = out@;
    put_nl(out, indent);
    put_str(out, key);
    put_byte(out, COLON);
    put_byte(out, SPACE);
    assert(out@ =~= start + member_head(indent as nat, key@));
}

fn put_tail(out: &mut Vec<u8>, xs: &Vec<String>, i: usize)
    requires
        i <= xs@.len(),
    ensures
        final(out)@ == old(out)@ + tail_bytes(xs@.map_values(|c: String| c@).skip(i as int)),
        forall|j: int| i <= j < xs@.len() ==> quotes_back(#[trigger] xs@[j]@),
    decreases xs@.len() - i,
{
    let ghost v = xs@.map_values(|c: String| c@);
    if i == xs.len() {
        assert(v.skip(i as int) =~= Seq::<Seq<char>>::empty());
        assert(out@ =~= old(out)@ + tail_bytes(v.skip(i as int)));
        return;
    }
    let ghost start = out@;
    put_byte(out, COMMA);
    put_nl(out, 4);
    put_str(out, xs[i].as_str());
    put_tail(out, xs, i + 1);
    assert(v.skip(i as int).drop_first() =~= v.skip(i + 1));
    assert(v.skip(i as int)[0] == xs@[i as int]@);
    assert(out@ =~= start + tail_bytes(v.skip(i as int)));
}

fn put_array(out: &mut Vec<u8>, xs: &Vec<String>)
    ensures
        final(out)@ == old(out)@ + array_bytes(xs@.map_values(|c: String| c@)),
        forall|j: int| 0 <= j < xs@.len() ==> quotes_back(#[trigger] xs@[j]@),
{
    let ghost start = out@;
    let ghost v = xs@.map_values(|c: String| c@);
    if xs.len() == 0 {
        put_byte(out, LBRACKET);
        put_byte(out, RBRACKET);
        assert(out@ =~= start + array_bytes(v));
        return;
    }
    put_byte(out, LBRACKET);
    put_nl(out, 4);
    put_str(out, xs[0].as_str());
    put_tail(out, xs, 1);
    put_nl(out, 2);
    put_byte(out, RBRACKET);
    assert(v.drop_first() =~= v.skip(1));
    assert(out@ =~= start + array_bytes(v));
}

fn mode_tag(m: OperationMode) -> (r: &'static str)
    ensures
        r@ == mode_name(m),
{
    match m {
        OperationMode::Local => "Local",
        OperationMode::Public => "Public",
    }
}

fn put_settings(out: &mut Vec<u8>, s: &AppSettings)
    ensures
        final(out)@ == old(out)@ + settings_bytes(s@),
        quotes_back(s@.ui_language),
        quotes_back(mode_name(s@.mode)),
        quotes_back(s@.server_url),
        quotes_back("ui_language"@),
        quotes_back("mode"@),
        quotes_back("server_url"@),
{
    let ghost start = out@;
    put_byte(out, LBRACE);
    put_member_head(out, 4, "ui_language");
    put_str(out, s.ui_language.as_str());
    put_byte(out, COMMA);
    put_member_head(out, 4, "mode");
    put_str(out, mode_tag(s.mode));
    put_byte(out, COMMA);
    put_member_head(out, 4, "server_url");
    put_str(out, s.server_url.as_str());
    put_nl(out, 2);
    put_byte(out, RBRACE);
    assert(out@ =~= start + settings_bytes(s@));
}

/// Encodes a document as pretty-printed JSON text, which `decode` reads back as
/// the same document.
#[verifier::rlimit(40)]
pub fn encode(data: &AppData) -> (r: Vec<u8>)
    ensures
        r@ == document_bytes(data@),
        parse_document(r@) == Some(data@),
{
    let mut out: Vec<u8> = Vec::new();
    put_byte(&mut out, LBRACE);
    put_member_head(&mut out, 2, "clippings");
    put_array(&mut out, &data.clippings);
    put_byte(&mut out, COMMA);
    put_member_head(&mut out, 2, "last_session_content");
    put_str(&mut out, data.last_session_content.as_str());
    put_byte(&mut out, COMMA);
    put_member_head(&mut out, 2, "settings");
    put_settings(&mut out, &data.settings);
    put_nl(&mut out, 0);
    put_byte(&mut out, RBRACE);
    assert(out@ =~= document_bytes(data@));
    proof {
        let d = data@;
        assert forall|i: int| 0 <= i < d.clippings.len() implies quotes_back(#[trigger] d.clippings[i]) by {
            assert(d.clippings[i] == data.clippings@[i]@);
        }
        lemma_document(d);
    }
    out
}

} // verus!
