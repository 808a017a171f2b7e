//! The persistence gateway's decisions: which bytes a save writes, and which
//! document a load yields from whatever the backend found.
use vstd::prelude::*;
use crate::codec::{
    COLON, COMMA, LBRACE, RBRACE, decode, mode_of, parse_byte, parse_document, parse_members,
    parse_setting_members, parse_settings, set_field, set_setting,
};
use crate::text::{parse_str, trim_ws};
use crate::encode::{document_bytes, encode, lemma_field_keys, lemma_setting_keys};
use crate::model::{AppData, DataModel, SettingsModel, default_data, default_settings};

verus! {

/// Cross-platform storage manager for persisting application state.
pub struct StorageManager;

/// The document that a load yields: the stored one where the backend found
/// bytes that decode, the default document otherwise.
pub open spec fn loaded(stored: Option<Seq<u8>>) -> DataModel {
    match stored {
        Some(b) => match parse_document(b) {
            Some(d) => d,
            None => default_data(),
        },
        None => default_data(),
    }
}

impl StorageManager {
    /// The key under which the browser backend stores the document.
    pub const STORAGE_KEY: &'static str = "decistudio_data";

    /// The file, inside the per-user configuration directory, that the native
    /// backend writes.
    pub const FILE_NAME: &'static str = "storage.json";

    /// The bytes that a save writes, replacing whatever the backend held; a
    /// later load of them yields `data` again.
    pub fn payload(data: &AppData) -> (r: Vec<u8>)
        ensures
            r@ == document_bytes(data@),
            parse_document(r@) == Some(data@),
            loaded(Some(r@)) == data@,
    {
        encode(data)
    }

    /// Decodes stored bytes, or `None` where they hold no document.
    pub fn decode(bytes: &[u8]) -> (r: Option<AppData>)
        ensures
            match r {
                Some(d) => parse_document(bytes@) == Some(d@),
                None => parse_document(bytes@) is None,
            },
    {
        decode(bytes)
    }

    /// The document that a load yields from what the backend found: `None`
    /// where nothing was ever saved or the storage could not be read. Never
    /// fails: absent or undecodable bytes give the default document.
    pub fn restore(stored: Option<&[u8]>) -> (r: AppData)
        ensures
            r@ == loaded(
                match stored {
                    Some(b) => Some(b@),
                    None => None,
                },
            ),
            stored is None ==> r@ == default_data(),
            (match stored {
                Some(b) => parse_document(b@) is None,
                None => false,
            }) ==> r@ == default_data(),
    {
        match stored {
            None => AppData::default(),
            Some(b) => match decode(b) {
                Some(d) => d,
                None => AppData::default(),
            },
        }
    }
}

/// Whether, in the settings member list `s` read from `acc` on, a member named
/// `mode` carries a tag that names no operation mode.
pub open spec fn unknown_mode_in(s: Seq<u8>, acc: SettingsModel) -> bool
    decreases s.len(),
{
    match parse_str(s) {
        Some((k, r1)) => match parse_byte(r1, COLON) {
            Some(r2) => (k == "mode"@ && match parse_str(r2) {
                Some((v, _r)) => mode_of(v) is None,
                None => false,
            }) || match set_setting(acc, k, r2) {
                Some((acc2, r3)) => match parse_byte(r3, COMMA) {
                    Some(r4) => r4.len() < s.len() && unknown_mode_in(r4, acc2),
                    None => false,
                },
                None => false,
            },
            None => false,
        },
        None => false,
    }
}

proof fn lemma_unknown_mode_members(s: Seq<u8>, acc: SettingsModel)
    requires
        unknown_mode_in(s, acc),
    ensures
        parse_setting_members(s, acc) is None,
    decreases s.len(),
{
    lemma_setting_keys();
    let (k, r1) = parse_str(s)->Some_0;
    let r2 = parse_byte(r1, COLON)->Some_0;
    if set_setting(acc, k, r2) is Some {
        let (acc2, r3) = set_setting(acc, k, r2)->Some_0;
        if parse_byte(r3, COMMA) is Some {
            let r4 = parse_byte(r3, COMMA)->Some_0;
            if r4.len() < s.len() && unknown_mode_in(r4, acc2) {
                lemma_unknown_mode_members(r4, acc2);
            }
        }
    }
}

/// A settings object with a `mode` member whose tag is neither `Local` nor
/// `Public` is refused, never read as some mode; a document holding it then
/// fails to decode and a load falls back to the defaults.
pub proof fn lemma_mode_tag_closed(b: Seq<u8>)
    requires
        match parse_byte(b, LBRACE) {
            Some(r) => unknown_mode_in(r, default_settings()),
            None => false,
        },
    ensures
        parse_settings(b) is None,
{
    let r = parse_byte(b, LBRACE)->Some_0;
    lemma_unknown_mode_members(r, default_settings());
    assert(parse_str(r) is Some);
    assert(parse_byte(r, RBRACE) is None) by {
        let t = trim_ws(r);
        assert(t.len() > 0 && t[0] == crate::text::QUOTE);
    }
}

/// Whether, in the document member list `s` read from `acc` on, a member named
/// `settings` holds a `mode` member whose tag names no operation mode.
pub open spec fn unknown_mode_in_document(s: Seq<u8>, acc: DataModel) -> bool
    decreases s.len(),
{
    match parse_str(s) {
        Some((k, r1)) => match parse_byte(r1, COLON) {
            Some(r2) => (k == "settings"@ && match parse_byte(r2, LBRACE) {
                Some(r) => unknown_mode_in(r, default_settings()),
                None => false,
            }) || match set_field(acc, k, r2) {
                Some((acc2, r3)) => match parse_byte(r3, COMMA) {
                    Some(r4) => r4.len() < s.len() && unknown_mode_in_document(r4, acc2),
                    None => false,
                },
                None => false,
            },
            None => false,
        },
        None => false,
    }
}

proof fn lemma_unknown_mode_document_members(s: Seq<u8>, acc: DataModel)
    requires
        unknown_mode_in_document(s, acc),
    ensures
        parse_members(s, acc) is None,
    decreases s.len(),
{
    lemma_field_keys();
    let (k, r1) = parse_str(s)->Some_0;
    let r2 = parse_byte(r1, COLON)->Some_0;
    if k == "settings"@ && parse_byte(r2, LBRACE) is Some && unknown_mode_in(
        parse_byte(r2, LBRACE)->Some_0,
        default_settings(),
    ) {
        lemma_mode_tag_closed(r2);
    } else {
        let (acc2, r3) = set_field(acc, k, r2)->Some_0;
        let r4 = parse_byte(r3, COMMA)->Some_0;
        lemma_unknown_mode_document_members(r4, acc2);
    }
}

/// Stored text whose settings carry a mode tag outside `Local` and `Public`
/// does not decode: it is treated as corrupt, not coerced to some mode.
pub proof fn lemma_unknown_mode_not_decoded(b: Seq<u8>)
    requires
        match parse_byte(b, LBRACE) {
            Some(r) => unknown_mode_in_document(r, default_data()),
            None => false,
        },
    ensures
        parse_document(b) is None,
        loaded(Some(b)) == default_data(),
{
    let r = parse_byte(b, LBRACE)->Some_0;
    lemma_unknown_mode_document_members(r, default_data());
    assert(parse_byte(r, RBRACE) is None) by {
        let t = trim_ws(r);
        assert(t.len() > 0 && t[0] == crate::text::QUOTE);
    }
}

/// Whether a member of the document object's member list `s`, read from the
/// accumulated document `acc` on, is named `key`.
pub open spec fn member_named(s: Seq<u8>, acc: DataModel, key: Seq<char>) -> bool
    decreases s.len(),
{
    match parse_str(s) {
        Some((k, r1)) => k == key || match parse_byte(r1, COLON) {
            Some(r2) => match set_field(acc, k, r2) {
                Some((acc2, r3)) => match parse_byte(r3, COMMA) {
                    Some(r4) => r4.len() < s.len() && member_named(r4, acc2, key),
                    None => false,
                },
                None => false,
            },
            None => false,
        },
        None => false,
    }
}

/// Whether the stored document text has a top-level member named `key`.
pub open spec fn names_member(b: Seq<u8>, key: Seq<char>) -> bool {
    match parse_byte(b, LBRACE) {
        Some(r) => match parse_byte(r, RBRACE) {
            Some(_) => false,
            None => member_named(r, default_data(), key),
        },
        None => false,
    }
}

proof fn lemma_unnamed_members_kept(s: Seq<u8>, acc: DataModel)
    requires
        parse_members(s, acc) is Some,
    ensures
        !member_named(s, acc, "clippings"@) ==> parse_members(s, acc)->Some_0.0.clippings
            == acc.clippings,
        !member_named(s, acc, "last_session_content"@) ==> parse_members(s, acc)->Some_0.0.last_session_content
            == acc.last_session_content,
        !member_named(s, acc, "settings"@) ==> parse_members(s, acc)->Some_0.0.settings
            == acc.settings,
    decreases s.len(),
{
    lemma_field_keys();
    let (k, r1) = parse_str(s)->Some_0;
    let r2 = parse_byte(r1, COLON)->Some_0;
    let (acc2, r3) = set_field(acc, k, r2)->Some_0;
    match parse_byte(r3, COMMA) {
        Some(r4) => {
            lemma_unnamed_members_kept(r4, acc2);
        },
        None => {},
    }
}

/// A stored document that decodes but lacks a member keeps that field's
/// default value: payloads written before a field existed still load.
pub proof fn lemma_missing_member_default(b: Seq<u8>)
    requires
        parse_document(b) is Some,
    ensures
        !names_member(b, "clippings"@) ==> parse_document(b)->Some_0.clippings
            == default_data().clippings,
        !names_member(b, "last_session_content"@) ==> parse_document(b)->Some_0.last_session_content
            == default_data().last_session_content,
        !names_member(b, "settings"@) ==> parse_document(b)->Some_0.settings
            == default_data().settings,
{
    let r = parse_byte(b, LBRACE)->Some_0;
    if parse_byte(r, RBRACE) is None {
        lemma_unnamed_members_kept(r, default_data());
    }
}

/// Whether a member of the settings object's member list `s`, read from the
/// accumulated settings `acc` on, is named `key`.
pub open spec fn setting_named(s: Seq<u8>, acc: SettingsModel, key: Seq<char>) -> bool
    decreases s.len(),
{
    match parse_str(s) {
        Some((k, r1)) => k == key || match parse_byte(r1, COLON) {
            Some(r2) => match set_setting(acc, k, r2) {
                Some((acc2, r3)) => match parse_byte(r3, COMMA) {
                    Some(r4) => r4.len() < s.len() && setting_named(r4, acc2, key),
                    None => false,
                },
                None => false,
            },
            None => false,
        },
        None => false,
    }
}

/// Whether the settings object that starts `b` has a member named `key`.
pub open spec fn names_setting(b: Seq<u8>, key: Seq<char>) -> bool {
    match parse_byte(b, LBRACE) {
        Some(r) => match parse_byte(r, RBRACE) {
            Some(_) => false,
            None => setting_named(r, default_settings(), key),
        },
        None => false,
    }
}

proof fn lemma_unnamed_settings_kept(s: Seq<u8>, acc: SettingsModel)
    requires
        parse_setting_members(s, acc) is Some,
    ensures
        !setting_named(s, acc, "ui_language"@) ==> parse_setting_members(s, acc)->Some_0.0.ui_language
            == acc.ui_language,
        !setting_named(s, acc, "mode"@) ==> parse_setting_members(s, acc)->Some_0.0.mode
            == acc.mode,
        !setting_named(s, acc, "server_url"@) ==> parse_setting_members(s, acc)->Some_0.0.server_url
            == acc.server_url,
    decreases s.len(),
{
    lemma_setting_keys();
    let (k, r1) = parse_str(s)->Some_0;
    let r2 = parse_byte(r1, COLON)->Some_0;
    let (acc2, r3) = set_setting(acc, k, r2)->Some_0;
    match parse_byte(r3, COMMA) {
        Some(r4) => {
            lemma_unnamed_settings_kept(r4, acc2);
        },
        None => {},
    }
}

/// A settings object that decodes but lacks a member keeps that setting's
/// default value.
pub proof fn lemma_missing_setting_default(b: Seq<u8>)
    requires
        parse_settings(b) is Some,
    ensures
        !names_setting(b, "ui_language"@) ==> parse_settings(b)->Some_0.0.ui_language
            == default_settings().ui_language,
        !names_setting(b, "mode"@) ==> parse_settings(b)->Some_0.0.mode == default_settings().mode,
        !names_setting(b, "server_url"@) ==> parse_settings(b)->Some_0.0.server_url
            == default_settings().server_url,
{
    let r = parse_byte(b, LBRACE)->Some_0;
    if parse_byte(r, RBRACE) is None {
        lemma_unnamed_settings_kept(r, default_settings());
    }
}

} // verus!
