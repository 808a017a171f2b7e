//! JSON text at the byte level: whitespace, string literals, and the two
//! calls into serde_json that quote and unquote a single string.
use vstd::prelude::*;
use vstd::slice::slice_subrange;

verus! {

pub const QUOTE: u8 = 0x22;

pub const BACKSLASH: u8 = 0x5c;

/// JSON insignificant whitespace: space, tab, line feed, carriage return.
pub open spec fn is_ws(c: u8) -> bool {
    c == 0x20 || c == 0x09 || c == 0x0a || c == 0x0d
}

/// The text with its leading whitespace removed.
pub open spec fn trim_ws(s: Seq<u8>) -> Seq<u8>
    decreases s.len(),
{
    if s.len() > 0 && is_ws(s[0]) {
        trim_ws(s.drop_first())
    } else {
        s
    }
}

/// Length of a string literal's body, from just after the opening quote up to
/// (not including) the closing quote; a backslash always takes the next byte
/// with it.
pub open spec fn body_len(s: Seq<u8>) -> Option<nat>
    decreases s.len(),
{
    if s.len() == 0 {
        None
    } else if s[0] == QUOTE {
        Some(0)
    } else if s[0] == BACKSLASH {
        if s.len() < 2 {
            None
        } else {
            match body_len(s.subrange(2, s.len() as int)) {
                Some(n) => Some(n + 2),
                None => None,
            }
        }
    } else {
        match body_len(s.drop_first()) {
            Some(n) => Some(n + 1),
            None => None,
        }
    }
}

/// Length of the string literal that starts the text, quotes included.
pub open spec fn literal_len(s: Seq<u8>) -> Option<nat> {
    if s.len() > 0 && s[0] == QUOTE {
        match body_len(s.drop_first()) {
            Some(n) => Some(n + 2),
            None => None,
        }
    } else {
        None
    }
}

/// The text is exactly one string literal.
pub open spec fn is_literal(p: Seq<u8>) -> bool {
    literal_len(p) == Some(p.len())
}

/// serde_json's encoding of a string as a JSON string literal.
pub uninterp spec fn json_quoted(s: Seq<char>) -> Seq<u8>;

/// serde_json's decoding of a JSON string literal, `None` where it is refused.
pub uninterp spec fn json_unquoted(b: Seq<u8>) -> Option<Seq<char>>;

/// The literal that encodes `v` is read back as `v`.
pub open spec fn quotes_back(v: Seq<char>) -> bool {
    &&& is_literal(json_quoted(v))
    &&& json_unquoted(json_quoted(v)) == Some(v)
}

/// Relies on serde_json's `Display` for `Value::String`: it writes the string
/// as one JSON string literal (quote, body with `"`, `\` and control characters
/// escaped by a backslash sequence, quote), which serde_json's own string
/// deserializer reads back as the same string.
#[verifier::external_body]
pub(crate) fn quote(s: &str) -> (r: Vec<u8>)
    ensures
        r@ == json_quoted(s@),
        is_literal(r@),
        json_unquoted(r@) == Some(s@),
{
    serde_json::Value::String(s.to_owned()).to_string().into_bytes()
}

/// Relies on `serde_json::from_slice::<String>`: decodes the bytes `b[start..end]`
/// as one JSON string, or refuses them.
#[verifier::external_body]
pub(crate) fn unquote(b: &[u8], start: usize, end: usize) -> (r: Option<String>)
    requires
        start <= end <= b@.len(),
    ensures
        match r {
            Some(v) => json_unquoted(b@.subrange(start as int, end as int)) == Some(v@),
            None => json_unquoted(b@.subrange(start as int, end as int)) is None,
        },
{
    serde_json::from_slice::<String>(&b[start..end]).ok()
}

/// Index of the first byte at or after `i` that is not whitespace.
pub fn skip_ws(b: &[u8], i: usize) -> (r: usize)
    requires
        i <= b@.len(),
    ensures
        i <= r <= b@.len(),
        b@.skip(r as int) == trim_ws(b@.skip(i as int)),
{
    let mut j = i;
    while j < b.len() && (b[j] == 0x20 || b[j] == 0x09 || b[j] == 0x0a || b[j] == 0x0d)
        invariant
            i <= j <= b@.len(),
            trim_ws(b@.skip(j as int)) == trim_ws(b@.skip(i as int)),
        decreases b@.len() - j,
    {
        assert(b@.skip(j as int).drop_first() =~= b@.skip(j + 1));
        j = j + 1;
    }
    j
}

/// Length of the string literal that starts at `i`, quotes included.
pub fn scan_literal(b: &[u8], i: usize) -> (r: Option<usize>)
    requires
        i <= b@.len(),
    ensures
        match r {
            Some(n) => literal_len(b@.skip(i as int)) == Some(n as nat) && i + n <= b@.len(),
            None => literal_len(b@.skip(i as int)) is None,
        },
{
    if i >= b.len() || b[i] != QUOTE {
        return None;
    }
    let ghost s = b@.skip(i as int);
    assert(s.drop_first() =~= b@.skip(i + 1));
    let mut j = i + 1;
    while j < b.len()
        invariant
            i < j <= b@.len(),
            s == b@.skip(i as int),
            s.len() > 0 && s[0] == QUOTE,
            body_len(s.drop_first()) == match body_len(b@.skip(j as int)) {
                Some(n) => Some(n + (j - i - 1) as nat),
                None => None::<nat>,
            },
        decreases b@.len() - j,
    {
        let c = b[j];
        if c == QUOTE {
            return Some(j - i + 1);
        } else if c == BACKSLASH {
            if j + 1 >= b.len() {
                return None;
            }
            assert(b@.skip(j as int).subrange(2, b@.len() - j) =~= b@.skip(j + 2));
            j = j + 2;
        } else {
            assert(b@.skip(j as int).drop_first() =~= b@.skip(j + 1));
            j = j + 1;
        }
    }
    None
}

/// Reads the string literal that starts at or after `i`, past whitespace;
/// returns the string and the index just past the literal.
pub fn read_string(b: &[u8], i: usize) -> (r: Option<(String, usize)>)
    requires
        i <= b@.len(),
    ensures
        match r {
            Some((v, e)) => i < e <= b@.len() && parse_str(b@.skip(i as int)) == Some(
                (v@, b@.skip(e as int)),
            ),
            None => parse_str(b@.skip(i as int)) is None,
        },
{
    let k = skip_ws(b, i);
    match scan_literal(b, k) {
        None => None,
        Some(n) => {
            let ghost t = b@.skip(k as int);
            assert(t.take(n as int) =~= b@.subrange(k as int, k + n));
            assert(t.skip(n as int) =~= b@.skip(k + n));
            assert(k + n <= b.len());
            match unquote(b, k, k + n) {
                None => None,
                Some(v) => Some((v, k + n)),
            }
        },
    }
}

/// Reads one string literal after leading whitespace: its value and what
/// follows it.
pub open spec fn parse_str(s: Seq<u8>) -> Option<(Seq<char>, Seq<u8>)> {
    let t = trim_ws(s);
    match literal_len(t) {
        Some(n) => match json_unquoted(t.take(n as int)) {
            Some(v) => Some((v, t.skip(n as int))),
            None => None,
        },
        None => None,
    }
}

} // verus!
