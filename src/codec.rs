//! The stored document format: a JSON object whose members are named after the
//! document's fields. Members may come in any order; a member that is absent
//! keeps its default value; a member that repeats overrides the earlier one;
//! a member under any other name, or a value of another shape, is refused.
use vstd::prelude::*;
use crate::model::{
    AppData, AppSettings, DataModel, OperationMode, SettingsModel, default_data, default_settings,
};
use crate::text::{parse_str, read_string, skip_ws, trim_ws};

verus! {

pub const COMMA: u8 = 0x2c;

pub const COLON: u8 = 0x3a;

pub const LBRACKET: u8 = 0x5b;

pub const RBRACKET: u8 = 0x5d;

pub const LBRACE: u8 = 0x7b;

pub const RBRACE: u8 = 0x7d;

/// What follows the byte `c`, where `c` is the first byte after whitespace.
pub open spec fn parse_byte(s: Seq<u8>, c: u8) -> Option<Seq<u8>> {
    let t = trim_ws(s);
    if t.len() > 0 && t[0] == c {
        Some(t.drop_first())
    } else {
        None
    }
}

/// The operation mode that a stored tag names; any other tag names none.
pub open spec fn mode_of(v: Seq<char>) -> Option<OperationMode> {
    if v == "Local"@ {
        Some(OperationMode::Local)
    } else if v == "Public"@ {
        Some(OperationMode::Public)
    } else {
        None
    }
}

pub open spec fn parse_mode(s: Seq<u8>) -> Option<(OperationMode, Seq<u8>)> {
    match parse_str(s) {
        Some((v, r)) => match mode_of(v) {
            Some(m) => Some((m, r)),
            None => None,
        },
        None => None,
    }
}

/// The items of a non-empty array of strings, after its `[`, appended to `acc`.
pub open spec fn parse_items(s: Seq<u8>, acc: Seq<Seq<char>>) -> Option<(Seq<Seq<char>>, Seq<u8>)>
    decreases s.len(),
{
    match parse_str(s) {
        Some((v, r)) => match parse_byte(r, COMMA) {
            Some(r2) => if r2.len() < s.len() {
                parse_items(r2, acc.push(v))
            } else {
                None
            },
            None => match parse_byte(r, RBRACKET) {
                Some(r2) => Some((acc.push(v), r2)),
                None => None,
            },
        },
        None => None,
    }
}

pub open spec fn parse_str_array(s: Seq<u8>) -> Option<(Seq<Seq<char>>, Seq<u8>)> {
    match parse_byte(s, LBRACKET) {
        Some(r) => match parse_byte(r, RBRACKET) {
            Some(r2) => Some((Seq::empty(), r2)),
            None => parse_items(r, Seq::empty()),
        },
        None => None,
    }
}

/// Reads the value of the settings member named `key` into `acc`.
pub open spec fn set_setting(acc: SettingsModel, key: Seq<char>, s: Seq<u8>) -> Option<(SettingsModel, Seq<u8>)> {
    if key == "ui_language"@ {
        match parse_str(s) {
            Some((v, r)) => Some((SettingsModel { ui_language: v, ..acc }, r)),
            None => None,
        }
    } else if key == "mode"@ {
        match parse_mode(s) {
            Some((m, r)) => Some((SettingsModel { mode: m, ..acc }, r)),
            None => None,
        }
    } else if key == "server_url"@ {
        match parse_str(s) {
            Some((v, r)) => Some((SettingsModel { server_url: v, ..acc }, r)),
            None => None,
        }
    } else {
        None
    }
}

/// The members of a non-empty settings object, after its `{`, applied to `acc`.
pub open spec fn parse_setting_members(s: Seq<u8>, acc: SettingsModel) -> Option<(SettingsModel, Seq<u8>)>
    decreases s.len(),
{
    match parse_str(s) {
        Some((k, r1)) => match parse_byte(r1, COLON) {
            Some(r2) => match set_setting(acc, k, r2) {
                Some((acc2, r3)) => match parse_byte(r3, COMMA) {
                    Some(r4) => if r4.len() < s.len() {
                        parse_setting_members(r4, acc2)
                    } else {
                        None
                    },
                    None => match parse_byte(r3, RBRACE) {
                        Some(r4) => Some((acc2, r4)),
                        None => None,
                    },
                },
                None => None,
            },
            None => None,
        },
        None => None,
    }
}

pub open spec fn parse_settings(s: Seq<u8>) -> Option<(SettingsModel, Seq<u8>)> {
    match parse_byte(s, LBRACE) {
        Some(r) => match parse_byte(r, RBRACE) {
            Some(r2) => Some((default_settings(), r2)),
            None => parse_setting_members(r, default_settings()),
        },
        None => None,
    }
}

/// Reads the value of the document member named `key` into `acc`.
pub open spec fn set_field(acc: DataModel, key: Seq<char>, s: Seq<u8>) -> Option<(DataModel, Seq<u8>)> {
    if key == "clippings"@ {
        match parse_str_array(s) {
            Some((v, r)) => Some((DataModel { clippings: v, ..acc }, r)),
            None => None,
        }
    } else if key == "last_session_content"@ {
        match parse_str(s) {
            Some((v, r)) => Some((DataModel { last_session_content: v, ..acc }, r)),
            None => None,
        }
    } else if key == "settings"@ {
        match parse_settings(s) {
            Some((v, r)) => Some((DataModel { settings: v, ..acc }, r)),
            None => None,
        }
    } else {
        None
    }
}

/// The members of a non-empty document object, after its `{`, applied to `acc`.
pub open spec fn parse_members(s: Seq<u8>, acc: DataModel) -> Option<(DataModel, Seq<u8>)>
    decreases s.len(),
{
    match parse_str(s) {
        Some((k, r1)) => match parse_byte(r1, COLON) {
            Some(r2) => match set_field(acc, k, r2) {
                Some((acc2, r3)) => match parse_byte(r3, COMMA) {
                    Some(r4) => if r4.len() < s.len() {
                        parse_members(r4, acc2)
                    } else {
                        None
                    },
                    None => match parse_byte(r3, RBRACE) {
                        Some(r4) => Some((acc2, r4)),
                        None => None,
                    },
                },
                None => None,
            },
            None => None,
        },
        None => None,
    }
}

pub open spec fn parse_object(s: Seq<u8>) -> Option<(DataModel, Seq<u8>)> {
    match parse_byte(s, LBRACE) {
        Some(r) => match parse_byte(r, RBRACE) {
            Some(r2) => Some((default_data(), r2)),
            None => parse_members(r, default_data()),
        },
        None => None,
    }
}

/// The document that stored bytes hold: one object and nothing after it but
/// whitespace; `None` where the bytes are no such document.
pub open spec fn parse_document(b: Seq<u8>) -> Option<DataModel> {
    match parse_object(b) {
        Some((d, r)) => if trim_ws(r).len() == 0 {
            Some(d)
        } else {
            None
        },
        None => None,
    }
}

/// Index just past the byte `c`, where `c` is the first byte at or after `i`
/// that is not whitespace.
pub fn expect_byte(b: &[u8], i: usize, c: u8) -> (r: Option<usize>)
    requires
        i <= b@.len(),
    ensures
        match r {
            Some(e) => i < e <= b@.len() && parse_byte(b@.skip(i as int), c) == Some(
                b@.skip(e as int),
            ),
            None => parse_byte(b@.skip(i as int), c) is None,
        },
{
    let k = skip_ws(b, i);
    if k < b.len() && b[k] == c {
        assert(b@.skip(k as int).drop_first() =~= b@.skip(k + 1));
        Some(k + 1)
    } else {
        None
    }
}

pub fn read_mode(b: &[u8], i: usize) -> (r: Option<(OperationMode, usize)>)
    requires
        i <= b@.len(),
    ensures
        match r {
            Some((m, e)) => i < e <= b@.len() && parse_mode(b@.skip(i as int)) == Some(
                (m, b@.skip(e as int)),
            ),
            None => parse_mode(b@.skip(i as int)) is None,
        },
{
    match read_string(b, i) {
        None => None,
        Some((v, e)) => {
            if v == String::from_str("Local") {
                Some((OperationMode::Local, e))
            } else if v == String::from_str("Public") {
                Some((OperationMode::Public, e))
            } else {
                None
            }
        },
    }
}

#[verifier::rlimit(40)]
pub fn read_str_array(b: &[u8], i: usize) -> (r: Option<(Vec<String>, usize)>)
    requires
        i <= b@.len(),
    ensures
        match r {
            Some((v, e)) => i < e <= b@.len() && parse_str_array(b@.skip(i as int)) == Some(
                (v@.map_values(|c: String| c@), b@.skip(e as int)),
            ),
            None => parse_str_array(b@.skip(i as int)) is None,
        },
{
    let j = match expect_byte(b, i, LBRACKET) {
        None => return None,
        Some(j) => j,
    };
    let mut items: Vec<String> = Vec::new();
    assert(items@.map_values(|c: String| c@) =~= Seq::<Seq<char>>::empty());
    if let Some(e) = expect_byte(b, j, RBRACKET) {
        return Some((items, e));
    }
    let ghost target = parse_items(b@.skip(j as int), Seq::empty());
    let mut k = j;
    loop
        invariant
            i < j <= k <= b@.len(),
            parse_items(b@.skip(k as int), items@.map_values(|c: String| c@)) == target,
            target == parse_str_array(b@.skip(i as int)),
        decreases b@.len() - k,
    {
        let (v, e) = match read_string(b, k) {
            None => return None,
            Some(p) => p,
        };
        let ghost acc = items@.map_values(|c: String| c@);
        items.push(v);
        assert(items@.map_values(|c: String| c@) =~= acc.push(v@));
        match expect_byte(b, e, COMMA) {
            Some(e2) => {
                k = e2;
            },
            None => {
                return match expect_byte(b, e, RBRACKET) {
                    Some(e2) => Some((items, e2)),
                    None => None,
                };
            },
        }
    }
}

#[verifier::rlimit(40)]
pub fn read_settings(b: &[u8], i: usize) -> (r: Option<(AppSettings, usize)>)
    requires
        i <= b@.len(),
    ensures
        match r {
            Some((v, e)) => i < e <= b@.len() && parse_settings(b@.skip(i as int)) == Some(
                (v@, b@.skip(e as int)),
            ),
            None => parse_settings(b@.skip(i as int)) is None,
        },
{
    let j = match expect_byte(b, i, LBRACE) {
        None => return None,
        Some(j) => j,
    };
    let mut acc = AppSettings::default();
    if let Some(e) = expect_byte(b, j, RBRACE) {
        return Some((acc, e));
    }
    let ghost target = parse_setting_members(b@.skip(j as int), default_settings());
    let mut k = j;
    proof {
        reveal_strlit("ui_language");
        reveal_strlit("mode");
        reveal_strlit("server_url");
    }
    loop
        invariant
            i < j <= k <= b@.len(),
            parse_setting_members(b@.skip(k as int), acc@) == target,
            target == parse_settings(b@.skip(i as int)),
        decreases b@.len() - k,
    {
        let (key, e1) = match read_string(b, k) {
            None => return None,
            Some(p) => p,
        };
        let e2 = match expect_byte(b, e1, COLON) {
            None => return None,
            Some(e) => e,
        };
        let e3;
        if key == String::from_str("ui_language") {
            match read_string(b, e2) {
                None => return None,
                Some((v, e)) => {
                    acc.ui_language = v;
                    e3 = e;
                },
            }
        } else if key == String::from_str("mode") {
            match read_mode(b, e2) {
                None => return None,
                Some((m, e)) => {
                    acc.mode = m;
                    e3 = e;
                },
            }
        } else if key == String::from_str("server_url") {
            match read_string(b, e2) {
                None => return None,
                Some((v, e)) => {
                    acc.server_url = v;
                    e3 = e;
                },
            }
        } else {
            return None;
        }
        match expect_byte(b, e3, COMMA) {
            Some(e4) => {
                k = e4;
            },
            None => {
                return match expect_byte(b, e3, RBRACE) {
                    Some(e4) => Some((acc, e4)),
                    None => None,
                };
            },
        }
    }
}

/// Decodes stored bytes into a document, or `None` where they hold none.
#[verifier::rlimit(40)]
pub fn decode(b: &[u8]) -> (r: Option<AppData>)
    ensures
        match r {
            Some(d) => parse_document(b@) == Some(d@),
            None => parse_document(b@) is None,
        },
{
    assert(b@.skip(0) =~= b@);
    let j = match expect_byte(b, 0, LBRACE) {
        None => return None,
        Some(j) => j,
    };
    let mut acc = AppData::default();
    let mut end: usize = j;
    if let Some(e) = expect_byte(b, j, RBRACE) {
        end = e;
    } else {
        let ghost target = parse_members(b@.skip(j as int), default_data());
        let mut k = j;
        proof {
            reveal_strlit("clippings");
            reveal_strlit("last_session_content");
            reveal_strlit("settings");
        }
        loop
            invariant
                0 < j <= k <= b@.len(),
                parse_members(b@.skip(k as int), acc@) == target,
                target == parse_object(b@),
            ensures
                end <= b@.len(),
                parse_object(b@) == Some((acc@, b@.skip(end as int))),
            decreases b@.len() - k,
        {
            let (key, e1) = match read_string(b, k) {
                None => return None,
                Some(p) => p,
            };
            let e2 = match expect_byte(b, e1, COLON) {
                None => return None,
                Some(e) => e,
            };
            let e3;
            if key == String::from_str("clippings") {
                match read_str_array(b, e2) {
                    None => return None,
                    Some((v, e)) => {
                        acc.clippings = v;
                        e3 = e;
                    },
                }
            } else if key == String::from_str("last_session_content") {
                match read_string(b, e2) {
                    None => return None,
                    Some((v, e)) => {
                        acc.last_session_content = v;
                        e3 = e;
                    },
                }
            } else if key == String::from_str("settings") {
                match read_settings(b, e2) {
                    None => return None,
                    Some((v, e)) => {
                        acc.settings = v;
                        e3 = e;
                    },
                }
            } else {
                return None;
            }
            match expect_byte(b, e3, COMMA) {
                Some(e4) => {
                    k = e4;
                },
                None => {
                    match expect_byte(b, e3, RBRACE) {
                        Some(e4) => {
                            end = e4;
                            break;
                        },
                        None => return None,
                    }
                },
            }
        }
    }
    let t = skip_ws(b, end);
    if t == b.len() {
        Some(acc)
    } else {
        None
    }
}

} // verus!
