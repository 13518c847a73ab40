//! System information read from the contents of `/etc/os-release`, used to
//! describe the host in payloads.
use vstd::prelude::*;
use crate::text::{
    chars_of, is_whitespace, is_ws, lines, slice_chars, split_lines, starts_with, starts_with_chars, string_of, trim,
    trim_chars, trim_end_char, trim_end_char_chars, trim_start_char, trim_start_char_chars,
};

verus! {

/// The value on a line that begins with the key, after the key's length:
/// trimmed, without a leading `=`, trimmed again, without surrounding quotes.
pub open spec fn release_value(line: Seq<char>, key_len: nat) -> Seq<char> {
    let rest = trim(line.skip(key_len as int));
    let v = if starts_with(rest, seq!['=']) {
        trim(rest.skip(1))
    } else {
        trim(rest)
    };
    trim_end_char(trim_start_char(v, '"'), '"')
}

/// Whether `line` is an entry for `key`: it begins with the key, and the key
/// ends the line or is followed by `=` or whitespace.
pub open spec fn names_key(line: Seq<char>, key: Seq<char>) -> bool {
    &&& starts_with(line, key)
    &&& (line.len() == key.len() || line[key.len() as int] == '=' || is_ws(line[key.len() as int]))
}

/// The value of the first of `ls` that is an entry for `key`.
pub open spec fn release_field(ls: Seq<Seq<char>>, key: Seq<char>) -> Option<Seq<char>>
    decreases ls.len(),
{
    if ls.len() == 0 {
        None
    } else if names_key(ls[0], key) {
        Some(release_value(ls[0], key.len()))
    } else {
        release_field(ls.drop_first(), key)
    }
}

/// A field of the os-release contents, or `fallback` where the contents are
/// missing or lack it.
pub open spec fn release_or(content: Option<Seq<char>>, key: Seq<char>, fallback: Seq<char>) -> Seq<char> {
    match content {
        Some(c) => match release_field(lines(c), key) {
            Some(v) => v,
            None => fallback,
        },
        None => fallback,
    }
}

/// The view of optional text.
pub open spec fn opt_view(s: Option<&str>) -> Option<Seq<char>> {
    match s {
        Some(x) => Some(x@),
        None => None,
    }
}

/// Parse a single `KEY="VALUE"` field from os-release contents: the first
/// line that is an entry for `key` (the key, then `=`, whitespace or the end
/// of the line).
pub fn parse_os_release_field(content: &str, key: &str) -> (r: Option<String>)
    ensures
        match r {
            Some(v) => release_field(lines(content@), key@) == Some(v@),
            None => release_field(lines(content@), key@) is None,
        },
{
    let c = chars_of(content);
    let k = chars_of(key);
    let ls = split_lines(c.as_slice());
    let ghost all = lines(content@);
    let mut i: usize = 0;
    assert(all.skip(0) =~= all);
    while i < ls.len()
        invariant
            i <= ls.len(),
            ls@.len() == all.len(),
            forall|j: int| 0 <= j < ls@.len() ==> #[trigger] ls@[j]@ == all[j],
            k@ == key@,
            all == lines(content@),
            release_field(all, key@) == release_field(all.skip(i as int), key@),
        decreases ls.len() - i,
    {
        let ghost rest = all.skip(i as int);
        assert(rest[0] == ls@[i as int]@);
        assert(rest.drop_first() =~= all.skip(i + 1));
        let line = &ls[i];
        let named = starts_with_chars(line.as_slice(), k.as_slice()) && (line.len() == k.len()
            || line[k.len()] == '=' || is_whitespace(line[k.len()]));
        if named {
            let after = slice_chars(line.as_slice(), k.len(), line.len());
            assert(after@ =~= line@.skip(k@.len() as int));
            let rest_t = trim_chars(after.as_slice());
            let v = if rest_t.len() > 0 && rest_t[0] == '=' {
                let tail = slice_chars(rest_t.as_slice(), 1, rest_t.len());
                assert(tail@ =~= rest_t@.skip(1));
                trim_chars(tail.as_slice())
            } else {
                trim_chars(rest_t.as_slice())
            };
            proof {
                crate::config::lemma_starts_with_char(rest_t@, '=');
            }
            let v1 = trim_start_char_chars(v.as_slice(), '"');
            let v2 = trim_end_char_chars(v1.as_slice(), '"');
            assert(trim(line@.skip(key@.len() as int)) == rest_t@);
            assert(v2@ == release_value(line@, key@.len()));
            assert(release_field(rest, key@) == Some(release_value(rest[0], key@.len())));
            return Some(string_of(v2.as_slice()));
        }
        i += 1;
    }
    None
}

/// A field of optional os-release contents, else `fallback`.
fn field_or(content: Option<&str>, key: &str, fallback: &str) -> (r: String)
    ensures
        r@ == release_or(opt_view(content), key@, fallback@),
{
    match content {
        Some(c) => match parse_os_release_field(c, key) {
            Some(v) => v,
            None => fallback.to_owned(),
        },
        None => fallback.to_owned(),
    }
}

/// The OS pretty-name (`PRETTY_NAME`), else `Linux`.
pub fn os_name(os_release: Option<&str>) -> (r: String)
    ensures
        r@ == release_or(opt_view(os_release), "PRETTY_NAME"@, "Linux"@),
{
    field_or(os_release, "PRETTY_NAME", "Linux")
}

/// The OS version (`VERSION_ID`), else `unknown`.
pub fn os_version(os_release: Option<&str>) -> (r: String)
    ensures
        r@ == release_or(opt_view(os_release), "VERSION_ID"@, "unknown"@),
{
    field_or(os_release, "VERSION_ID", "unknown")
}

/// The platform identifier (`PLATFORM_ID`), else `unknown`.
pub fn os_id(os_release: Option<&str>) -> (r: String)
    ensures
        r@ == release_or(opt_view(os_release), "PLATFORM_ID"@, "unknown"@),
{
    field_or(os_release, "PLATFORM_ID", "unknown")
}

} // verus!
