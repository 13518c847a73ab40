//! File helpers: MIME type guessing and the naming of advisory lock files.
use vstd::prelude::*;
use crate::text::{append_str, chars_of, string_of};

verus! {

/// A name for the first MIME type that `mime_guess` maps the extension of
/// `path` to, if it maps it to any.
pub uninterp spec fn mime_guess_first(path: Seq<char>) -> Option<Seq<char>>;

/// `mime_guess::from_path(path).first()`, written out: the first MIME type
/// guessed from the path's extension. The contract names the result.
#[verifier::external_body]
fn mime_first(path: &str) -> (r: Option<String>)
    ensures
        match r {
            Some(m) => mime_guess_first(path@) == Some(m@),
            None => mime_guess_first(path@) is None,
        },
{
    mime_guess::from_path(path).first().map(|m| m.to_string())
}

/// The MIME type guessed for `path`, else `application/octet-stream`.
pub open spec fn mimetype_of(path: Seq<char>) -> Seq<char> {
    match mime_guess_first(path) {
        Some(m) => m,
        None => "application/octet-stream"@,
    }
}

/// Guess the MIME type of the file at `path` from its extension; where none
/// is known, `application/octet-stream`.
pub fn guess_mimetype(path: &str) -> (r: String)
    ensures
        r@ == mimetype_of(path@),
{
    match mime_first(path) {
        Some(m) => m,
        None => "application/octet-stream".to_owned(),
    }
}

/// `name` with `/` and `\` replaced by `_`.
pub open spec fn safe_lock_name(name: Seq<char>) -> Seq<char> {
    name.map_values(|c: char| if c == '/' || c == '\\' { '_' } else { c })
}

/// The file name of the lock called `name`: the name made safe as a single
/// path component, then `.lock`.
pub fn lock_file_name(name: &str) -> (r: String)
    ensures
        r@ == safe_lock_name(name@) + ".lock"@,
{
    let v = chars_of(name);
    let mut out: Vec<char> = Vec::new();
    let mut i: usize = 0;
    while i < v.len()
        invariant
            i <= v.len(),
            out@ == safe_lock_name(v@.take(i as int)),
        decreases v.len() - i,
    {
        let c = v[i];
        if c == '/' || c == '\\' {
            out.push('_');
        } else {
            out.push(c);
        }
        assert(safe_lock_name(v@.take(i + 1)) =~= out@);
        i += 1;
    }
    assert(v@.take(v.len() as int) =~= v@);
    append_str(&mut out, ".lock");
    string_of(out.as_slice())
}

/// A lock name made safe has no path separators.
pub proof fn lemma_lock_name_has_no_separator(name: Seq<char>, i: int)
    requires
        0 <= i < name.len(),
    ensures
        safe_lock_name(name)[i] != '/' && safe_lock_name(name)[i] != '\\',
{
}

} // verus!
