//! Character-level string utilities shared by the rendering and parsing code.
//!
//! Text is handled as sequences of `char`s; byte offsets of the UTF-8 encoding
//! are only computed where a caller needs them (`utf8_len`).
use vstd::prelude::*;

verus! {

// ---------------------------------------------------------------------------
// Specifications
// ---------------------------------------------------------------------------

/// Unicode `White_Space` (what `char::is_whitespace` and `str::trim` use).
pub open spec fn is_ws(c: char) -> bool {
    let u = c as u32;
    ||| u == 0x20
    ||| 0x09 <= u <= 0x0d
    ||| u == 0x85
    ||| u == 0xa0
    ||| u == 0x1680
    ||| 0x2000 <= u <= 0x200a
    ||| u == 0x2028
    ||| u == 0x2029
    ||| u == 0x202f
    ||| u == 0x205f
    ||| u == 0x3000
}

/// `s` without its leading whitespace (`str::trim_start`).
pub open spec fn trim_start(s: Seq<char>) -> Seq<char>
    decreases s.len(),
{
    if s.len() > 0 && is_ws(s[0]) {
        trim_start(s.drop_first())
    } else {
        s
    }
}

/// `s` without its trailing whitespace (`str::trim_end`).
pub open spec fn trim_end(s: Seq<char>) -> Seq<char>
    decreases s.len(),
{
    if s.len() > 0 && is_ws(s.last()) {
        trim_end(s.drop_last())
    } else {
        s
    }
}

/// `s` without leading and trailing whitespace (`str::trim`).
pub open spec fn trim(s: Seq<char>) -> Seq<char> {
    trim_end(trim_start(s))
}

/// `s` without its leading characters equal to `c` (`str::trim_start_matches`).
pub open spec fn trim_start_char(s: Seq<char>, c: char) -> Seq<char>
    decreases s.len(),
{
    if s.len() > 0 && s[0] == c {
        trim_start_char(s.drop_first(), c)
    } else {
        s
    }
}

/// `s` without its trailing characters equal to `c` (`str::trim_end_matches`).
pub open spec fn trim_end_char(s: Seq<char>, c: char) -> Seq<char>
    decreases s.len(),
{
    if s.len() > 0 && s.last() == c {
        trim_end_char(s.drop_last(), c)
    } else {
        s
    }
}

/// Whether `pat` occurs in `s` at position `i`.
pub open spec fn occurs_at(s: Seq<char>, pat: Seq<char>, i: int) -> bool {
    0 <= i && i + pat.len() <= s.len() && s.subrange(i, i + pat.len()) == pat
}

/// The first position `>= i` at which `pat` occurs in `s`.
pub open spec fn find_from(s: Seq<char>, pat: Seq<char>, i: nat) -> Option<nat>
    decreases s.len() + 1 - i,
{
    if i > s.len() || i + pat.len() > s.len() {
        None
    } else if occurs_at(s, pat, i as int) {
        Some(i)
    } else {
        find_from(s, pat, i + 1)
    }
}

/// The first position at which `pat` occurs in `s` (`str::find`).
pub open spec fn find(s: Seq<char>, pat: Seq<char>) -> Option<nat> {
    find_from(s, pat, 0)
}

/// Whether `s` begins with `pat` (`str::starts_with`).
pub open spec fn starts_with(s: Seq<char>, pat: Seq<char>) -> bool {
    pat.len() <= s.len() && s.subrange(0, pat.len() as int) == pat
}

/// Whether `s` ends with `pat` (`str::ends_with`).
pub open spec fn ends_with(s: Seq<char>, pat: Seq<char>) -> bool {
    pat.len() <= s.len() && s.subrange(s.len() - pat.len(), s.len() as int) == pat
}

/// Whether `pat` occurs anywhere in `s` (`str::contains`).
pub open spec fn contains_seq(s: Seq<char>, pat: Seq<char>) -> bool {
    exists|i: int| #[trigger] occurs_at(s, pat, i)
}

/// Number of occurrences of `c` in `s`.
pub open spec fn count_char(s: Seq<char>, c: char) -> nat
    decreases s.len(),
{
    if s.len() == 0 {
        0
    } else {
        count_char(s.drop_last(), c) + (if s.last() == c { 1nat } else { 0nat })
    }
}

/// `s` repeated `n` times (`str::repeat`).
pub open spec fn repeat(s: Seq<char>, n: nat) -> Seq<char>
    decreases n,
{
    if n == 0 {
        seq![]
    } else {
        repeat(s, (n - 1) as nat) + s
    }
}

/// Number of bytes of the UTF-8 encoding of `c` (`char::len_utf8`).
pub open spec fn utf8_width(c: char) -> nat {
    let u = c as u32;
    if u < 0x80 {
        1
    } else if u < 0x800 {
        2
    } else if u < 0x10000 {
        3
    } else {
        4
    }
}

/// Number of bytes of the UTF-8 encoding of `s` (`str::len`).
pub open spec fn utf8_len(s: Seq<char>) -> nat
    decreases s.len(),
{
    if s.len() == 0 {
        0
    } else {
        utf8_len(s.drop_last()) + utf8_width(s.last())
    }
}

/// `s` without one trailing carriage return, if it has one.
pub open spec fn strip_cr(s: Seq<char>) -> Seq<char> {
    if s.len() > 0 && s.last() == '\r' {
        s.drop_last()
    } else {
        s
    }
}

/// Line splitting with a partial line `cur` already read (see `lines`).
pub open spec fn lines_from(cur: Seq<char>, rest: Seq<char>) -> Seq<Seq<char>>
    decreases rest.len(),
{
    if rest.len() == 0 {
        if cur.len() == 0 {
            seq![]
        } else {
            seq![cur]
        }
    } else if rest[0] == '\n' {
        seq![strip_cr(cur)] + lines_from(seq![], rest.drop_first())
    } else {
        lines_from(cur.push(rest[0]), rest.drop_first())
    }
}

/// The lines of `s` (`str::lines`): split at `\n`, a `\r` right before the
/// `\n` dropped, and no empty line after a final line ending.
pub open spec fn lines(s: Seq<char>) -> Seq<Seq<char>> {
    lines_from(seq![], s)
}

// ---------------------------------------------------------------------------
// Lemmas
// ---------------------------------------------------------------------------

/// `s` with the range `a..b` replaced by `x`.
pub open spec fn splice(s: Seq<char>, a: int, b: int, x: Seq<char>) -> Seq<char> {
    s.take(a) + x + s.skip(b)
}

/// What a search result says about where `pat` occurs.
pub proof fn lemma_find_from(s: Seq<char>, pat: Seq<char>, i: nat)
    ensures
        match find_from(s, pat, i) {
            Some(p) => i <= p && p + pat.len() <= s.len() && occurs_at(s, pat, p as int) && forall|j: int|
                i <= j < p ==> !#[trigger] occurs_at(s, pat, j),
            None => forall|j: int| i <= j ==> !#[trigger] occurs_at(s, pat, j),
        },
    decreases s.len() + 1 - i,
{
    if i > s.len() || i + pat.len() > s.len() {
    } else if occurs_at(s, pat, i as int) {
    } else {
        lemma_find_from(s, pat, i + 1);
    }
}

/// A one-character pattern occurs exactly where that character stands.
pub proof fn lemma_occurs_char(s: Seq<char>, c: char, j: int)
    ensures
        occurs_at(s, seq![c], j) <==> (0 <= j < s.len() && s[j] == c),
{
    if 0 <= j < s.len() {
        if s[j] == c {
            assert(s.subrange(j, j + 1) =~= seq![c]);
        } else {
            assert(s.subrange(j, j + 1)[0] != seq![c][0]);
        }
    }
}

/// A two-character pattern occurs exactly where those characters stand.
pub proof fn lemma_occurs_pair(s: Seq<char>, c: char, d: char, j: int)
    ensures
        occurs_at(s, seq![c, d], j) <==> (0 <= j && j + 1 < s.len() && s[j] == c && s[j + 1] == d),
{
    if 0 <= j && j + 1 < s.len() {
        if s[j] == c && s[j + 1] == d {
            assert(s.subrange(j, j + 2) =~= seq![c, d]);
        } else if s[j] != c {
            assert(s.subrange(j, j + 2)[0] != seq![c, d][0]);
        } else {
            assert(s.subrange(j, j + 2)[1] != seq![c, d][1]);
        }
    }
}

/// Where the first occurrence of a character at or after `i` is.
pub proof fn lemma_find_char(s: Seq<char>, c: char, i: nat)
    ensures
        match find_from(s, seq![c], i) {
            Some(p) => i <= p < s.len() && s[p as int] == c && forall|j: int|
                i <= j < p ==> #[trigger] s[j] != c,
            None => forall|j: int| i <= j < s.len() ==> #[trigger] s[j] != c,
        },
{
    lemma_find_from(s, seq![c], i);
    assert forall|j: int| 0 <= j < s.len() implies (occurs_at(s, seq![c], j) <==> s[j] == c) by {
        lemma_occurs_char(s, c, j);
    }
    match find_from(s, seq![c], i) {
        Some(p) => {
            lemma_occurs_char(s, c, p as int);
        },
        None => {},
    }
}

/// Where the first occurrence of a two-character pattern at or after `i` is.
pub proof fn lemma_find_pair(s: Seq<char>, c: char, d: char, i: nat)
    ensures
        match find_from(s, seq![c, d], i) {
            Some(p) => i <= p && p + 2 <= s.len() && s[p as int] == c && s[p + 1int] == d && forall|j: int|
                i <= j < p ==> !(#[trigger] s[j] == c && s[j + 1] == d),
            None => forall|j: int| i <= j && j + 1 < s.len() ==> !(#[trigger] s[j] == c && s[j + 1] == d),
        },
{
    lemma_find_from(s, seq![c, d], i);
    match find_from(s, seq![c, d], i) {
        Some(p) => {
            lemma_occurs_pair(s, c, d, p as int);
            assert forall|j: int| i <= j < p implies !(#[trigger] s[j] == c && s[j + 1] == d) by {
                lemma_occurs_pair(s, c, d, j);
            }
        },
        None => {
            assert forall|j: int| i <= j && j + 1 < s.len() implies !(#[trigger] s[j] == c && s[j + 1] == d) by {
                lemma_occurs_pair(s, c, d, j);
            }
        },
    }
}

/// Counting over a splice.
pub proof fn lemma_count_splice(s: Seq<char>, a: int, b: int, x: Seq<char>, c: char)
    requires
        0 <= a <= b <= s.len(),
    ensures
        count_char(splice(s, a, b, x), c) + count_char(s.subrange(a, b), c) == count_char(s, c)
            + count_char(x, c),
{
    lemma_count_concat(s.take(a), x, c);
    lemma_count_concat(s.take(a) + x, s.skip(b), c);
    lemma_count_concat(s.take(a), s.subrange(a, b), c);
    lemma_count_concat(s.take(a) + s.subrange(a, b), s.skip(b), c);
    assert(s.take(a) + s.subrange(a, b) + s.skip(b) =~= s);
}

/// Counting over a range split at `k`.
pub proof fn lemma_count_split(s: Seq<char>, a: int, k: int, b: int, c: char)
    requires
        0 <= a <= k <= b <= s.len(),
    ensures
        count_char(s.subrange(a, b), c) == count_char(s.subrange(a, k), c) + count_char(
            s.subrange(k, b),
            c,
        ),
{
    lemma_count_concat(s.subrange(a, k), s.subrange(k, b), c);
    assert(s.subrange(a, k) + s.subrange(k, b) =~= s.subrange(a, b));
}

/// The count of `c` in a one-element range.
pub proof fn lemma_count_one(s: Seq<char>, k: int, c: char)
    requires
        0 <= k < s.len(),
    ensures
        count_char(s.subrange(k, k + 1), c) == (if s[k] == c { 1nat } else { 0nat }),
{
    let t = s.subrange(k, k + 1);
    assert(t.drop_last() =~= Seq::<char>::empty());
    assert(count_char(t.drop_last(), c) == 0);
    assert(t.last() == s[k]);
}

/// A range without `c` has count zero.
pub proof fn lemma_count_range_absent(s: Seq<char>, a: int, b: int, c: char)
    requires
        0 <= a <= b <= s.len(),
        forall|j: int| a <= j < b ==> s[j] != c,
    ensures
        count_char(s.subrange(a, b), c) == 0,
{
    lemma_count_absent(s.subrange(a, b), c);
}

/// Counting distributes over concatenation.
pub proof fn lemma_count_concat(a: Seq<char>, b: Seq<char>, c: char)
    ensures
        count_char(a + b, c) == count_char(a, c) + count_char(b, c),
    decreases b.len(),
{
    if b.len() == 0 {
        assert(a + b =~= a);
    } else {
        lemma_count_concat(a, b.drop_last(), c);
        assert((a + b).drop_last() =~= a + b.drop_last());
    }
}

/// Byte length distributes over concatenation.
pub proof fn lemma_utf8_len_concat(a: Seq<char>, b: Seq<char>)
    ensures
        utf8_len(a + b) == utf8_len(a) + utf8_len(b),
    decreases b.len(),
{
    if b.len() == 0 {
        assert(a + b =~= a);
    } else {
        lemma_utf8_len_concat(a, b.drop_last());
        assert((a + b).drop_last() =~= a + b.drop_last());
    }
}

/// A character that does not occur in `s` has count zero.
pub proof fn lemma_count_absent(s: Seq<char>, c: char)
    requires
        forall|i: int| 0 <= i < s.len() ==> s[i] != c,
    ensures
        count_char(s, c) == 0,
    decreases s.len(),
{
    if s.len() > 0 {
        lemma_count_absent(s.drop_last(), c);
    }
}

/// Trimming the start keeps a suffix of `s`.
pub proof fn lemma_trim_start_suffix(s: Seq<char>)
    ensures
        trim_start(s).len() <= s.len(),
        trim_start(s) == s.skip(s.len() - trim_start(s).len()),
    decreases s.len(),
{
    if s.len() > 0 && is_ws(s[0]) {
        lemma_trim_start_suffix(s.drop_first());
        assert(s.drop_first().skip(s.drop_first().len() - trim_start(s).len()) =~= s.skip(
            s.len() - trim_start(s).len(),
        ));
    } else {
        assert(s.skip(0) =~= s);
    }
}

/// Trimming a character from the start keeps a suffix of `s`.
pub proof fn lemma_trim_start_char_suffix(s: Seq<char>, c: char)
    ensures
        trim_start_char(s, c).len() <= s.len(),
        trim_start_char(s, c) == s.skip(s.len() - trim_start_char(s, c).len()),
    decreases s.len(),
{
    if s.len() > 0 && s[0] == c {
        lemma_trim_start_char_suffix(s.drop_first(), c);
        assert(s.drop_first().skip(s.drop_first().len() - trim_start_char(s, c).len()) =~= s.skip(
            s.len() - trim_start_char(s, c).len(),
        ));
    } else {
        assert(s.skip(0) =~= s);
    }
}

/// Trimming the end keeps a prefix of `s`.
pub proof fn lemma_trim_end_prefix(s: Seq<char>)
    ensures
        trim_end(s).len() <= s.len(),
        trim_end(s) == s.take(trim_end(s).len() as int),
    decreases s.len(),
{
    if s.len() > 0 && is_ws(s.last()) {
        lemma_trim_end_prefix(s.drop_last());
        assert(s.drop_last().take(trim_end(s).len() as int) =~= s.take(trim_end(s).len() as int));
    } else {
        assert(s.take(s.len() as int) =~= s);
    }
}

/// The byte length of a single character.
pub proof fn lemma_utf8_len_single(c: char)
    ensures
        utf8_len(seq![c]) == utf8_width(c),
{
    assert(seq![c].drop_last() =~= Seq::<char>::empty());
    assert(utf8_len(Seq::<char>::empty()) == 0);
}

/// A suffix is no longer in bytes than the whole.
pub proof fn lemma_utf8_len_skip(s: Seq<char>, k: int)
    requires
        0 <= k <= s.len(),
    ensures
        utf8_len(s.skip(k)) <= utf8_len(s),
{
    lemma_utf8_len_concat(s.take(k), s.skip(k));
    assert(s.take(k) + s.skip(k) =~= s);
}

/// A prefix is no longer in bytes than the whole.
pub proof fn lemma_utf8_len_take(s: Seq<char>, k: int)
    requires
        0 <= k <= s.len(),
    ensures
        utf8_len(s.take(k)) <= utf8_len(s),
{
    lemma_utf8_len_concat(s.take(k), s.skip(k));
    assert(s.take(k) + s.skip(k) =~= s);
}

/// Trimming never makes text longer in bytes.
pub proof fn lemma_utf8_len_trim(s: Seq<char>, c: char)
    ensures
        utf8_len(trim_start(s)) <= utf8_len(s),
        utf8_len(trim_end(s)) <= utf8_len(s),
        utf8_len(trim(s)) <= utf8_len(s),
        utf8_len(trim_start_char(s, c)) <= utf8_len(s),
{
    lemma_trim_start_suffix(s);
    lemma_utf8_len_skip(s, s.len() - trim_start(s).len());
    lemma_trim_end_prefix(s);
    lemma_utf8_len_take(s, trim_end(s).len() as int);
    lemma_trim_end_prefix(trim_start(s));
    lemma_utf8_len_take(trim_start(s), trim_end(trim_start(s)).len() as int);
    lemma_trim_start_char_suffix(s, c);
    lemma_utf8_len_skip(s, s.len() - trim_start_char(s, c).len());
}

/// Every line is no longer in bytes than the text it comes from.
pub proof fn lemma_lines_from_utf8_bound(cur: Seq<char>, rest: Seq<char>)
    ensures
        forall|i: int|
            0 <= i < lines_from(cur, rest).len() ==> utf8_len(#[trigger] lines_from(cur, rest)[i])
                <= utf8_len(cur) + utf8_len(rest),
    decreases rest.len(),
{
    if rest.len() == 0 {
        assert(utf8_len(rest) == 0);
    } else {
        lemma_utf8_len_concat(seq![rest.first()], rest.drop_first());
        assert(seq![rest.first()] + rest.drop_first() =~= rest);
        assert(seq![rest.first()].drop_last() =~= Seq::<char>::empty());
        assert(utf8_len(Seq::<char>::empty()) == 0);
        assert(utf8_len(seq![rest.first()]) == utf8_width(rest.first()));
        if rest[0] == '\n' {
            lemma_lines_from_utf8_bound(seq![], rest.drop_first());
            assert(utf8_len(Seq::<char>::empty()) == 0);
            if cur.len() > 0 {
                lemma_utf8_len_take(cur, cur.len() - 1);
                assert(cur.drop_last() =~= cur.take(cur.len() - 1));
            }
            let l = lines_from(cur, rest);
            assert(l == seq![strip_cr(cur)] + lines_from(seq![], rest.drop_first()));
            assert(utf8_len(strip_cr(cur)) <= utf8_len(cur));
            assert forall|i: int| 0 <= i < l.len() implies utf8_len(#[trigger] l[i]) <= utf8_len(cur) + utf8_len(rest) by {
                if i == 0 {
                    assert(l[0] == strip_cr(cur));
                } else {
                    assert(l[i] == lines_from(seq![], rest.drop_first())[i - 1]);
                }
            }
        } else {
            lemma_lines_from_utf8_bound(cur.push(rest[0]), rest.drop_first());
            assert(cur.push(rest[0]).drop_last() =~= cur);
            assert(lines_from(cur, rest) == lines_from(cur.push(rest[0]), rest.drop_first()));
        }
    }
}

/// Every line of `s` is no longer in bytes than `s`.
pub proof fn lemma_lines_utf8_bound(s: Seq<char>)
    ensures
        forall|i: int| 0 <= i < lines(s).len() ==> utf8_len(#[trigger] lines(s)[i]) <= utf8_len(s),
{
    lemma_lines_from_utf8_bound(seq![], s);
}

// ---------------------------------------------------------------------------
// Executable helpers
// ---------------------------------------------------------------------------

/// Calls `String::push`; the contract claims, as std documents, that the
/// string afterwards is the old one with `c` appended.
#[verifier::external_body]
pub(crate) fn push_char(s: &mut String, c: char)
    ensures
        final(s)@ == old(s)@.push(c),
{
    s.push(c);
}

/// The characters of `s`, in order.
pub fn chars_of(s: &str) -> (v: Vec<char>)
    ensures
        v@ == s@,
{
    let mut v: Vec<char> = Vec::new();
    for c in it: s.chars()
        invariant
            v@ == it.seq().take(it.index() as int),
    {
        v.push(c);
    }
    v
}

/// A `String` holding the characters of `v`.
pub fn string_of(v: &[char]) -> (s: String)
    ensures
        s@ == v@,
{
    let mut s = String::new();
    let mut i: usize = 0;
    while i < v.len()
        invariant
            i <= v.len(),
            s@ == v@.take(i as int),
        decreases v.len() - i,
    {
        push_char(&mut s, v[i]);
        assert(v@.take(i as int).push(v@[i as int]) =~= v@.take(i + 1));
        i += 1;
    }
    assert(v@.take(v.len() as int) =~= v@);
    s
}

/// Appends the characters of `v` to `out`.
pub fn append_chars(out: &mut Vec<char>, v: &[char])
    ensures
        final(out)@ == old(out)@ + v@,
{
    let mut i: usize = 0;
    while i < v.len()
        invariant
            i <= v.len(),
            out@ == old(out)@ + v@.take(i as int),
        decreases v.len() - i,
    {
        out.push(v[i]);
        assert(old(out)@ + v@.take(i + 1) =~= (old(out)@ + v@.take(i as int)).push(v@[i as int]));
        i += 1;
    }
    assert(v@.take(v.len() as int) =~= v@);
}

/// Appends the characters of `s` to `out`.
pub fn append_str(out: &mut Vec<char>, s: &str)
    ensures
        final(out)@ == old(out)@ + s@,
{
    let v = chars_of(s);
    append_chars(out, v.as_slice());
}

/// The characters `v[a..b]`.
pub fn slice_chars(v: &[char], a: usize, b: usize) -> (r: Vec<char>)
    requires
        a <= b <= v.len(),
    ensures
        r@ == v@.subrange(a as int, b as int),
{
    let mut r: Vec<char> = Vec::new();
    let mut i: usize = a;
    while i < b
        invariant
            a <= i <= b <= v.len(),
            r@ == v@.subrange(a as int, i as int),
        decreases b - i,
    {
        r.push(v[i]);
        assert(v@.subrange(a as int, i + 1) =~= v@.subrange(a as int, i as int).push(v@[i as int]));
        i += 1;
    }
    r
}

/// Whether `pat` occurs in `v` at position `i`.
pub fn matches_at(v: &[char], pat: &[char], i: usize) -> (b: bool)
    ensures
        b == occurs_at(v@, pat@, i as int),
{
    if pat.len() > v.len() || i > v.len() - pat.len() {
        return false;
    }
    let mut k: usize = 0;
    while k < pat.len()
        invariant
            k <= pat.len(),
            i + pat.len() <= v.len(),
            forall|j: int| 0 <= j < k ==> v@[i + j] == pat@[j],
        decreases pat.len() - k,
    {
        if v[i + k] != pat[k] {
            assert(v@.subrange(i as int, i + pat.len())[k as int] != pat@[k as int]);
            return false;
        }
        k += 1;
    }
    assert(v@.subrange(i as int, i + pat.len()) =~= pat@);
    true
}

/// The first position `>= from` at which `pat` occurs in `v`.
pub fn find_chars(v: &[char], pat: &[char], from: usize) -> (r: Option<usize>)
    ensures
        match r {
            Some(p) => find_from(v@, pat@, from as nat) == Some(p as nat) && p + pat.len() <= v.len(),
            None => find_from(v@, pat@, from as nat) is None,
        },
{
    if pat.len() > v.len() {
        assert(find_from(v@, pat@, from as nat) is None);
        return None;
    }
    let last = v.len() - pat.len();
    let mut i: usize = from;
    while i <= last
        invariant
            from <= i,
            last == v.len() - pat.len(),
            find_from(v@, pat@, from as nat) == find_from(v@, pat@, i as nat),
        decreases last + 1 - i,
    {
        if matches_at(v, pat, i) {
            return Some(i);
        }
        if i == last {
            assert(find_from(v@, pat@, (i + 1) as nat) is None);
            return None;
        }
        i += 1;
    }
    None
}

/// The first position `>= from` at which the character `c` occurs in `v`.
pub fn find_char(v: &[char], c: char, from: usize) -> (r: Option<usize>)
    ensures
        match r {
            Some(p) => find_from(v@, seq![c], from as nat) == Some(p as nat) && p < v.len(),
            None => find_from(v@, seq![c], from as nat) is None,
        },
{
    let pat = vec![c];
    assert(pat@ =~= seq![c]);
    find_chars(v, pat.as_slice(), from)
}

/// Whether `c` is Unicode whitespace (`char::is_whitespace`).
pub fn is_whitespace(c: char) -> (b: bool)
    ensures
        b == is_ws(c),
{
    let u = c as u32;
    u == 0x20 || (0x09 <= u && u <= 0x0d) || u == 0x85 || u == 0xa0 || u == 0x1680 || (0x2000
        <= u && u <= 0x200a) || u == 0x2028 || u == 0x2029 || u == 0x202f || u == 0x205f || u
        == 0x3000
}

/// Index of the first non-whitespace character of `v` (the start of `trim_start`).
pub fn trim_start_index(v: &[char]) -> (k: usize)
    ensures
        k <= v.len(),
        v@.skip(k as int) == trim_start(v@),
{
    let mut k: usize = 0;
    assert(v@.skip(0) =~= v@);
    while k < v.len() && is_whitespace(v[k])
        invariant
            k <= v.len(),
            trim_start(v@.skip(k as int)) == trim_start(v@),
        decreases v.len() - k,
    {
        assert(v@.skip(k as int).drop_first() =~= v@.skip(k + 1));
        k += 1;
    }
    k
}

/// One past the last non-whitespace character of `v[..end]` (the end of `trim_end`).
pub fn trim_end_index(v: &[char], end: usize) -> (k: usize)
    requires
        end <= v.len(),
    ensures
        k <= end,
        v@.take(k as int) == trim_end(v@.take(end as int)),
{
    let mut k: usize = end;
    while k > 0 && is_whitespace(v[k - 1])
        invariant
            k <= end <= v.len(),
            trim_end(v@.take(k as int)) == trim_end(v@.take(end as int)),
        decreases k,
    {
        assert(v@.take(k as int).drop_last() =~= v@.take(k - 1));
        k -= 1;
    }
    k
}

/// `v` without leading whitespace.
pub fn trim_start_chars(v: &[char]) -> (r: Vec<char>)
    ensures
        r@ == trim_start(v@),
{
    let k = trim_start_index(v);
    let r = slice_chars(v, k, v.len());
    assert(r@ =~= v@.skip(k as int));
    r
}

/// `v` without trailing whitespace.
pub fn trim_end_chars(v: &[char]) -> (r: Vec<char>)
    ensures
        r@ == trim_end(v@),
{
    let k = trim_end_index(v, v.len());
    assert(v@.take(v.len() as int) =~= v@);
    let r = slice_chars(v, 0, k);
    assert(r@ =~= v@.take(k as int));
    r
}

/// `v` without its leading characters equal to `c`.
pub fn trim_start_char_chars(v: &[char], c: char) -> (r: Vec<char>)
    ensures
        r@ == trim_start_char(v@, c),
{
    let mut k: usize = 0;
    assert(v@.skip(0) =~= v@);
    while k < v.len() && v[k] == c
        invariant
            k <= v.len(),
            trim_start_char(v@.skip(k as int), c) == trim_start_char(v@, c),
        decreases v.len() - k,
    {
        assert(v@.skip(k as int).drop_first() =~= v@.skip(k + 1));
        k += 1;
    }
    let r = slice_chars(v, k, v.len());
    assert(r@ =~= v@.skip(k as int));
    r
}

/// `v` without its trailing characters equal to `c`.
pub fn trim_end_char_chars(v: &[char], c: char) -> (r: Vec<char>)
    ensures
        r@ == trim_end_char(v@, c),
{
    let mut k: usize = v.len();
    assert(v@.take(k as int) =~= v@);
    while k > 0 && v[k - 1] == c
        invariant
            k <= v.len(),
            trim_end_char(v@.take(k as int), c) == trim_end_char(v@, c),
        decreases k,
    {
        assert(v@.take(k as int).drop_last() =~= v@.take(k - 1));
        k -= 1;
    }
    let r = slice_chars(v, 0, k);
    assert(r@ =~= v@.take(k as int));
    r
}

/// `v` without leading and trailing whitespace.
pub fn trim_chars(v: &[char]) -> (r: Vec<char>)
    ensures
        r@ == trim(v@),
{
    let a = trim_start_chars(v);
    trim_end_chars(a.as_slice())
}

/// Whether `v` begins with `pat`.
pub fn starts_with_chars(v: &[char], pat: &[char]) -> (b: bool)
    ensures
        b == starts_with(v@, pat@),
{
    matches_at(v, pat, 0)
}

/// Whether `v` equals `w`.
pub fn chars_eq(v: &[char], w: &[char]) -> (b: bool)
    ensures
        b == (v@ == w@),
{
    if v.len() != w.len() {
        return false;
    }
    let b = matches_at(v, w, 0);
    assert(v@.subrange(0, w.len() as int) =~= v@);
    b
}

/// `s` repeated `n` times, appended to `out`.
pub fn append_repeat(out: &mut Vec<char>, s: &[char], n: usize)
    ensures
        final(out)@ == old(out)@ + repeat(s@, n as nat),
{
    let mut i: usize = 0;
    while i < n
        invariant
            i <= n,
            out@ == old(out)@ + repeat(s@, i as nat),
        decreases n - i,
    {
        append_chars(out, s);
        assert(old(out)@ + repeat(s@, (i + 1) as nat) =~= old(out)@ + repeat(s@, i as nat) + s@);
        i += 1;
    }
}

/// Number of bytes of the UTF-8 encoding of `c`.
pub fn char_utf8_width(c: char) -> (w: usize)
    ensures
        w == utf8_width(c),
{
    let u = c as u32;
    if u < 0x80 {
        1
    } else if u < 0x800 {
        2
    } else if u < 0x10000 {
        3
    } else {
        4
    }
}

/// Number of bytes of the UTF-8 encoding of `v`.
pub fn utf8_length(v: &[char]) -> (n: usize)
    requires
        utf8_len(v@) <= usize::MAX,
    ensures
        n == utf8_len(v@),
{
    let mut n: usize = 0;
    let mut i: usize = 0;
    while i < v.len()
        invariant
            i <= v.len(),
            n == utf8_len(v@.take(i as int)),
            utf8_len(v@) <= usize::MAX,
        decreases v.len() - i,
    {
        proof {
            assert(v@.take(i + 1).drop_last() =~= v@.take(i as int));
            lemma_utf8_len_concat(v@.take(i + 1), v@.skip(i + 1));
            assert(v@.take(i + 1) + v@.skip(i + 1) =~= v@);
        }
        n = n + char_utf8_width(v[i]);
        i += 1;
    }
    assert(v@.take(v.len() as int) =~= v@);
    n
}

/// The byte length of the UTF-8 encoding of `v`, or `cap` where it is longer.
pub fn utf8_length_capped(v: &[char], cap: usize) -> (n: usize)
    ensures
        n == if utf8_len(v@) < cap { utf8_len(v@) } else { cap as nat },
{
    if cap == 0 {
        return 0;
    }
    let mut n: usize = 0;
    let mut i: usize = 0;
    while i < v.len()
        invariant
            i <= v.len(),
            n == utf8_len(v@.take(i as int)),
            n < cap,
        decreases v.len() - i,
    {
        proof {
            assert(v@.take(i + 1).drop_last() =~= v@.take(i as int));
        }
        let w = char_utf8_width(v[i]);
        if w >= cap - n {
            proof {
                lemma_utf8_len_take(v@, i + 1);
            }
            return cap;
        }
        n = n + w;
        i += 1;
    }
    assert(v@.take(v.len() as int) =~= v@);
    n
}

/// The lines of `v` (see `lines`).
pub fn split_lines(v: &[char]) -> (out: Vec<Vec<char>>)
    ensures
        out@.len() == lines(v@).len(),
        forall|i: int| 0 <= i < out@.len() ==> #[trigger] out@[i]@ == lines(v@)[i],
{
    let mut out: Vec<Vec<char>> = Vec::new();
    let mut cur: Vec<char> = Vec::new();
    let mut i: usize = 0;
    let ghost mut done: Seq<Seq<char>> = seq![];
    assert(v@.skip(0) =~= v@);
    assert(seq![] + lines_from(seq![], v@) =~= lines(v@));
    while i < v.len()
        invariant
            i <= v.len(),
            out@.len() == done.len(),
            forall|j: int| 0 <= j < out@.len() ==> #[trigger] out@[j]@ == done[j],
            lines(v@) == done + lines_from(cur@, v@.skip(i as int)),
        decreases v.len() - i,
    {
        let c = v[i];
        assert(v@.skip(i as int)[0] == c);
        assert(v@.skip(i as int).drop_first() =~= v@.skip(i + 1));
        if c == '\n' {
            let mut line = cur;
            if line.len() > 0 && line[line.len() - 1] == '\r' {
                line.pop();
            }
            assert(line@ =~= strip_cr(cur@));
            proof {
                let ghost prev = done;
                done = done.push(line@);
                assert(done + lines_from(seq![], v@.skip(i + 1)) =~= prev + lines_from(cur@, v@.skip(i as int)));
            }
            out.push(line);
            cur = Vec::new();
        } else {
            cur.push(c);
        }
        i += 1;
    }
    assert(v@.skip(i as int) =~= seq![]);
    if cur.len() > 0 {
        proof {
            done = done.push(cur@);
        }
        out.push(cur);
    }
    assert(lines(v@) =~= done);
    out
}

} // verus!
