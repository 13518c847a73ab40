//! User session identity: a deterministic user ID derived from the machine-id
//! and the effective Unix user ID with UUID v5.
use vstd::prelude::*;
use crate::errors::ClaError;
use crate::text::{
    append_chars, append_str, chars_of, find_char, slice_chars, string_of, trim, trim_chars,
    utf8_len, utf8_width,
};

verus! {

/// The lowercase hexadecimal digit of `n < 16`.
pub open spec fn hex_digit(n: u8) -> char {
    if n == 0 {
        '0'
    } else if n == 1 {
        '1'
    } else if n == 2 {
        '2'
    } else if n == 3 {
        '3'
    } else if n == 4 {
        '4'
    } else if n == 5 {
        '5'
    } else if n == 6 {
        '6'
    } else if n == 7 {
        '7'
    } else if n == 8 {
        '8'
    } else if n == 9 {
        '9'
    } else if n == 10 {
        'a'
    } else if n == 11 {
        'b'
    } else if n == 12 {
        'c'
    } else if n == 13 {
        'd'
    } else if n == 14 {
        'e'
    } else {
        'f'
    }
}

/// The two lowercase hexadecimal digits of each byte of `b`.
pub open spec fn hex_of(b: Seq<u8>) -> Seq<char>
    decreases b.len(),
{
    if b.len() == 0 {
        seq![]
    } else {
        hex_of(b.drop_last()) + seq![hex_digit(b.last() / 16), hex_digit(b.last() % 16)]
    }
}

/// The hyphenated lowercase form of a UUID's 16 bytes (8-4-4-4-12 digits).
pub open spec fn hyphenated(b: Seq<u8>) -> Seq<char> {
    hex_of(b.subrange(0, 4)) + seq!['-'] + hex_of(b.subrange(4, 6)) + seq!['-'] + hex_of(
        b.subrange(6, 8),
    ) + seq!['-'] + hex_of(b.subrange(8, 10)) + seq!['-'] + hex_of(b.subrange(10, 16))
}

/// The decimal digits of `n`.
pub open spec fn decimal(n: nat) -> Seq<char>
    decreases n,
{
    if n < 10 {
        seq![hex_digit(n as u8)]
    } else {
        decimal(n / 10).push(hex_digit((n % 10) as u8))
    }
}

/// The bytes of a text whose characters are all ASCII.
pub open spec fn ascii_bytes(s: Seq<char>) -> Seq<u8> {
    s.map_values(|c: char| (c as u32) as u8)
}

/// The name hashed into a user ID: the user ID in decimal.
pub open spec fn user_name(euid: u32) -> Seq<char> {
    decimal(euid as nat)
}

/// A name for the bytes of the version-5 (SHA-1) UUID of `name` in
/// `namespace`, as the `uuid` crate computes it.
pub uninterp spec fn uuid_v5(namespace: Seq<u8>, name: Seq<u8>) -> Seq<u8>;

/// A name for what `uuid` parses from a text: the 16 bytes, or `None` where
/// the text is no UUID in a form the crate accepts.
pub uninterp spec fn uuid_parse(s: Seq<char>) -> Option<Seq<u8>>;

/// The user ID of `euid` on the machine `machine_id`: the version-5 UUID
/// with the machine-id as namespace and the decimal user ID as name.
pub open spec fn user_id_of(machine_id: Seq<u8>, euid: u32) -> Seq<char> {
    hyphenated(uuid_v5(machine_id, ascii_bytes(user_name(euid))))
}

#[verifier::external_type_specification]
#[verifier::external_body]
pub struct ExUuidError(uuid::Error);

/// `Uuid::new_v5`: the bytes of the name-based UUID of `name` in `namespace`.
/// The contract names the result; its hash is not stated.
#[verifier::external_body]
fn new_v5(namespace: [u8; 16], name: &[u8]) -> (r: [u8; 16])
    ensures
        r@ == uuid_v5(namespace@, name@),
{
    uuid::Uuid::new_v5(&uuid::Uuid::from_bytes(namespace), name).into_bytes()
}

/// `Uuid`'s `to_string`: the hyphenated lowercase form (its `Display` is
/// `LowerHex`, which writes `as_hyphenated`).
#[verifier::external_body]
fn uuid_text(bytes: [u8; 16]) -> (r: String)
    ensures
        r@ == hyphenated(bytes@),
{
    uuid::Uuid::from_bytes(bytes).to_string()
}

/// `Uuid::parse_str`: the bytes of the UUID written in `s`, or the crate's
/// error. The contract names the result.
#[verifier::external_body]
fn parse_uuid(s: &str) -> (r: Result<[u8; 16], uuid::Error>)
    ensures
        match r {
            Ok(b) => uuid_parse(s@) == Some(b@),
            Err(_) => uuid_parse(s@) is None,
        },
{
    uuid::Uuid::parse_str(s).map(|u| u.into_bytes())
}

/// The message of a `uuid` error (its `Display`). Nothing is stated of it.
#[verifier::external_body]
fn uuid_error_text(e: &uuid::Error) -> String {
    e.to_string()
}

/// The decimal digit `d < 10`.
fn digit(d: u32) -> (c: char)
    requires
        d < 10,
    ensures
        c == hex_digit(d as u8),
{
    if d == 0 {
        '0'
    } else if d == 1 {
        '1'
    } else if d == 2 {
        '2'
    } else if d == 3 {
        '3'
    } else if d == 4 {
        '4'
    } else if d == 5 {
        '5'
    } else if d == 6 {
        '6'
    } else if d == 7 {
        '7'
    } else if d == 8 {
        '8'
    } else {
        '9'
    }
}

/// The decimal digits of `n`.
pub fn decimal_text(n: u32) -> (r: Vec<char>)
    ensures
        r@ == decimal(n as nat),
    decreases n,
{
    let d = digit(n % 10);
    if n < 10 {
        let mut r: Vec<char> = Vec::new();
        r.push(d);
        r
    } else {
        let mut r = decimal_text(n / 10);
        r.push(d);
        r
    }
}

/// The bytes of an ASCII text.
fn to_ascii_bytes(v: &[char]) -> (r: Vec<u8>)
    requires
        forall|i: int| 0 <= i < v@.len() ==> (v@[i] as u32) < 128,
    ensures
        r@ == ascii_bytes(v@),
{
    let mut r: Vec<u8> = Vec::new();
    let mut i: usize = 0;
    while i < v.len()
        invariant
            i <= v.len(),
            forall|j: int| 0 <= j < v@.len() ==> (v@[j] as u32) < 128,
            r@ == ascii_bytes(v@.take(i as int)),
        decreases v.len() - i,
    {
        let c = v[i];
        let u = c as u32;
        r.push(u as u8);
        assert(ascii_bytes(v@.take(i + 1)) =~= ascii_bytes(v@.take(i as int)).push((c as u32) as u8));
        i += 1;
    }
    assert(v@.take(v.len() as int) =~= v@);
    r
}

/// Every character of a decimal text is ASCII.
proof fn lemma_decimal_ascii(n: nat)
    ensures
        forall|i: int| 0 <= i < decimal(n).len() ==> (#[trigger] decimal(n)[i] as u32) < 128,
    decreases n,
{
    if n >= 10 {
        lemma_decimal_ascii(n / 10);
        lemma_hex_digit_ascii((n % 10) as u8);
        let p = decimal(n / 10);
        assert forall|i: int| 0 <= i < decimal(n).len() implies (#[trigger] decimal(n)[i] as u32)
            < 128 by {
            if i < p.len() {
                assert(decimal(n)[i] == p[i]);
            }
        }
    } else {
        lemma_hex_digit_ascii(n as u8);
    }
}

/// Hexadecimal digits are ASCII.
proof fn lemma_hex_digit_ascii(x: u8)
    ensures
        (hex_digit(x) as u32) < 128,
{
}

/// Manages user session identity from the machine-id.
#[derive(Clone, Copy, Debug)]
pub struct UserSessionManager {
    machine_id: [u8; 16],
}

impl UserSessionManager {
    /// The machine-id's bytes.
    pub closed spec fn machine(&self) -> Seq<u8> {
        self.machine_id@
    }

    /// A session manager with an explicit machine-id.
    pub fn with_machine_id(machine_id: [u8; 16]) -> (r: Self)
        ensures
            r.machine() == machine_id@,
    {
        UserSessionManager { machine_id }
    }

    /// The machine-id.
    pub fn machine_id(&self) -> (r: [u8; 16])
        ensures
            r@ == self.machine(),
    {
        self.machine_id
    }

    /// The deterministic user ID of `effective_user_id`: the hyphenated UUID v5
    /// with the machine-id as namespace and the decimal user ID as name.
    pub fn get_user_id(&self, effective_user_id: u32) -> (r: String)
        ensures
            r@ == user_id_of(self.machine(), effective_user_id),
    {
        let digits = decimal_text(effective_user_id);
        proof {
            lemma_decimal_ascii(effective_user_id as nat);
        }
        let bytes = to_ascii_bytes(digits.as_slice());
        let id = new_v5(self.machine_id, bytes.as_slice());
        uuid_text(id)
    }

    /// A session manager from the contents of `/etc/machine-id`: trimmed, a
    /// bare 32-digit id padded into the 8-4-4-4-12 form, then parsed as a UUID.
    pub fn from_raw_machine_id(raw: &str) -> (r: Result<Self, ClaError>)
        requires
            splittable(trim(raw@)),
        ensures
            match r {
                Ok(m) => trim(raw@).len() > 0 && uuid_parse(padded_machine_id(trim(raw@))) == Some(
                    m.machine(),
                ),
                Err(e) => if trim(raw@).len() == 0 {
                    e matches ClaError::Session { message, source: None } && message@
                        == "machine-id file is empty"@
                } else {
                    &&& uuid_parse(padded_machine_id(trim(raw@))) is None
                    &&& e matches ClaError::Session { message, source: Some(_) }
                    &&& message@ == "invalid machine-id format: "@ + trim(raw@)
                },
            },
    {
        let v = chars_of(raw);
        let t = trim_chars(v.as_slice());
        if t.len() == 0 {
            return Err(ClaError::session("machine-id file is empty"));
        }
        let padded = pad_machine_id(t.as_slice());
        let text = string_of(padded.as_slice());
        match parse_uuid(text.as_str()) {
            Ok(bytes) => Ok(UserSessionManager { machine_id: bytes }),
            Err(e) => {
                let mut msg = chars_of("invalid machine-id format: ");
                append_chars(&mut msg, t.as_slice());
                let m = string_of(msg.as_slice());
                let src = uuid_error_text(&e);
                Err(ClaError::session_with_source(m.as_str(), src.as_str()))
            },
        }
    }
}

/// The character index at which the first `k` bytes of the UTF-8 encoding of
/// `s` end, if a character ends there.
pub open spec fn char_index_at_byte(s: Seq<char>, k: int) -> Option<nat>
    decreases s.len(),
{
    if k == 0 {
        Some(0)
    } else if s.len() == 0 || utf8_width(s[0]) > k {
        None
    } else {
        match char_index_at_byte(s.drop_first(), k - utf8_width(s[0])) {
            Some(i) => Some(i + 1),
            None => None,
        }
    }
}

/// Whether the id is padded: 32 bytes long and free of hyphens.
pub open spec fn needs_padding(t: Seq<char>) -> bool {
    utf8_len(t) == 32 && !t.contains('-')
}

/// Whether padding can cut the id at bytes 8, 12, 16 and 20 (else slicing the
/// text there panics).
pub open spec fn splittable(t: Seq<char>) -> bool {
    needs_padding(t) ==> (char_index_at_byte(t, 8) is Some && char_index_at_byte(t, 12) is Some
        && char_index_at_byte(t, 16) is Some && char_index_at_byte(t, 20) is Some)
}

/// The machine-id in UUID form: a bare 32-byte id without hyphens gets them
/// after bytes 8, 12, 16 and 20; anything else is kept.
pub open spec fn padded_machine_id(t: Seq<char>) -> Seq<char> {
    if needs_padding(t) && splittable(t) {
        let a = char_index_at_byte(t, 8)->0 as int;
        let b = char_index_at_byte(t, 12)->0 as int;
        let c = char_index_at_byte(t, 16)->0 as int;
        let d = char_index_at_byte(t, 20)->0 as int;
        t.subrange(0, a) + seq!['-'] + t.subrange(a, b) + seq!['-'] + t.subrange(b, c) + seq!['-']
            + t.subrange(c, d) + seq!['-'] + t.subrange(d, t.len() as int)
    } else {
        t
    }
}

/// The character index after the first `k` bytes of `v` (see
/// `char_index_at_byte`).
fn index_at_byte(v: &[char], k: usize) -> (r: Option<usize>)
    ensures
        match r {
            Some(i) => char_index_at_byte(v@, k as int) == Some(i as nat) && i <= v.len(),
            None => char_index_at_byte(v@, k as int) is None,
        },
{
    let mut i: usize = 0;
    let mut rest: usize = k;
    assert(v@.skip(0) =~= v@);
    while rest > 0
        invariant
            i <= v.len(),
            rest <= k,
            char_index_at_byte(v@, k as int) == match char_index_at_byte(v@.skip(i as int), rest as int) {
                Some(j) => Some((j + i) as nat),
                None => None::<nat>,
            },
        decreases rest,
    {
        if i >= v.len() {
            return None;
        }
        let w = crate::text::char_utf8_width(v[i]);
        assert(v@.skip(i as int)[0] == v@[i as int]);
        if w > rest {
            return None;
        }
        assert(v@.skip(i as int).drop_first() =~= v@.skip(i + 1));
        rest = rest - w;
        i = i + 1;
    }
    Some(i)
}

/// The machine-id in UUID form (see `padded_machine_id`).
fn pad_machine_id(t: &[char]) -> (r: Vec<char>)
    requires
        splittable(t@),
    ensures
        r@ == padded_machine_id(t@),
{
    let n = crate::text::utf8_length_capped(t, 33);
    let has_hyphen = find_char(t, '-', 0).is_some();
    proof {
        crate::text::lemma_find_char(t@, '-', 0);
        if t@.contains('-') {
            let j = choose|j: int| 0 <= j < t@.len() && t@[j] == '-';
            assert(t@[j] == '-');
        }
    }
    if n == 32 && !has_hyphen {
        let a = index_at_byte(t, 8).unwrap();
        let b = index_at_byte(t, 12).unwrap();
        let c = index_at_byte(t, 16).unwrap();
        let d = index_at_byte(t, 20).unwrap();
        proof {
            lemma_index_at_byte_monotone(t@, 8, 12);
            lemma_index_at_byte_monotone(t@, 12, 16);
            lemma_index_at_byte_monotone(t@, 16, 20);
        }
        let mut out = slice_chars(t, 0, a);
        out.push('-');
        let p = slice_chars(t, a, b);
        append_chars(&mut out, p.as_slice());
        out.push('-');
        let p = slice_chars(t, b, c);
        append_chars(&mut out, p.as_slice());
        out.push('-');
        let p = slice_chars(t, c, d);
        append_chars(&mut out, p.as_slice());
        out.push('-');
        let p = slice_chars(t, d, t.len());
        append_chars(&mut out, p.as_slice());
        out
    } else {
        slice_chars(t, 0, t.len())
    }
}

/// Character indices at byte offsets grow with the offsets.
proof fn lemma_index_at_byte_monotone(s: Seq<char>, k1: int, k2: int)
    requires
        0 <= k1 <= k2,
        char_index_at_byte(s, k1) is Some,
        char_index_at_byte(s, k2) is Some,
    ensures
        char_index_at_byte(s, k1)->0 <= char_index_at_byte(s, k2)->0,
        char_index_at_byte(s, k2)->0 <= s.len(),
    decreases s.len(),
{
    if k1 > 0 {
        lemma_index_at_byte_monotone(s.drop_first(), k1 - utf8_width(s[0]), k2 - utf8_width(s[0]));
    } else if k2 > 0 {
        lemma_index_at_byte_bound(s.drop_first(), k2 - utf8_width(s[0]));
    }
}

/// A character index at a byte offset lies within the text.
proof fn lemma_index_at_byte_bound(s: Seq<char>, k: int)
    requires
        char_index_at_byte(s, k) is Some,
    ensures
        char_index_at_byte(s, k)->0 <= s.len(),
    decreases s.len(),
{
    if k != 0 {
        lemma_index_at_byte_bound(s.drop_first(), k - utf8_width(s[0]));
    }
}

/// The same machine and user always give the same user ID.
pub proof fn lemma_user_id_deterministic(m1: Seq<u8>, m2: Seq<u8>, e1: u32, e2: u32)
    requires
        m1 == m2,
        e1 == e2,
    ensures
        user_id_of(m1, e1) == user_id_of(m2, e2),
{
}

/// Different user IDs are hashed from different names: the decimal form of a
/// user ID determines it.
pub proof fn lemma_decimal_injective(a: nat, b: nat)
    requires
        a != b,
    ensures
        decimal(a) != decimal(b),
    decreases a + b,
{
    if a < 10 && b < 10 {
        assert(decimal(a)[0] != decimal(b)[0]);
    } else if a < 10 {
        lemma_decimal_len(b / 10);
        assert(decimal(b).len() >= 2);
    } else if b < 10 {
        lemma_decimal_len(a / 10);
        assert(decimal(a).len() >= 2);
    } else if a / 10 != b / 10 {
        lemma_decimal_injective(a / 10, b / 10);
        if decimal(a) == decimal(b) {
            assert(decimal(a).drop_last() =~= decimal(a / 10));
            assert(decimal(b).drop_last() =~= decimal(b / 10));
        }
    } else {
        assert(a % 10 != b % 10);
        assert(decimal(a).last() != decimal(b).last());
    }
}

/// A decimal text is never empty.
proof fn lemma_decimal_len(n: nat)
    ensures
        decimal(n).len() >= 1,
    decreases n,
{
    if n >= 10 {
        lemma_decimal_len(n / 10);
    }
}

/// Two users hash different names into their user IDs.
pub proof fn lemma_user_names_differ(e1: u32, e2: u32)
    requires
        e1 != e2,
    ensures
        user_name(e1) != user_name(e2),
{
    lemma_decimal_injective(e1 as nat, e2 as nat);
}

} // verus!
