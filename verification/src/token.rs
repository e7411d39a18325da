//! Token generation and request authentication for the map server.
//!
//! The map server is localhost-only. A 256-bit random token in the URL
//! keeps other local processes out: every HTTP request carries
//! `Authorization: Bearer <token>`, and the WebSocket upgrade carries the
//! token as a query parameter.
use vstd::prelude::*;
use rand::RngCore;
use vstd::string::StringSliceAdditionalSpecFns;

verus! {

/// The lower-case hexadecimal digit of `n < 16`.
pub open spec fn hex_digit(n: int) -> char {
    if n < 10 {
        (n + 48) as char
    } else {
        (n + 87) as char
    }
}

/// Each byte as two lower-case hexadecimal digits, high nibble first.
pub open spec fn hex_lower(b: Seq<u8>) -> Seq<char>
    decreases b.len(),
{
    if b.len() == 0 {
        Seq::empty()
    } else {
        hex_lower(b.drop_last()) + seq![hex_digit(b.last() as int / 16), hex_digit(b.last() as int % 16)]
    }
}

pub open spec fn is_hex_lower_char(c: char) -> bool {
    ('0' <= c && c <= '9') || ('a' <= c && c <= 'f')
}

/// Hex encoding doubles the length and uses only `0-9a-f`.
pub proof fn lemma_hex_lower_shape(b: Seq<u8>)
    ensures
        hex_lower(b).len() == 2 * b.len(),
        forall|i: int| 0 <= i < hex_lower(b).len() ==> is_hex_lower_char(#[trigger] hex_lower(b)[i]),
    decreases b.len(),
{
    if b.len() > 0 {
        lemma_hex_lower_shape(b.drop_last());
        let hi = b.last() / 16;
        let lo = b.last() % 16;
        assert(is_hex_lower_char(hex_digit(hi as int)));
        assert(is_hex_lower_char(hex_digit(lo as int)));
        let prev = hex_lower(b.drop_last());
        assert forall|i: int| 0 <= i < hex_lower(b).len() implies is_hex_lower_char(#[trigger] hex_lower(b)[i]) by {
            if i < prev.len() {
                assert(hex_lower(b)[i] == prev[i]);
            }
        }
    }
}

fn hex_char(n: u8) -> (c: char)
    requires
        n < 16,
    ensures
        c == hex_digit(n as int),
{
    if n < 10 {
        (n + 48u8) as char
    } else {
        (n + 87u8) as char
    }
}

/// Lower-case hexadecimal encoding of a byte string.
pub fn to_hex_lower(bytes: &[u8]) -> (s: String)
    ensures
        s@ == hex_lower(bytes@),
{
    let mut s = String::new();
    for i in 0..bytes.len()
        invariant
            s@ == hex_lower(bytes@.take(i as int)),
    {
        let b = bytes[i];
        crate::text::push_char(&mut s, hex_char(b / 16));
        crate::text::push_char(&mut s, hex_char(b % 16));
        assert(bytes@.take(i + 1).drop_last() =~= bytes@.take(i as int));
        assert(s@ =~= hex_lower(bytes@.take(i + 1)));
    }
    assert(bytes@.take(bytes@.len() as int) =~= bytes@);
    s
}

/// 32 bytes from the operating system's CSPRNG (rand's `OsRng`, through
/// `RngCore::try_fill_bytes`), or `None` when the OS source fails. The
/// bytes are random: only their number is stated.
#[verifier::external_body]
fn os_random_bytes() -> (r: Option<Vec<u8>>)
    ensures
        r matches Some(b) ==> b@.len() == 32,
{
    let mut bytes = [0u8; 32];
    match rand::rngs::OsRng.try_fill_bytes(&mut bytes) {
        Ok(()) => Some(bytes.to_vec()),
        Err(_) => None,
    }
}

/// A 256-bit random token from the OS CSPRNG, hex-encoded to 64
/// lower-case characters; `None` when the OS source of randomness fails.
pub fn generate() -> (r: Option<String>)
    ensures
        r matches Some(s) ==> (exists|b: Seq<u8>| b.len() == 32 && s@ == hex_lower(b)),
        r matches Some(s) ==> s@.len() == 64 && forall|i: int| 0 <= i < 64 ==> is_hex_lower_char(#[trigger] s@[i]),
{
    match os_random_bytes() {
        Some(b) => {
            let s = to_hex_lower(b.as_slice());
            proof {
                lemma_hex_lower_shape(b@);
            }
            Some(s)
        },
        None => None,
    }
}

/// Constant-time byte comparison: true exactly when both slices hold the
/// same bytes. Every byte pair is inspected, whatever the earlier pairs were.
pub fn constant_time_eq(a: &[u8], b: &[u8]) -> (r: bool)
    ensures
        r == (a@ == b@),
{
    if a.len() != b.len() {
        return false;
    }
    let mut diff: u8 = 0;
    let n = a.len();
    for i in 0..n
        invariant
            n == a@.len(),
            n == b@.len(),
            (diff == 0) <==> (forall|j: int| 0 <= j < i ==> a@[j] == b@[j]),
    {
        let x = a[i];
        let y = b[i];
        let d = diff;
        assert((d | (x ^ y)) == 0 <==> (d == 0 && x == y)) by (bit_vector);
        diff = d | (x ^ y);
    }
    assert(diff == 0 ==> a@ =~= b@);
    diff == 0
}

pub const BEARER_PREFIX: &'static str = "Bearer ";

/// The bytes after the `Bearer ` prefix, if the header starts with it.
pub open spec fn strip_bearer(header: Seq<u8>) -> Option<Seq<u8>> {
    let p = BEARER_PREFIX.spec_bytes();
    if header.len() >= p.len() && header.take(p.len() as int) == p {
        Some(header.skip(p.len() as int))
    } else {
        None
    }
}

/// The `Authorization` header carries `Bearer <expected>`.
pub open spec fn bearer_valid(header: Option<Seq<u8>>, expected: Seq<u8>) -> bool {
    match header {
        Some(h) => strip_bearer(h) == Some(expected),
        None => false,
    }
}

pub open spec fn opt_bytes(o: Option<&str>) -> Option<Seq<u8>> {
    match o {
        Some(s) => Some(s.spec_bytes()),
        None => None,
    }
}

/// Checks an `Authorization` header value (absent, or not visible ASCII,
/// as `None`) against the expected token, in constant time over the token.
pub fn bearer_matches(header: Option<&str>, expected: &str) -> (r: bool)
    ensures
        r == bearer_valid(opt_bytes(header), expected.spec_bytes()),
{
    match header {
        None => false,
        Some(h) => {
            let hb = h.as_bytes();
            let pb = BEARER_PREFIX.as_bytes();
            if hb.len() < pb.len() {
                return false;
            }
            let mut head: Vec<u8> = Vec::new();
            let mut rest: Vec<u8> = Vec::new();
            for i in 0..hb.len()
                invariant
                    pb@.len() <= hb@.len(),
                    head@ == hb@.take(if i < pb@.len() { i as int } else { pb@.len() as int }),
                    rest@ == if i < pb@.len() { Seq::<u8>::empty() } else { hb@.subrange(pb@.len() as int, i as int) },
            {
                if i < pb.len() {
                    head.push(hb[i]);
                    assert(hb@.take(i + 1) =~= hb@.take(i as int).push(hb@[i as int]));
                    if i + 1 == pb.len() {
                        assert(hb@.subrange(pb@.len() as int, i + 1) =~= Seq::<u8>::empty());
                    }
                } else {
                    rest.push(hb[i]);
                    assert(hb@.subrange(pb@.len() as int, i + 1) =~= hb@.subrange(pb@.len() as int, i as int).push(hb@[i as int]));
                }
            }
            if pb.len() == hb.len() {
                assert(rest@ =~= hb@.subrange(pb@.len() as int, hb@.len() as int));
            }
            assert(rest@ =~= hb@.skip(pb@.len() as int));
            let prefix_ok = constant_time_eq(head.as_slice(), pb);
            prefix_ok && constant_time_eq(rest.as_slice(), expected.as_bytes())
        },
    }
}

/// Checks a WebSocket `?token=` query parameter against the expected token.
pub fn query_token_matches(token: Option<&str>, expected: &str) -> (r: bool)
    ensures
        r == match opt_bytes(token) {
            Some(t) => t == expected.spec_bytes(),
            None => false,
        },
{
    match token {
        Some(t) => constant_time_eq(t.as_bytes(), expected.as_bytes()),
        None => false,
    }
}

} // verus!
