//! The request signature: a short token derived from the account identifier
//! and a protocol "from" tag, attached as the `s` parameter of signed calls.

use vstd::prelude::*;
use vstd::string::StrSliceExecFns;
use vstd::string::StringSliceAdditionalSpecFns;
use sha2::Digest;

use crate::strutil::chars_to_string;

verus! {

/// What SHA-512 returns on the given bytes; fixed by the input alone.
pub uninterp spec fn sha512_of(data: Seq<u8>) -> Seq<u8>;

/// Relies on `sha2::Sha512` (through `Digest::digest`): the SHA-512 digest of
/// the input bytes; the digest is 64 bytes long and depends on the input alone.
#[verifier::external_body]
fn sha512(data: &Vec<u8>) -> (r: Vec<u8>)
    ensures
        r@ == sha512_of(data@),
        r@.len() == 64,
{
    sha2::Sha512::digest(data.as_slice()).to_vec()
}

/// The lowercase hexadecimal digit for a nibble.
pub open spec fn spec_hex_char(n: u8) -> char
    recommends
        n < 16,
{
    if n < 10 {
        (48 + n) as char
    } else {
        (87 + n) as char
    }
}

/// The lowercase hexadecimal rendering of a byte string: two digits per byte,
/// high nibble first.
pub open spec fn hex_of(bytes: Seq<u8>) -> Seq<char> {
    Seq::new(bytes.len() * 2, |i: int| {
        if i % 2 == 0 {
            spec_hex_char(bytes[i / 2] >> 4u8)
        } else {
            spec_hex_char(bytes[i / 2] & 15u8)
        }
    })
}

/// The nibble expansion of a byte string: each byte becomes its high nibble
/// followed by its low nibble, values in `[0, 15]`.
pub open spec fn nibbles_of(bytes: Seq<u8>) -> Seq<u8> {
    Seq::new(bytes.len() * 2, |i: int| {
        if i % 2 == 0 {
            bytes[i / 2] >> 4u8
        } else {
            bytes[i / 2] & 15u8
        }
    })
}

/// One cursor step of the signature walk: advance the 8-bit cursor by the
/// nibble it points at, with 8-bit unsigned wraparound.
pub open spec fn sign_step(i: u8, nibbles: Seq<u8>) -> u8
    recommends
        nibbles.len() == 128,
{
    (((i as int) + (nibbles[(i as int) % 128] as int)) % 256) as u8
}

/// The characters appended by `k` cursor steps starting at cursor `i`:
/// after each step the hex digit at the (wrapped) cursor is appended.
pub open spec fn sign_walk(hex: Seq<char>, nibbles: Seq<u8>, i: u8, k: nat) -> Seq<char>
    recommends
        hex.len() == 128,
        nibbles.len() == 128,
    decreases k,
{
    if k == 0 {
        Seq::empty()
    } else {
        let i2 = sign_step(i, nibbles);
        seq![hex[(i2 as int) % 128]] + sign_walk(hex, nibbles, i2, (k - 1) as nat)
    }
}

/// The fixed protocol salt prepended to the signed material.
pub open spec fn spec_salt() -> Seq<u8> {
    "CypCHG2kSlRkdvr2RG1QF8b2lCWXl7k7".spec_bytes()
}

/// The signature of an account identifier and a "from" tag, both as UTF-8
/// bytes: 8 characters read out of the hex rendering of
/// `SHA-512(salt ++ uid ++ from)` at cursor positions driven by the nibbles
/// of `SHA-512(from)`.
pub open spec fn spec_sign(uid: Seq<u8>, from: Seq<u8>) -> Seq<char> {
    let hex = hex_of(sha512_of(spec_salt() + uid + from));
    let nibbles = nibbles_of(sha512_of(from));
    sign_walk(hex, nibbles, 0, 8)
}

/// Both nibbles of a byte are below 16.
proof fn lemma_nibble_bound(b: u8)
    ensures
        (b >> 4u8) < 16,
        (b & 15u8) < 16,
{
    assert((b >> 4u8) < 16 && (b & 15u8) < 16) by (bit_vector);
}

/// The lowercase hexadecimal digit for a nibble.
pub fn hex_char(n: u8) -> (c: char)
    requires
        n < 16,
    ensures
        c == spec_hex_char(n),
{
    if n < 10 {
        (48 + n) as char
    } else {
        (87 + n) as char
    }
}

/// The lowercase hexadecimal rendering of a byte string.
fn hex_chars(bytes: &Vec<u8>) -> (r: Vec<char>)
    ensures
        r@ == hex_of(bytes@),
{
    let mut r: Vec<char> = Vec::new();
    let mut i: usize = 0;
    while i < bytes.len()
        invariant
            i <= bytes@.len(),
            r@ == hex_of(bytes@.subrange(0, i as int)),
        decreases bytes@.len() - i,
    {
        let b = bytes[i];
        proof {
            lemma_nibble_bound(b);
        }
        r.push(hex_char(b >> 4));
        r.push(hex_char(b & 15));
        i = i + 1;
        proof {
            assert(r@ =~= hex_of(bytes@.subrange(0, i as int)));
        }
    }
    proof {
        assert(bytes@.subrange(0, bytes@.len() as int) =~= bytes@);
    }
    r
}

/// The nibble expansion of a byte string.
fn nibble_values(bytes: &Vec<u8>) -> (r: Vec<u8>)
    ensures
        r@ == nibbles_of(bytes@),
{
    let mut r: Vec<u8> = Vec::new();
    let mut i: usize = 0;
    while i < bytes.len()
        invariant
            i <= bytes@.len(),
            r@ == nibbles_of(bytes@.subrange(0, i as int)),
        decreases bytes@.len() - i,
    {
        let b = bytes[i];
        r.push(b >> 4);
        r.push(b & 15);
        i = i + 1;
        proof {
            assert(r@ =~= nibbles_of(bytes@.subrange(0, i as int)));
        }
    }
    proof {
        assert(bytes@.subrange(0, bytes@.len() as int) =~= bytes@);
    }
    r
}

/// Computes the request signature for an account identifier and a "from" tag.
/// Pure: the result is a function of the two arguments alone, and is always
/// 8 characters long.
pub fn generate_s(uid: &str, from: &str) -> (r: String)
    ensures
        r@ == spec_sign(uid.spec_bytes(), from.spec_bytes()),
        r@.len() == 8,
{
    let mut material: Vec<u8> = "CypCHG2kSlRkdvr2RG1QF8b2lCWXl7k7".as_bytes_vec();
    let mut uid_bytes = uid.as_bytes_vec();
    let mut from_bytes = from.as_bytes_vec();
    material.append(&mut uid_bytes);
    let mut from_bytes2 = from.as_bytes_vec();
    material.append(&mut from_bytes2);
    proof {
        assert(material@ =~= spec_salt() + uid.spec_bytes() + from.spec_bytes());
    }
    let digest_a = sha512(&material);
    let digest_b = sha512(&from_bytes);
    let hex = hex_chars(&digest_a);
    let nibbles = nibble_values(&digest_b);

    let ghost hex_s = hex@;
    let ghost nib_s = nibbles@;
    let mut out: Vec<char> = Vec::new();
    let mut i: u8 = 0;
    let mut k: usize = 0;
    while k < 8
        invariant
            hex_s.len() == 128,
            nib_s.len() == 128,
            hex@ == hex_s,
            nibbles@ == nib_s,
            k <= 8,
            out@.len() == k,
            sign_walk(hex_s, nib_s, 0, 8) == out@ + sign_walk(hex_s, nib_s, i, (8 - k) as nat),
        decreases 8 - k,
    {
        let d = nibbles[(i as usize) % 128];
        let i2: u8 = ((i as u16 + d as u16) % 256) as u8;
        proof {
            assert(i2 == sign_step(i, nib_s));
        }
        let c = hex[(i2 as usize) % 128];
        out.push(c);
        proof {
            assert(sign_walk(hex_s, nib_s, i, (8 - k) as nat) == seq![c] + sign_walk(
                hex_s,
                nib_s,
                i2,
                (8 - (k + 1)) as nat,
            ));
            assert(out@ + sign_walk(hex_s, nib_s, i2, (8 - (k + 1)) as nat) =~= out@.drop_last()
                + (seq![c] + sign_walk(hex_s, nib_s, i2, (8 - (k + 1)) as nat)));
        }
        i = i2;
        k = k + 1;
    }
    proof {
        assert(sign_walk(hex_s, nib_s, 0, 8) =~= out@);
    }
    chars_to_string(&out)
}

} // verus!
