use vstd::prelude::*;
use vstd::slice::slice_subrange;

verus! {

/// The SHA-512 digest of a byte stream: 64 bytes, a function of the
/// content alone.
pub uninterp spec fn sha512_digest_of(data: Seq<u8>) -> Seq<u8>;

/// The bytes a hasher has absorbed so far.
pub uninterp spec fn absorbed(h: sha2::Sha512) -> Seq<u8>;

#[verifier::external_type_specification]
#[verifier::external_body]
pub struct ExSha512(sha2::Sha512);

/// Relies on sha2::Sha512::new (through the Digest trait): a fresh
/// hasher has absorbed nothing.
#[verifier::external_body]
fn hasher_new() -> (h: sha2::Sha512)
    ensures
        absorbed(h) == Seq::<u8>::empty(),
{
    <sha2::Sha512 as sha2::Digest>::new()
}

/// Relies on sha2's Digest::update: feeding bytes appends them to the
/// absorbed stream.
#[verifier::external_body]
fn hasher_update(h: &mut sha2::Sha512, chunk: &[u8])
    ensures
        absorbed(*final(h)) == absorbed(*old(h)) + chunk@,
{
    sha2::Digest::update(h, chunk)
}

/// Relies on sha2's Digest::finalize: the digest depends on the absorbed
/// bytes alone and is 64 bytes long for SHA-512.
#[verifier::external_body]
fn hasher_finalize(h: sha2::Sha512) -> (r: Vec<u8>)
    ensures
        r@ == sha512_digest_of(absorbed(h)),
        r@.len() == 64,
{
    sha2::Digest::finalize(h).to_vec()
}

pub assume_specification[ String::push ](s: &mut String, ch: char)
    ensures
        final(s)@ == old(s)@.push(ch),
;

/// The lowercase hexadecimal digit for a value below sixteen.
pub open spec fn nibble_char(n: u8) -> char {
    if n < 10 {
        ((48 + n) as u8) as char
    } else {
        ((87 + n) as u8) as char
    }
}

/// Lowercase hexadecimal text of a byte sequence, two digits per byte,
/// high nibble first.
pub open spec fn hex_of(data: Seq<u8>) -> Seq<char> {
    Seq::new(
        2 * data.len(),
        |i: int|
            if i % 2 == 0 {
                nibble_char(data[i / 2] / 16)
            } else {
                nibble_char(data[i / 2] % 16)
            },
    )
}

/// The lowercase hexadecimal digit of `n`.
fn hex_char(n: u8) -> (c: char)
    requires
        n < 16,
    ensures
        c == nibble_char(n),
{
    if n < 10 {
        (48 + n) as char
    } else {
        (87 + n) as char
    }
}

/// Writes the bytes as lowercase hexadecimal, two digits per byte.
pub fn to_hex_lower(data: &Vec<u8>) -> (r: String)
    ensures
        r@ == hex_of(data@),
{
    let mut out = String::new();
    let mut i: usize = 0;
    while i < data.len()
        invariant
            0 <= i <= data.len(),
            out@.len() == 2 * i,
            forall|k: int| 0 <= k < out@.len() ==> out@[k] == hex_of(data@)[k],
        decreases data.len() - i,
    {
        let b = data[i];
        out.push(hex_char(b / 16));
        out.push(hex_char(b % 16));
        i = i + 1;
    }
    proof {
        assert(out@ =~= hex_of(data@));
    }
    out
}

/// Streams the content through the hasher in bounded chunks and returns
/// the digest of the whole stream as lowercase hexadecimal: identical
/// bytes always yield the identical digest text.
pub fn sha512_hex(data: &[u8]) -> (r: String)
    ensures
        r@ == hex_of(sha512_digest_of(data@)),
        r@.len() == 128,
{
    let mut h = hasher_new();
    let len = data.len();
    let mut i: usize = 0;
    proof {
        assert(absorbed(h) =~= data@.subrange(0, 0));
    }
    while i < len
        invariant
            0 <= i <= len,
            len == data@.len(),
            absorbed(h) == data@.subrange(0, i as int),
        decreases len - i,
    {
        let end = if len - i < 8192 {
            len
        } else {
            i + 8192
        };
        let chunk = slice_subrange(data, i, end);
        hasher_update(&mut h, chunk);
        proof {
            assert(data@.subrange(0, i as int) + data@.subrange(i as int, end as int)
                =~= data@.subrange(0, end as int));
        }
        i = end;
    }
    proof {
        assert(data@.subrange(0, len as int) =~= data@);
    }
    let digest = hasher_finalize(h);
    to_hex_lower(&digest)
}

/// The round trip of the Content Hasher: hashing the same bytes again
/// yields the same digest text, since the digest is a function of the
/// content alone.
pub proof fn lemma_digest_deterministic(a: Seq<u8>, b: Seq<u8>)
    requires
        a == b,
    ensures
        hex_of(sha512_digest_of(a)) == hex_of(sha512_digest_of(b)),
{
}

} // verus!
