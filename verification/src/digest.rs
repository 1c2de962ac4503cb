//! Subsystem serial numbers: a truncated, hex-encoded SHA-256 digest of the
//! backing device identity, stable for a given input and at most 20
//! characters long, as the NVMe specification allows.

use vstd::prelude::*;
use vstd::string::*;
use sha2::Digest;

verus! {

/// The SHA-256 digest of a byte sequence. The digest is a pure function of
/// its input; its value is not written out here, only named.
pub uninterp spec fn sha256_of(bytes: Seq<u8>) -> Seq<u8>;

/// Relies on sha2::Sha256: the digest is 32 bytes and depends on the input
/// bytes alone.
#[verifier::external_body]
fn sha256(data: &[u8]) -> (r: Vec<u8>)
    ensures
        r@ == sha256_of(data@),
        r@.len() == 32,
{
    sha2::Sha256::digest(data).to_vec()
}

/// The lower-case hex digit character for a value below sixteen.
pub open spec fn hex_char(n: u8) -> char
    recommends
        n < 16,
{
    "0123456789abcdef"@[n as int]
}

/// Lower-case hex encoding of a byte sequence, two digits per byte.
pub open spec fn hex_of(bytes: Seq<u8>) -> Seq<char>
    decreases bytes.len(),
{
    if bytes.len() == 0 {
        Seq::empty()
    } else {
        seq![hex_char(bytes.first() / 16), hex_char(bytes.first() % 16)] + hex_of(
            bytes.drop_first(),
        )
    }
}

/// Hex encoding distributes over concatenation.
proof fn lemma_hex_of_concat(s: Seq<u8>, t: Seq<u8>)
    ensures
        hex_of(s + t) == hex_of(s) + hex_of(t),
    decreases s.len(),
{
    if s.len() == 0 {
        assert(s + t =~= t);
        assert(hex_of(s) + hex_of(t) =~= hex_of(t));
    } else {
        lemma_hex_of_concat(s.drop_first(), t);
        assert((s + t).drop_first() =~= s.drop_first() + t);
        assert(hex_of(s + t) =~= hex_of(s) + hex_of(t));
    }
}

/// Hex encoding doubles the length.
proof fn lemma_hex_of_len(s: Seq<u8>)
    ensures
        hex_of(s).len() == 2 * s.len(),
    decreases s.len(),
{
    if s.len() > 0 {
        lemma_hex_of_len(s.drop_first());
    }
}

/// Encoding a prefix of the input gives a prefix of the encoding.
proof fn lemma_hex_of_take(s: Seq<u8>, k: int)
    requires
        0 <= k <= s.len(),
    ensures
        hex_of(s.take(k)) == hex_of(s).take(2 * k),
{
    assert(s =~= s.take(k) + s.skip(k));
    lemma_hex_of_concat(s.take(k), s.skip(k));
    lemma_hex_of_len(s.take(k));
    assert(hex_of(s.take(k)) =~= (hex_of(s.take(k)) + hex_of(s.skip(k))).take(2 * k));
}

/// The serial derived from a byte identity: the hex digest truncated to
/// 20 characters.
pub open spec fn serial_of(bytes: Seq<u8>) -> Seq<char> {
    let h = hex_of(sha256_of(bytes));
    if h.len() <= 20 {
        h
    } else {
        h.take(20)
    }
}

/// The serial never exceeds the 20 characters the NVMe spec allows.
pub proof fn lemma_serial_len(bytes: Seq<u8>)
    ensures
        serial_of(bytes).len() <= 20,
{
}

/// Derives the subsystem serial number from the backing identity bytes.
/// The same bytes always give the same serial.
pub fn make_subsystem_serial(data: &[u8]) -> (r: String)
    ensures
        r@ == serial_of(data@),
        r@.len() == 20,
{
    let digest = sha256(data);
    let mut out = String::new();
    let tbl = "0123456789abcdef";
    proof {
        reveal_strlit("0123456789abcdef");
        assert(digest@.take(0) =~= Seq::<u8>::empty());
    }
    let mut i: usize = 0;
    while i < 10
        invariant
            i <= 10,
            digest@.len() == 32,
            digest@ == sha256_of(data@),
            tbl@.len() == 16,
            tbl@ == "0123456789abcdef"@,
            out@ == hex_of(digest@.take(i as int)),
        decreases 10 - i,
    {
        let b = digest[i];
        let hi = (b / 16) as usize;
        let lo = (b % 16) as usize;
        let dh = tbl.substring_char(hi, hi + 1);
        out.append(dh);
        let dl = tbl.substring_char(lo, lo + 1);
        out.append(dl);
        proof {
            let pair = seq![hex_char(b / 16), hex_char(b % 16)];
            assert(out@ =~= hex_of(digest@.take(i as int)) + pair);
            assert(digest@.take(i + 1) =~= digest@.take(i as int) + seq![b]);
            lemma_hex_of_concat(digest@.take(i as int), seq![b]);
            assert(seq![b].drop_first() =~= Seq::<u8>::empty());
            assert(hex_of(Seq::<u8>::empty()) =~= Seq::<char>::empty());
            assert(hex_of(seq![b]) =~= pair);
        }
        i += 1;
    }
    proof {
        lemma_hex_of_take(digest@, 10);
        lemma_hex_of_len(digest@.take(10));
        lemma_hex_of_len(digest@);
        assert(hex_of(digest@).len() == 64);
    }
    out
}

} // verus!
