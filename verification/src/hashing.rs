//! Streaming SHA-256 over the bytes of a flash or verify pass.
//!
//! The digest itself comes from the `sha2` crate and is only named, not
//! restated: `sha256_of` stands for the digest of a byte sequence, and
//! the contracts of the wrappers below say that the crate computes it
//! over exactly the bytes fed in.  Everything downstream — the hex
//! rendering and the equality decision of a verify pass — is verified.

use vstd::prelude::*;

use crate::json::hex_digit;

verus! {

/// Declares `sha2::Sha256` so that a hasher can live in a field; the
/// value stays opaque.
#[verifier::external_type_specification]
#[verifier::external_body]
pub struct ExSha256(sha2::Sha256);

/// The SHA-256 digest (32 bytes) of a byte sequence.  The digest is a
/// function of the bytes alone.
pub uninterp spec fn sha256_of(bytes: Seq<u8>) -> Seq<u8>;

/// A running digest with the sequence of bytes fed so far.
pub struct ByteHasher {
    inner: sha2::Sha256,
    fed_bytes: Ghost<Seq<u8>>,
}

impl ByteHasher {
    /// The bytes absorbed so far.
    pub closed spec fn fed(&self) -> Seq<u8> {
        self.fed_bytes@
    }

    /// Relies on `sha2::Sha256` (`Digest::new`): a fresh hasher over no
    /// input.
    #[verifier::external_body]
    pub fn new() -> (r: ByteHasher)
        ensures
            r.fed() == Seq::<u8>::empty(),
    {
        ByteHasher { inner: <sha2::Sha256 as sha2::Digest>::new(), fed_bytes: Ghost(Seq::empty()) }
    }

    /// Relies on `sha2::Sha256` (`Digest::update`): absorbs the chunk
    /// after everything fed before.
    #[verifier::external_body]
    pub fn update(&mut self, chunk: &[u8])
        ensures
            final(self).fed() == old(self).fed() + chunk@,
    {
        sha2::Digest::update(&mut self.inner, chunk);
    }

    /// Relies on `sha2::Sha256` (`Digest::finalize`): the 32-byte
    /// SHA-256 digest of exactly the bytes fed, a function of those
    /// bytes alone.
    #[verifier::external_body]
    pub fn finish(self) -> (r: Vec<u8>)
        ensures
            r@ == sha256_of(self.fed()),
            r@.len() == 32,
    {
        let out = sha2::Digest::finalize(self.inner);
        out.as_slice().to_vec()
    }
}

/// The lower-case hex rendering of a byte sequence: two digits a byte.
pub open spec fn hex_of(bytes: Seq<u8>) -> Seq<char>
    decreases bytes.len(),
{
    if bytes.len() == 0 {
        Seq::empty()
    } else {
        hex_of(bytes.drop_last()) + seq![
            hex_digit((bytes.last() / 16) as nat),
            hex_digit((bytes.last() % 16) as nat),
        ]
    }
}

/// Render a byte sequence in lower-case hex.
pub fn to_hex(bytes: &Vec<u8>) -> (r: String)
    ensures
        r@ == hex_of(bytes@),
{
    let n = bytes.len();
    let mut r = String::new();
    let mut i: usize = 0;
    while i < n
        invariant
            i <= n,
            n == bytes@.len(),
            r@ == hex_of(bytes@.subrange(0, i as int)),
        decreases n - i,
    {
        let b = bytes[i];
        let hi: u8 = b / 16;
        let lo: u8 = b % 16;
        let hc: char = hex_char(hi);
        let lc: char = hex_char(lo);
        crate::strutil::push_char(&mut r, hc);
        crate::strutil::push_char(&mut r, lc);
        proof {
            let pre1 = bytes@.subrange(0, i + 1);
            assert(pre1.drop_last() =~= bytes@.subrange(0, i as int));
            assert(pre1.last() == bytes@[i as int]);
            assert(r@ =~= hex_of(pre1));
        }
        i = i + 1;
    }
    proof {
        assert(bytes@.subrange(0, n as int) =~= bytes@);
    }
    r
}

/// One hex digit character for a value below sixteen.
fn hex_char(d: u8) -> (r: char)
    requires
        d < 16,
    ensures
        r == hex_digit(d as nat),
{
    match d {
        0 => '0', 1 => '1', 2 => '2', 3 => '3', 4 => '4', 5 => '5', 6 => '6', 7 => '7',
        8 => '8', 9 => '9', 10 => 'a', 11 => 'b', 12 => 'c', 13 => 'd', 14 => 'e', _ => 'f',
    }
}

/// Finish a hasher and render its digest in hex, as the flash and
/// verify passes report it.
pub fn finish_hex(h: ByteHasher) -> (r: String)
    ensures
        r@ == hex_of(sha256_of(h.fed())),
{
    let digest = h.finish();
    to_hex(&digest)
}

/// Two digests agree exactly when their hex renderings agree: the
/// verify decision compares renderings, and that comparison decides
/// equality of the digests themselves.
pub proof fn lemma_hex_injective(a: Seq<u8>, b: Seq<u8>)
    requires
        hex_of(a) == hex_of(b),
    ensures
        a == b,
    decreases a.len(),
{
    assert(hex_of(a).len() == 2 * a.len()) by {
        lemma_hex_len(a);
    }
    assert(hex_of(b).len() == 2 * b.len()) by {
        lemma_hex_len(b);
    }
    if a.len() == 0 {
        assert(a =~= b);
    } else {
        let ha = hex_of(a.drop_last());
        let hb = hex_of(b.drop_last());
        lemma_hex_len(a.drop_last());
        lemma_hex_len(b.drop_last());
        assert(hex_of(a)[2 * a.len() - 2] == hex_digit((a.last() / 16) as nat));
        assert(hex_of(a)[2 * a.len() - 1] == hex_digit((a.last() % 16) as nat));
        assert(hex_of(b)[2 * b.len() - 2] == hex_digit((b.last() / 16) as nat));
        assert(hex_of(b)[2 * b.len() - 1] == hex_digit((b.last() % 16) as nat));
        lemma_hex_digit_injective((a.last() / 16) as nat, (b.last() / 16) as nat);
        lemma_hex_digit_injective((a.last() % 16) as nat, (b.last() % 16) as nat);
        assert(a.last() == b.last()) by {
            assert(a.last() == (a.last() / 16) * 16 + a.last() % 16) by (nonlinear_arith);
            assert(b.last() == (b.last() / 16) * 16 + b.last() % 16) by (nonlinear_arith);
        }
        assert(hex_of(a.drop_last()) =~= hex_of(b.drop_last())) by {
            assert forall|k: int| 0 <= k < ha.len() implies ha[k] == hb[k] by {
                assert(hex_of(a)[k] == ha[k]);
                assert(hex_of(b)[k] == hb[k]);
            }
        }
        lemma_hex_injective(a.drop_last(), b.drop_last());
        assert(a =~= b) by {
            assert forall|k: int| 0 <= k < a.len() implies a[k] == b[k] by {
                if k < a.len() - 1 {
                    assert(a.drop_last()[k] == a[k]);
                    assert(b.drop_last()[k] == b[k]);
                }
            }
        }
    }
}

/// A hex rendering is twice as long as its bytes.
pub proof fn lemma_hex_len(bytes: Seq<u8>)
    ensures
        hex_of(bytes).len() == 2 * bytes.len(),
    decreases bytes.len(),
{
    if bytes.len() > 0 {
        lemma_hex_len(bytes.drop_last());
    }
}

/// Distinct digit values render as distinct characters.
proof fn lemma_hex_digit_injective(x: nat, y: nat)
    requires
        x < 16,
        y < 16,
        hex_digit(x) == hex_digit(y),
    ensures
        x == y,
{
}

/// A verify pass agrees with the flash pass exactly when both streams
/// held the same bytes: the digest is a function of the bytes, and the
/// hex comparison decides digest equality.
pub proof fn lemma_verify_roundtrip(written: Seq<u8>, readback: Seq<u8>)
    ensures
        written == readback ==> hex_of(sha256_of(written)) == hex_of(sha256_of(readback)),
        hex_of(sha256_of(written)) == hex_of(sha256_of(readback)) ==> sha256_of(written)
            == sha256_of(readback),
{
    if hex_of(sha256_of(written)) == hex_of(sha256_of(readback)) {
        lemma_hex_injective(sha256_of(written), sha256_of(readback));
    }
}

} // verus!
