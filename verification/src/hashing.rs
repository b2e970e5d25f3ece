//! SHA-256 digests and their hexadecimal text.

use sha2::Digest;
use sha2::Sha256;
use vstd::prelude::*;
use vstd::string::*;

verus! {

/// A SHA-256 computation in progress.
#[verifier::external_body]
pub struct Sha256Stream {
    inner: Sha256,
}

/// The bytes that a computation has absorbed so far.
pub uninterp spec fn absorbed(stream: Sha256Stream) -> Seq<u8>;

/// The SHA-256 digest of a message.
pub uninterp spec fn sha256(message: Seq<u8>) -> Seq<u8>;

/// The lower-case hexadecimal digit of a number below sixteen.
pub open spec fn hex_digit(n: int) -> char {
    "0123456789abcdef"@[n]
}

/// Two lower-case hexadecimal digits for each byte.
pub open spec fn hex_text(bytes: Seq<u8>) -> Seq<char> {
    Seq::new(
        2 * bytes.len(),
        |i: int|
            hex_digit(
                if i % 2 == 0 {
                    bytes[i / 2] as int / 16
                } else {
                    bytes[i / 2] as int % 16
                },
            ),
    )
}

/// A hash as it is written: sixty-four lower-case hexadecimal digits.
pub open spec fn is_hash_text(text: Seq<char>) -> bool {
    text.len() == 64 && forall|i: int|
        0 <= i < text.len() ==> ('0' <= #[trigger] text[i] <= '9' || 'a' <= text[i] <= 'f')
}

/// The hexadecimal text of a digest of 32 bytes is a hash.
proof fn lemma_digest_text(digest: Seq<u8>)
    requires
        digest.len() == 32,
    ensures
        is_hash_text(hex_text(digest)),
{
    reveal_strlit("0123456789abcdef");
    let text = hex_text(digest);
    assert forall|i: int| 0 <= i < text.len() implies ('0' <= #[trigger] text[i] <= '9' || 'a'
        <= text[i] <= 'f') by {
        let b = digest[i / 2] as int;
        let n = if i % 2 == 0 {
            b / 16
        } else {
            b % 16
        };
        assert(0 <= n < 16);
        assert(text[i] == "0123456789abcdef"@[n]);
    }
}

/// The hexadecimal text of a message's SHA-256 digest.
pub open spec fn sha256_hex(message: Seq<u8>) -> Seq<char> {
    hex_text(sha256(message))
}

impl Sha256Stream {
    /// `Sha256::new`: a computation that has absorbed nothing.
    #[verifier::external_body]
    pub(crate) fn new() -> (stream: Sha256Stream)
        ensures
            absorbed(stream) == Seq::<u8>::empty(),
    {
        Sha256Stream { inner: Sha256::new() }
    }

    /// `Sha256::update`: absorbs bytes after those absorbed before.
    #[verifier::external_body]
    pub(crate) fn update(&mut self, data: &[u8])
        ensures
            absorbed(*final(self)) == absorbed(*old(self)) + data@,
    {
        self.inner.update(data)
    }

    /// `Sha256::finalize`: the digest of what was absorbed, of 32 bytes.
    #[verifier::external_body]
    pub(crate) fn finalize(self) -> (digest: Vec<u8>)
        ensures
            digest@ == sha256(absorbed(self)),
            digest@.len() == 32,
    {
        self.inner.finalize().to_vec()
    }

    /// The hexadecimal text of the digest of what was absorbed.
    pub fn finish_hex(self) -> (text: String)
        ensures
            text@ == sha256_hex(absorbed(self)),
            is_hash_text(text@),
    {
        let digest = self.finalize();
        proof {
            lemma_digest_text(digest@);
        }
        encode_hex(&digest)
    }
}

/// `hex::encode`: two lower-case hexadecimal digits for each byte.
#[verifier::external_body]
pub(crate) fn encode_hex(bytes: &Vec<u8>) -> (text: String)
    ensures
        text@ == hex_text(bytes@),
{
    hex::encode(bytes)
}

/// The hexadecimal text of a message's SHA-256 digest.
pub fn sha256_hex_of(message: &Vec<u8>) -> (text: String)
    ensures
        text@ == sha256_hex(message@),
        is_hash_text(text@),
{
    let mut stream = Sha256Stream::new();
    stream.update(message.as_slice());
    assert(absorbed(stream) =~= message@);
    stream.finish_hex()
}

} // verus!
