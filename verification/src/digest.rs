//! Content digests: SHA-256 of a byte stream that arrives in chunks.

use vstd::prelude::*;
use vstd::string::StringExecFns;

verus! {

/// The length of a digest in bytes.
pub const DIGEST_LEN: usize = 32;

/// `sha2::Sha256`, a running SHA-256 hash.
#[verifier::external_type_specification]
#[verifier::external_body]
pub struct ExSha256(sha2::Sha256);

/// The SHA-256 digest of a message.
pub uninterp spec fn sha256(message: Seq<u8>) -> Seq<u8>;

/// The bytes that a running hash has taken in so far, in their order.
pub uninterp spec fn absorbed(state: sha2::Sha256) -> Seq<u8>;

/// `sha2::Digest::new` for `Sha256`: a running hash that has taken in nothing.
#[verifier::external_body]
fn sha256_start() -> (state: sha2::Sha256)
    ensures
        absorbed(state) == Seq::<u8>::empty(),
{
    <sha2::Sha256 as sha2::Digest>::new()
}

/// `sha2::Digest::update` for `Sha256`: the running hash takes in `data`
/// behind what it has taken in before.
#[verifier::external_body]
fn sha256_update(state: &mut sha2::Sha256, data: &[u8])
    ensures
        absorbed(*final(state)) == absorbed(*old(state)) + data@,
{
    sha2::Digest::update(state, data);
}

/// `sha2::Digest::finalize` for `Sha256`: the digest of everything that the
/// running hash has taken in, 32 bytes long.
#[verifier::external_body]
fn sha256_finish(state: sha2::Sha256) -> (out: Vec<u8>)
    ensures
        out@ == sha256(absorbed(state)),
        out@.len() == DIGEST_LEN,
{
    sha2::Digest::finalize(state).to_vec()
}

/// A 256-bit content digest.
#[derive(Debug, Clone)]
pub struct Digest {
    bytes: Vec<u8>,
}

impl View for Digest {
    type V = Seq<u8>;

    closed spec fn view(&self) -> Seq<u8> {
        self.bytes@
    }
}

/// The lower-case hexadecimal digit of a value below sixteen.
pub open spec fn hex_digit(value: int) -> char {
    "0123456789abcdef"@[value]
}

/// The lower-case hexadecimal text of a byte sequence, two digits a byte.
pub open spec fn hex_text(bytes: Seq<u8>) -> Seq<char>
    decreases bytes.len(),
{
    if bytes.len() == 0 {
        Seq::empty()
    } else {
        hex_text(bytes.drop_last()).push(hex_digit(bytes.last() as int / 16)).push(
            hex_digit(bytes.last() as int % 16),
        )
    }
}

fn hex_digit_str(value: u8) -> (digit: &'static str)
    requires
        value < 16,
    ensures
        digit@ == seq![hex_digit(value as int)],
{
    proof {
        reveal_strlit("0123456789abcdef");
        reveal_strlit("0");
        reveal_strlit("1");
        reveal_strlit("2");
        reveal_strlit("3");
        reveal_strlit("4");
        reveal_strlit("5");
        reveal_strlit("6");
        reveal_strlit("7");
        reveal_strlit("8");
        reveal_strlit("9");
        reveal_strlit("a");
        reveal_strlit("b");
        reveal_strlit("c");
        reveal_strlit("d");
        reveal_strlit("e");
        reveal_strlit("f");
    }
    let digit: &'static str = if value == 0 {
        "0"
    } else if value == 1 {
        "1"
    } else if value == 2 {
        "2"
    } else if value == 3 {
        "3"
    } else if value == 4 {
        "4"
    } else if value == 5 {
        "5"
    } else if value == 6 {
        "6"
    } else if value == 7 {
        "7"
    } else if value == 8 {
        "8"
    } else if value == 9 {
        "9"
    } else if value == 10 {
        "a"
    } else if value == 11 {
        "b"
    } else if value == 12 {
        "c"
    } else if value == 13 {
        "d"
    } else if value == 14 {
        "e"
    } else {
        "f"
    };
    assert(digit@ =~= seq![hex_digit(value as int)]);
    digit
}

impl Digest {
    /// Whether two digests hold the same bytes.
    pub fn same(&self, other: &Digest) -> (eq: bool)
        ensures
            eq == (self@ == other@),
    {
        if self.bytes.len() != other.bytes.len() {
            return false;
        }
        let n: usize = self.bytes.len();
        let mut i: usize = 0;
        while i < n
            invariant
                n == self.bytes@.len(),
                n == other.bytes@.len(),
                i <= n,
                forall|j: int| 0 <= j < i ==> self.bytes@[j] == other.bytes@[j],
            decreases n - i,
        {
            if self.bytes[i] != other.bytes[i] {
                return false;
            }
            i += 1;
        }
        assert(self.bytes@ =~= other.bytes@);
        true
    }

    /// The bytes of the digest.
    pub fn as_bytes(&self) -> (bytes: &Vec<u8>)
        ensures
            bytes@ == self@,
    {
        &self.bytes
    }

    /// The digest as lower-case hexadecimal text.
    pub fn to_hex(&self) -> (text: String)
        ensures
            text@ == hex_text(self@),
    {
        let mut text: String = String::new();
        let n: usize = self.bytes.len();
        let mut i: usize = 0;
        while i < n
            invariant
                n == self.bytes@.len(),
                i <= n,
                text@ == hex_text(self.bytes@.take(i as int)),
            decreases n - i,
        {
            let byte: u8 = self.bytes[i];
            let high: &'static str = hex_digit_str(byte / 16);
            let low: &'static str = hex_digit_str(byte % 16);
            text.append(high);
            text.append(low);
            proof {
                let before = self.bytes@.take(i as int);
                let now = self.bytes@.take(i + 1);
                assert(now.drop_last() =~= before);
                assert(now.last() == byte);
                assert(text@ =~= hex_text(before).push(hex_digit(byte as int / 16)).push(
                    hex_digit(byte as int % 16),
                ));
            }
            i += 1;
        }
        assert(self.bytes@.take(n as int) =~= self.bytes@);
        text
    }
}

/// A running hash of a byte stream.
pub struct Hasher {
    state: sha2::Sha256,
}

impl View for Hasher {
    type V = Seq<u8>;

    /// The bytes taken in so far.
    closed spec fn view(&self) -> Seq<u8> {
        absorbed(self.state)
    }
}

impl Hasher {
    /// A running hash that has taken in nothing.
    pub fn new() -> (hasher: Hasher)
        ensures
            hasher@ == Seq::<u8>::empty(),
    {
        Hasher { state: sha256_start() }
    }

    /// Takes in the next chunk of the stream and says whether the stream
    /// goes on: an empty chunk marks its end.
    pub fn feed(&mut self, chunk: &[u8]) -> (more: bool)
        ensures
            final(self)@ == old(self)@ + chunk@,
            more == (chunk@.len() > 0),
    {
        if chunk.len() == 0 {
            assert(self@ + chunk@ =~= self@);
            false
        } else {
            sha256_update(&mut self.state, chunk);
            true
        }
    }

    /// The digest of the bytes taken in.
    pub fn finish(self) -> (digest: Digest)
        ensures
            digest@ == sha256(self@),
            digest@.len() == DIGEST_LEN,
    {
        Digest { bytes: sha256_finish(self.state) }
    }
}

/// The bytes of a stream that arrived in the given chunks.
pub open spec fn joined(chunks: Seq<Vec<u8>>) -> Seq<u8>
    decreases chunks.len(),
{
    if chunks.len() == 0 {
        Seq::empty()
    } else {
        joined(chunks.drop_last()) + chunks.last()@
    }
}

/// The digest of a byte stream that arrived in the given chunks.
pub fn digest(chunks: &Vec<Vec<u8>>) -> (digest: Digest)
    ensures
        digest@ == sha256(joined(chunks@)),
        digest@.len() == DIGEST_LEN,
{
    let mut hasher: Hasher = Hasher::new();
    let n: usize = chunks.len();
    let mut i: usize = 0;
    while i < n
        invariant
            n == chunks@.len(),
            i <= n,
            hasher@ == joined(chunks@.take(i as int)),
        decreases n - i,
    {
        let _ = hasher.feed(chunks[i].as_slice());
        proof {
            assert(chunks@.take(i + 1).drop_last() =~= chunks@.take(i as int));
            assert(chunks@.take(i + 1).last() == chunks@[i as int]);
        }
        i += 1;
    }
    assert(chunks@.take(n as int) =~= chunks@);
    hasher.finish()
}

/// The digest of a byte sequence.
pub fn digest_bytes(data: &[u8]) -> (digest: Digest)
    ensures
        digest@ == sha256(data@),
        digest@.len() == DIGEST_LEN,
{
    let mut hasher: Hasher = Hasher::new();
    let _ = hasher.feed(data);
    assert(Seq::<u8>::empty() + data@ =~= data@);
    hasher.finish()
}

/// The bytes of a stream in two runs of chunks, one behind the other, are
/// the bytes of the first run followed by those of the second.
pub proof fn lemma_joined_concat(first: Seq<Vec<u8>>, second: Seq<Vec<u8>>)
    ensures
        joined(first + second) == joined(first) + joined(second),
    decreases second.len(),
{
    if second.len() == 0 {
        assert(first + second =~= first);
        assert(joined(first) + joined(second) =~= joined(first));
    } else {
        lemma_joined_concat(first, second.drop_last());
        assert((first + second).drop_last() =~= first + second.drop_last());
        assert((first + second).last() == second.last());
        assert(joined(first + second) =~= joined(first) + joined(second));
    }
}

/// The digest depends on the bytes of the stream alone, not on where they
/// come from nor on how the stream was cut into chunks.
pub proof fn lemma_digest_ignores_chunking(first: Seq<Vec<u8>>, second: Seq<Vec<u8>>)
    requires
        joined(first) == joined(second),
    ensures
        sha256(joined(first)) == sha256(joined(second)),
{
}

} // verus!
