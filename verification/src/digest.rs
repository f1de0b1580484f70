//! Digests of bytes, and bytes written in hexadecimal.

use base64::Engine;
use hmac::Mac;
use sha2::Digest;
use vstd::prelude::*;

verus! {

/// The SHA-256 digest of the data.
pub uninterp spec fn sha256(data: Seq<u8>) -> Seq<u8>;

/// `sha2::Sha256::digest`: hashes the data. The digest depends on the data alone and is
/// 32 bytes long; which bytes it holds is not stated.
#[verifier::external_body]
pub(crate) fn sha256_of(data: &[u8]) -> (digest: Vec<u8>)
    ensures
        digest@ == sha256(data@),
        digest@.len() == 32,
{
    sha2::Sha256::digest(data).to_vec()
}

/// The hexadecimal digit of a number below sixteen, in lower case.
pub open spec fn hex_char(n: int) -> char {
    if n < 10 {
        ('0' as u32 + n) as char
    } else {
        ('a' as u32 + (n - 10)) as char
    }
}

/// Two hexadecimal digits for each byte.
pub open spec fn hex(bytes: Seq<u8>) -> Seq<char>
    decreases bytes.len(),
{
    if bytes.len() == 0 {
        Seq::empty()
    } else {
        hex(bytes.drop_last()).push(hex_char((bytes.last() / 16) as int)).push(
            hex_char((bytes.last() % 16) as int),
        )
    }
}

fn hex_of(n: u8) -> (c: char)
    requires
        n < 16,
    ensures
        c == hex_char(n as int),
{
    if n < 10 {
        (48 + n) as char
    } else {
        (97 + (n - 10)) as char
    }
}

pub fn hex_text(bytes: &Vec<u8>) -> (text: String)
    ensures
        text@ == hex(bytes@),
{
    let mut text = String::new();
    let mut i: usize = 0;
    while i < bytes.len()
        invariant
            i <= bytes@.len(),
            text@ == hex(bytes@.take(i as int)),
        decreases bytes@.len() - i,
    {
        assert(bytes@.take(i + 1).drop_last() =~= bytes@.take(i as int));
        text.push(hex_of(bytes[i] / 16));
        text.push(hex_of(bytes[i] % 16));
        i = i + 1;
    }
    assert(bytes@.take(i as int) =~= bytes@);
    text
}

/// Hexadecimal text is twice as long as the bytes, and holds lower case digits alone.
pub proof fn hex_shape(bytes: Seq<u8>)
    ensures
        hex(bytes).len() == 2 * bytes.len(),
        forall|i: int|
            0 <= i < hex(bytes).len() ==> '0' <= #[trigger] hex(bytes)[i] <= '9' || 'a' <= hex(
                bytes,
            )[i] <= 'f',
    decreases bytes.len(),
{
    if bytes.len() > 0 {
        hex_shape(bytes.drop_last());
    }
}

proof fn lemma_hex_char_injective(left: int, right: int)
    requires
        0 <= left < 16,
        0 <= right < 16,
        hex_char(left) == hex_char(right),
    ensures
        left == right,
{
}

/// Different bytes are written differently.
pub proof fn hex_is_injective(left: Seq<u8>, right: Seq<u8>)
    requires
        hex(left) == hex(right),
    ensures
        left == right,
    decreases left.len(),
{
    hex_shape(left);
    hex_shape(right);
    if left.len() > 0 {
        let l = left.last();
        let r = right.last();
        let a = hex(left.drop_last()).push(hex_char((l / 16) as int));
        let b = hex(right.drop_last()).push(hex_char((r / 16) as int));
        assert(hex(left).last() == hex_char((l % 16) as int));
        assert(hex(right).last() == hex_char((r % 16) as int));
        assert(hex(left).drop_last() =~= a);
        assert(hex(right).drop_last() =~= b);
        assert(a.last() == b.last());
        lemma_hex_char_injective((l % 16) as int, (r % 16) as int);
        lemma_hex_char_injective((l / 16) as int, (r / 16) as int);
        assert(a.drop_last() =~= hex(left.drop_last()));
        assert(b.drop_last() =~= hex(right.drop_last()));
        hex_is_injective(left.drop_last(), right.drop_last());
        assert(left =~= left.drop_last().push(l));
        assert(right =~= right.drop_last().push(r));
    } else {
        assert(left =~= right);
    }
}

/// The SHA-256 digest of the data in lower case hexadecimal.
pub open spec fn sha256_hex(data: Seq<u8>) -> Seq<char> {
    hex(sha256(data))
}

/// The SHA-256 digest of the data in lower case hexadecimal.
pub fn sha256_hex_text(data: &[u8]) -> (text: String)
    ensures
        text@ == sha256_hex(data@),
        text@.len() == 64,
{
    let digest = sha256_of(data);
    proof {
        hex_shape(digest@);
    }
    hex_text(&digest)
}

/// A `sha2::Sha256`, which collects bytes to hash. Of what it holds only `has_hashed` speaks.
#[verifier::external_body]
pub struct Sha256Hasher {
    inner: sha2::Sha256,
}

/// Whether a hasher has been given these bytes, in one piece or in many.
pub uninterp spec fn has_hashed(hasher: Sha256Hasher, bytes: Seq<u8>) -> bool;

/// `sha2::Sha256::new`: a hasher that has been given nothing yet.
#[verifier::external_body]
fn new_hasher() -> (hasher: Sha256Hasher)
    ensures
        has_hashed(hasher, Seq::empty()),
{
    Sha256Hasher { inner: sha2::Sha256::new() }
}

/// `sha2::Sha256::update`: gives the hasher more bytes, after those that it was given before.
#[verifier::external_body]
fn hash_more(hasher: &mut Sha256Hasher, data: &[u8])
    ensures
        forall|bytes: Seq<u8>| #[trigger]
            has_hashed(*old(hasher), bytes) ==> has_hashed(*final(hasher), bytes + data@),
{
    hasher.inner.update(data)
}

/// `sha2::Sha256::finalize`: the digest of all the bytes that the hasher was given, which is the
/// digest of the same bytes in one piece.
#[verifier::external_body]
fn hash_done(hasher: Sha256Hasher) -> (digest: Vec<u8>)
    ensures
        forall|bytes: Seq<u8>| #[trigger] has_hashed(hasher, bytes) ==> digest@ == sha256(bytes),
        digest@.len() == 32,
{
    hasher.inner.finalize().to_vec()
}

/// Bytes that arrive piece by piece and are hashed as they arrive.
pub struct Sha256Stream {
    hasher: Sha256Hasher,
    fed: Ghost<Seq<u8>>,
}

impl Sha256Stream {
    /// The bytes so far.
    pub closed spec fn bytes(self) -> Seq<u8> {
        self.fed@
    }

    pub closed spec fn wf(self) -> bool {
        has_hashed(self.hasher, self.fed@)
    }

    pub fn new() -> (stream: Sha256Stream)
        ensures
            stream.wf(),
            stream.bytes() == Seq::<u8>::empty(),
    {
        Sha256Stream { hasher: new_hasher(), fed: Ghost(Seq::empty()) }
    }

    pub fn update(&mut self, data: &[u8])
        requires
            old(self).wf(),
        ensures
            final(self).wf(),
            final(self).bytes() == old(self).bytes() + data@,
    {
        hash_more(&mut self.hasher, data);
        self.fed = Ghost(self.fed@ + data@);
    }

    /// The digest of all the bytes, in hexadecimal.
    pub fn finish(self) -> (text: String)
        requires
            self.wf(),
        ensures
            text@ == sha256_hex(self.bytes()),
    {
        let digest = hash_done(self.hasher);
        hex_text(&digest)
    }
}

/// The HMAC-SHA1 code of the message under the key.
pub uninterp spec fn hmac_sha1(key: Seq<u8>, message: Seq<u8>) -> Seq<u8>;

/// `hmac::Hmac::<sha1::Sha1>`, made from the key with `new_from_slice`, which takes a key of any
/// length, then fed with the message and finalised. The code depends on the key and the message
/// alone and is 20 bytes long; which bytes it holds is not stated.
#[verifier::external_body]
pub(crate) fn hmac_sha1_of(key: &[u8], message: &[u8]) -> (code: Vec<u8>)
    ensures
        code@ == hmac_sha1(key@, message@),
        code@.len() == 20,
{
    let mut mac = hmac::Hmac::<sha1::Sha1>::new_from_slice(key).unwrap();
    mac.update(message);
    mac.finalize().into_bytes().to_vec()
}

/// The digit of a number below 64 in base64: capital letters, small letters, digits, and two signs.
pub open spec fn base64_digit(n: int, for_urls: bool) -> char {
    if n < 26 {
        ('A' as u32 + n) as char
    } else if n < 52 {
        ('a' as u32 + (n - 26)) as char
    } else if n < 62 {
        ('0' as u32 + (n - 52)) as char
    } else if n == 62 {
        if for_urls {
            '-'
        } else {
            '+'
        }
    } else {
        if for_urls {
            '_'
        } else {
            '/'
        }
    }
}

/// The bytes in base64: four digits of six bits for each three bytes, and two or three digits for
/// one or two bytes that are left, which equals signs fill up unless the text is for URLs.
pub open spec fn base64(bytes: Seq<u8>, for_urls: bool) -> Seq<char>
    decreases bytes.len(),
{
    let a = bytes[0] as int;
    let b = bytes[1] as int;
    let c = bytes[2] as int;
    if bytes.len() == 0 {
        Seq::empty()
    } else if bytes.len() == 1 {
        seq![base64_digit(a / 4, for_urls), base64_digit(a % 4 * 16, for_urls)] + (if for_urls {
            Seq::empty()
        } else {
            seq!['=', '=']
        })
    } else if bytes.len() == 2 {
        seq![
            base64_digit(a / 4, for_urls),
            base64_digit(a % 4 * 16 + b / 16, for_urls),
            base64_digit(b % 16 * 4, for_urls),
        ] + (if for_urls {
            Seq::empty()
        } else {
            seq!['=']
        })
    } else {
        seq![
            base64_digit(a / 4, for_urls),
            base64_digit(a % 4 * 16 + b / 16, for_urls),
            base64_digit(b % 16 * 4 + c / 64, for_urls),
            base64_digit(c % 64, for_urls),
        ] + base64(bytes.skip(3), for_urls)
    }
}

/// The bytes in base64 with the standard alphabet and padding.
pub open spec fn base64_standard(bytes: Seq<u8>) -> Seq<char> {
    base64(bytes, false)
}

/// `base64::engine::general_purpose::STANDARD.encode`: the bytes in base64 with the standard
/// alphabet and padding.
#[verifier::external_body]
pub(crate) fn base64_standard_of(bytes: &[u8]) -> (text: String)
    ensures
        text@ == base64_standard(bytes@),
{
    base64::engine::general_purpose::STANDARD.encode(bytes)
}

/// The bytes in base64 with the alphabet for URLs and without padding.
pub open spec fn base64_url(bytes: Seq<u8>) -> Seq<char> {
    base64(bytes, true)
}

/// `base64::engine::general_purpose::URL_SAFE_NO_PAD.encode`: the bytes in base64 with the alphabet
/// for URLs and without padding.
#[verifier::external_body]
pub(crate) fn base64_url_of(bytes: &[u8]) -> (text: String)
    ensures
        text@ == base64_url(bytes@),
{
    base64::engine::general_purpose::URL_SAFE_NO_PAD.encode(bytes)
}

proof fn lemma_digit_is_injective(left: int, right: int)
    requires
        0 <= left < 64,
        0 <= right < 64,
        base64_digit(left, true) == base64_digit(right, true),
    ensures
        left == right,
{
}

/// Different bytes have different texts in base64 for URLs.
pub proof fn base64_url_is_injective(left: Seq<u8>, right: Seq<u8>)
    requires
        base64_url(left) == base64_url(right),
    ensures
        left == right,
    decreases left.len(),
{
    let l = base64(left, true);
    let r = base64(right, true);
    lemma_base64_length(left);
    lemma_base64_length(right);
    if left.len() == 0 {
        assert(left =~= right);
    } else {
        assert(right.len() > 0);
        let a = left[0] as int;
        let x = right[0] as int;
        assert(l[0] == r[0] && l[1] == r[1]);
        lemma_digit_is_injective(a / 4, x / 4);
        if left.len() == 1 {
            assert(right.len() == 1);
            lemma_digit_is_injective(a % 4 * 16, x % 4 * 16);
            assert(left =~= right);
        } else {
            assert(right.len() > 1);
            let b = left[1] as int;
            let y = right[1] as int;
            assert(l[2] == r[2]);
            lemma_digit_is_injective(a % 4 * 16 + b / 16, x % 4 * 16 + y / 16);
            if left.len() == 2 {
                assert(right.len() == 2);
                lemma_digit_is_injective(b % 16 * 4, y % 16 * 4);
                assert(left =~= right);
            } else {
                assert(right.len() > 2);
                let c = left[2] as int;
                let z = right[2] as int;
                assert(l[3] == r[3]);
                lemma_digit_is_injective(b % 16 * 4 + c / 64, y % 16 * 4 + z / 64);
                lemma_digit_is_injective(c % 64, z % 64);
                assert(base64(left.skip(3), true) =~= l.skip(4));
                assert(base64(right.skip(3), true) =~= r.skip(4));
                base64_url_is_injective(left.skip(3), right.skip(3));
                assert(left[0] == right[0] && left[1] == right[1] && left[2] == right[2]);
                assert forall|i: int| 3 <= i < left.len() implies left[i] == right[i] by {
                    assert(left.skip(3)[i - 3] == right.skip(3)[i - 3]);
                }
                assert(left.skip(3).len() == right.skip(3).len());
                assert(left =~= right);
            }
        }
    }
}

proof fn lemma_base64_length(bytes: Seq<u8>)
    ensures
        base64(bytes, true).len() == (bytes.len() * 4 + 2) / 3,
    decreases bytes.len(),
{
    if bytes.len() > 2 {
        lemma_base64_length(bytes.skip(3));
    }
}

/// A byte is written with its upper half first, in the digits and the small letters up to `f`.
pub proof fn bytes_are_written_upper_half_first(bytes: Seq<u8>, upper: u8, lower: u8)
    requires
        upper < 16,
        lower < 16,
    ensures
        hex(Seq::empty()) == Seq::<char>::empty(),
        hex(bytes.push((upper * 16 + lower) as u8)) == hex(bytes).push(hex_char(upper as int)).push(
            hex_char(lower as int),
        ),
        upper < 10 ==> hex_char(upper as int) as int == 0x30 + upper,
        upper >= 10 ==> hex_char(upper as int) as int == 0x61 + upper - 10,
{
    let byte = (upper * 16 + lower) as u8;
    assert(bytes.push(byte).drop_last() =~= bytes);
    assert(byte / 16 == upper);
    assert(byte % 16 == lower);
}

} // verus!
