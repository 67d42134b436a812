//! Base64, as the two engines of the base64 crate write it; digests; chance.

use base64::Engine;
use rand::RngCore;
use sha2::Digest;
use vstd::prelude::*;

verus! {

/// The character for six bits. The two alphabets differ in the last two.
pub open spec fn sextet_char(n: int, url: bool) -> char {
    if n < 26 {
        ('A' as int + n) as char
    } else if n < 52 {
        ('a' as int + n - 26) as char
    } else if n < 62 {
        ('0' as int + n - 52) as char
    } else if n == 62 {
        if url { '-' } else { '+' }
    } else {
        if url { '_' } else { '/' }
    }
}

/// Bytes in base64: three bytes are four characters of six bits each, and what
/// is left over is filled up with zero bits. The URL alphabet goes without
/// padding, the standard one is padded to a multiple of four.
pub open spec fn base64_text(b: Seq<u8>, url: bool) -> Seq<char>
    decreases b.len(),
{
    if b.len() == 0 {
        Seq::empty()
    } else if b.len() == 1 {
        seq![sextet_char(b[0] as int / 4, url), sextet_char(b[0] as int % 4 * 16, url)]
            + if url { Seq::empty() } else { seq!['=', '='] }
    } else if b.len() == 2 {
        seq![
            sextet_char(b[0] as int / 4, url),
            sextet_char(b[0] as int % 4 * 16 + b[1] as int / 16, url),
            sextet_char(b[1] as int % 16 * 4, url),
        ] + if url { Seq::empty() } else { seq!['='] }
    } else {
        seq![
            sextet_char(b[0] as int / 4, url),
            sextet_char(b[0] as int % 4 * 16 + b[1] as int / 16, url),
            sextet_char(b[1] as int % 16 * 4 + b[2] as int / 64, url),
            sextet_char(b[2] as int % 64, url),
        ] + base64_text(b.skip(3), url)
    }
}

/// Whether the text for so many bytes can be held in memory.
pub open spec fn base64_fits(len: nat) -> bool {
    (len + 2) / 3 * 4 <= isize::MAX
}

/// `Engine::encode` of the engine `STANDARD`: the standard alphabet with
/// padding.
#[verifier::external_body]
pub(crate) fn base64_standard(bytes: &[u8]) -> (r: String)
    requires
        base64_fits(bytes@.len()),
    ensures
        r@ == base64_text(bytes@, false),
{
    base64::engine::general_purpose::STANDARD.encode(bytes)
}

/// `Engine::encode` of the engine `URL_SAFE_NO_PAD`: the URL alphabet without
/// padding.
#[verifier::external_body]
pub(crate) fn base64_url(bytes: &[u8]) -> (r: String)
    requires
        base64_fits(bytes@.len()),
    ensures
        r@ == base64_text(bytes@, true),
{
    base64::engine::general_purpose::URL_SAFE_NO_PAD.encode(bytes)
}

// ---- laws ----

/// The six bits that a character stands for.
pub open spec fn sextet_value(c: char, url: bool) -> int {
    if 'A' <= c <= 'Z' {
        c as int - 'A' as int
    } else if 'a' <= c <= 'z' {
        c as int - 'a' as int + 26
    } else if '0' <= c <= '9' {
        c as int - '0' as int + 52
    } else if c == (if url { '-' } else { '+' }) {
        62
    } else {
        63
    }
}

/// The bytes that a text in base64 stands for.
pub open spec fn base64_bytes(s: Seq<char>, url: bool) -> Seq<u8>
    decreases s.len(),
{
    if s.len() < 2 {
        Seq::empty()
    } else {
        let q0 = sextet_value(s[0], url);
        let q1 = sextet_value(s[1], url);
        let b0 = (q0 * 4 + q1 / 16) as u8;
        if s.len() == 2 || s[2] == '=' {
            seq![b0]
        } else {
            let q2 = sextet_value(s[2], url);
            let b1 = (q1 % 16 * 16 + q2 / 4) as u8;
            if s.len() == 3 || s[3] == '=' {
                seq![b0, b1]
            } else {
                seq![b0, b1, (q2 % 4 * 64 + sextet_value(s[3], url)) as u8] + base64_bytes(
                    s.skip(4),
                    url,
                )
            }
        }
    }
}

proof fn lemma_sextet(n: int, url: bool)
    requires
        0 <= n < 64,
    ensures
        sextet_value(sextet_char(n, url), url) == n,
        sextet_char(n, url) != '=',
{
}

/// Base64 loses nothing: the text stands for the bytes that went in.
pub proof fn law_base64_reads_back(b: Seq<u8>, url: bool)
    ensures
        base64_bytes(base64_text(b, url), url) == b,
    decreases b.len(),
{
    let s = base64_text(b, url);
    assert forall|n: int| 0 <= n < 64 implies sextet_value(#[trigger] sextet_char(n, url), url) == n
        && sextet_char(n, url) != '=' by {
        lemma_sextet(n, url);
    }
    if b.len() == 0 {
        assert(base64_bytes(s, url) =~= b);
    } else if b.len() == 1 {
        assert(base64_bytes(s, url) =~= b);
    } else if b.len() == 2 {
        assert(base64_bytes(s, url) =~= b);
    } else {
        law_base64_reads_back(b.skip(3), url);
        assert(s.skip(4) =~= base64_text(b.skip(3), url));
        assert(base64_bytes(s, url) =~= b);
    }
}

/// The length of a text in URL base64.
pub proof fn lemma_base64_url_len(b: Seq<u8>)
    ensures
        base64_text(b, true).len() == (b.len() * 4 + 2) / 3,
    decreases b.len(),
{
    if b.len() >= 3 {
        lemma_base64_url_len(b.skip(3));
    }
}

/// Whether a character can stand in a URL as it is.
pub open spec fn is_unreserved(c: char) -> bool {
    'A' <= c <= 'Z' || 'a' <= c <= 'z' || '0' <= c <= '9' || c == '-' || c == '.' || c == '_' || c
        == '~'
}

/// A text in URL base64 needs no escaping in a URL.
pub proof fn law_base64_url_is_unreserved(b: Seq<u8>, i: int)
    requires
        0 <= i < base64_text(b, true).len(),
    ensures
        is_unreserved(base64_text(b, true)[i]),
    decreases b.len(),
{
    let s = base64_text(b, true);
    if b.len() >= 3 && i >= 4 {
        law_base64_url_is_unreserved(b.skip(3), i - 4);
        assert(s[i] == base64_text(b.skip(3), true)[i - 4]);
    }
}

// ---- digests and chance ----

/// The SHA-256 digest of bytes.
pub uninterp spec fn sha256_of(bytes: Seq<u8>) -> Seq<u8>;

/// `Sha256::digest`: 32 bytes, which depend on the argument alone.
#[verifier::external_body]
pub(crate) fn sha256(bytes: &[u8]) -> (r: Vec<u8>)
    ensures
        r@ == sha256_of(bytes@),
        r@.len() == 32,
{
    sha2::Sha256::digest(bytes).to_vec()
}

/// `fill_bytes` of the generator that `rand::rng` hands out, on a buffer of
/// zeros: as many bytes as asked for. Which ones is a matter of chance.
#[verifier::external_body]
pub(crate) fn random_bytes(n: usize) -> (r: Vec<u8>)
    requires
        n <= isize::MAX,
    ensures
        r@.len() == n,
{
    let mut buf = vec![0u8; n];
    rand::rng().fill_bytes(&mut buf);
    buf
}

} // verus!
