//! Checksummed, human-shareable tokens that name a (subject, index) pair.
//!
//! A token is the base-32 text, lower-cased and grouped by five with `-`, of
//! a frame: a CRC-32 checksum followed by the body it covers, the body being a
//! fixed tag, the subject's raw bytes and the big-endian index.
use vstd::prelude::*;

use crate::bytes::{append_range, be_bytes, be_u32_at, lemma_be_u32_of_bytes, lemma_bytes_of_be_u32, push_be_bytes, read_be_u32};
use crate::principal::{PrincipalId, MAX_PRINCIPAL_LEN};

verus! {

/// Why a token could not be read.
#[derive(Clone, Copy, Debug, PartialEq, Eq, Structural)]
pub enum TokenError {
    /// The text is not base-32.
    InvalidBase32,
    /// The decoded frame cannot hold a checksum, a tag and an index.
    TooShort,
    /// The tag of the frame is not the token tag.
    TagMismatch,
    /// The subject is longer than an identity can be.
    SubjectTooLong,
    /// The checksum does not match the body it covers.
    ChecksumMismatch,
}

/// The tag that every token body starts with.
pub open spec fn token_tag() -> Seq<u8> {
    seq![10u8, 116u8, 105u8, 100u8]
}

/// The body of the token for `subject` and `index`.
pub open spec fn token_body(subject: Seq<u8>, index: u32) -> Seq<u8> {
    token_tag() + subject + be_bytes(index)
}

/// The CRC-32 checksum of `b`.
pub uninterp spec fn crc32_of(b: Seq<u8>) -> u32;

/// The checksummed frame of the token for `subject` and `index`.
pub open spec fn token_frame(subject: Seq<u8>, index: u32) -> Seq<u8> {
    be_bytes(crc32_of(token_body(subject, index))) + token_body(subject, index)
}

/// The RFC 4648 base-32 text of `b`, without padding.
pub uninterp spec fn base32_encoded(b: Seq<u8>) -> Seq<char>;

/// The bytes whose RFC 4648 base-32 text, without padding, is `s`, if any.
pub uninterp spec fn base32_decoded(s: Seq<char>) -> Option<Seq<u8>>;

/// A character of the RFC 4648 base-32 alphabet.
pub open spec fn is_base32_char(c: char) -> bool {
    ('A' <= c && c <= 'Z') || ('2' <= c && c <= '7')
}

pub open spec fn lower_char(c: char) -> char {
    if 'A' <= c && c <= 'Z' {
        ((c as u32) + 32) as char
    } else {
        c
    }
}

pub open spec fn upper_char(c: char) -> char {
    if 'a' <= c && c <= 'z' {
        ((c as u32) - 32) as char
    } else {
        c
    }
}

/// `s` with its ASCII capitals made small.
pub open spec fn ascii_lower(s: Seq<char>) -> Seq<char> {
    s.map_values(|c: char| lower_char(c))
}

/// `s` with its ASCII small letters made capitals.
pub open spec fn ascii_upper(s: Seq<char>) -> Seq<char> {
    s.map_values(|c: char| upper_char(c))
}

/// `s` with a `-` before every fifth character but the first.
pub open spec fn grouped(s: Seq<char>) -> Seq<char>
    decreases s.len(),
{
    if s.len() == 0 {
        Seq::empty()
    } else {
        let i = s.len() - 1;
        let prev = grouped(s.drop_last());
        if i % 5 == 0 && i != 0 {
            prev + seq!['-', s[i]]
        } else {
            prev.push(s[i])
        }
    }
}

/// `s` without its `-` characters.
pub open spec fn ungrouped(s: Seq<char>) -> Seq<char>
    decreases s.len(),
{
    if s.len() == 0 {
        Seq::empty()
    } else {
        let prev = ungrouped(s.drop_last());
        if s.last() == '-' {
            prev
        } else {
            prev.push(s.last())
        }
    }
}

/// The token text for `subject` and `index`.
pub open spec fn token_text(subject: Seq<u8>, index: u32) -> Seq<char> {
    grouped(ascii_lower(base32_encoded(token_frame(subject, index))))
}

/// What reading the frame `b` gives.
pub open spec fn frame_result(b: Seq<u8>) -> Result<(Seq<u8>, u32), TokenError> {
    if b.len() < 12 {
        Err(TokenError::TooShort)
    } else if b.subrange(4, 8) != token_tag() {
        Err(TokenError::TagMismatch)
    } else if b.len() - 12 > MAX_PRINCIPAL_LEN {
        Err(TokenError::SubjectTooLong)
    } else if b.subrange(0, 4) != be_bytes(crc32_of(b.subrange(4, b.len() as int))) {
        Err(TokenError::ChecksumMismatch)
    } else {
        Ok((b.subrange(8, b.len() - 4), be_u32_at(b, b.len() - 4)))
    }
}

/// What reading the token `text` gives.
pub open spec fn token_result(text: Seq<char>) -> Result<(Seq<u8>, u32), TokenError> {
    match base32_decoded(ascii_upper(ungrouped(text))) {
        None => Err(TokenError::InvalidBase32),
        Some(b) => frame_result(b),
    }
}

/// A frame shorter than eight bytes, or one whose tag is not the token tag,
/// reads as an error, never as a pair.
pub proof fn lemma_rejects_garbage(b: Seq<u8>)
    requires
        b.len() < 8 || b.subrange(4, 8) != token_tag(),
    ensures
        frame_result(b) is Err,
{
}

/// Relies on `crc32fast::hash`: the CRC-32 checksum of the bytes.
#[verifier::external_body]
fn crc32_checksum(b: &Vec<u8>) -> (r: u32)
    ensures
        r == crc32_of(b@),
{
    crc32fast::hash(b.as_slice())
}

/// Relies on `base32::encode` with the RFC 4648 alphabet and no padding: its
/// text is made of that alphabet, and `base32::decode` gives the bytes back.
#[verifier::external_body]
fn base32_encode(b: &Vec<u8>) -> (r: String)
    ensures
        r@ == base32_encoded(b@),
        forall|i: int| 0 <= i < r@.len() ==> is_base32_char(#[trigger] r@[i]),
        base32_decoded(r@) == Some(b@),
{
    base32::encode(base32::Alphabet::RFC4648 { padding: false }, b.as_slice())
}

/// Relies on `base32::decode` with the RFC 4648 alphabet: it reads small
/// letters as the capitals they stand for.
#[verifier::external_body]
fn base32_decode(s: &str) -> (r: Option<Vec<u8>>)
    ensures
        r matches Some(b) ==> base32_decoded(ascii_upper(s@)) == Some(b@),
        r is None ==> base32_decoded(ascii_upper(s@)) is None,
{
    base32::decode(base32::Alphabet::RFC4648 { padding: false }, s)
}

/// Relies on `str::to_ascii_lowercase`: ASCII capitals become small letters,
/// every other character stays.
#[verifier::external_body]
fn to_ascii_lowercase(s: &str) -> (r: String)
    ensures
        r@ == ascii_lower(s@),
{
    s.to_ascii_lowercase()
}

/// Relies on `String::push`: appends one character.
#[verifier::external_body]
pub(crate) fn push_char(s: &mut String, c: char)
    ensures
        final(s)@ == old(s)@.push(c),
{
    s.push(c)
}

proof fn lemma_ungrouped_append(a: Seq<char>, b: Seq<char>)
    ensures
        ungrouped(a + b) == ungrouped(a) + ungrouped(b),
    decreases b.len(),
{
    if b.len() == 0 {
        assert(a + b =~= a);
        assert(ungrouped(b) =~= Seq::<char>::empty());
        assert(ungrouped(a) + ungrouped(b) =~= ungrouped(a));
    } else {
        lemma_ungrouped_append(a, b.drop_last());
        assert((a + b).drop_last() =~= a + b.drop_last());
        assert((a + b).last() == b.last());
        if b.last() == '-' {
        } else {
            assert(ungrouped(a) + ungrouped(b) =~= (ungrouped(a) + ungrouped(b.drop_last())).push(
                b.last(),
            ));
        }
    }
}

proof fn lemma_ungrouped_grouped(s: Seq<char>)
    requires
        forall|i: int| 0 <= i < s.len() ==> s[i] != '-',
    ensures
        ungrouped(grouped(s)) == s,
    decreases s.len(),
{
    if s.len() == 0 {
    } else {
        let i = s.len() - 1;
        lemma_ungrouped_grouped(s.drop_last());
        let prev = grouped(s.drop_last());
        if i % 5 == 0 && i != 0 {
            lemma_ungrouped_append(prev, seq!['-', s[i]]);
            let pair = seq!['-', s[i]];
            let dash = seq!['-'];
            assert(pair.drop_last() =~= dash);
            assert(pair.last() == s[i]);
            assert(dash.drop_last() =~= Seq::<char>::empty());
            assert(dash.last() == '-');
            assert(ungrouped(Seq::<char>::empty()) =~= Seq::<char>::empty());
            assert(ungrouped(dash) =~= Seq::<char>::empty());
            assert(ungrouped(pair) =~= seq![s[i]]);
        } else {
            assert(prev.push(s[i]).drop_last() =~= prev);
        }
        assert(s.drop_last().push(s[i]) =~= s);
    }
}

proof fn lemma_token_round_trip(subject: Seq<u8>, index: u32, encoded: Seq<char>)
    requires
        subject.len() <= MAX_PRINCIPAL_LEN,
        encoded == base32_encoded(token_frame(subject, index)),
        forall|i: int| 0 <= i < encoded.len() ==> is_base32_char(#[trigger] encoded[i]),
        base32_decoded(encoded) == Some(token_frame(subject, index)),
    ensures
        token_result(token_text(subject, index)) == Ok::<(Seq<u8>, u32), TokenError>((subject, index)),
{
    let lower = ascii_lower(encoded);
    assert forall|i: int| 0 <= i < lower.len() implies lower[i] != '-' by {
        assert(is_base32_char(encoded[i]));
    }
    lemma_ungrouped_grouped(lower);
    assert forall|i: int| 0 <= i < encoded.len() implies #[trigger] ascii_upper(lower)[i]
        == encoded[i] by {
        assert(is_base32_char(encoded[i]));
    }
    assert(ascii_upper(lower) =~= encoded);
    let body = token_body(subject, index);
    let b = token_frame(subject, index);
    assert(b.subrange(4, 8) =~= token_tag());
    assert(b.subrange(4, b.len() as int) =~= body);
    assert(b.subrange(0, 4) =~= be_bytes(crc32_of(body)));
    assert(b.subrange(8, b.len() - 4) =~= subject);
    assert(b.subrange(b.len() - 4, b.len() as int) =~= be_bytes(index));
    lemma_be_u32_of_bytes(index);
    assert(be_u32_at(b, b.len() - 4) == be_u32_at(be_bytes(index), 0));
}

/// The token that names `index` under `canister_id`. Reading it back gives
/// the same pair.
pub fn encode_token(canister_id: &PrincipalId, token: u32) -> (r: String)
    ensures
        r@ == token_text(canister_id@, token),
        token_result(r@) == Ok::<(Seq<u8>, u32), TokenError>((canister_id@, token)),
{
    // the identity's length bound, which the frame's length rests on
    let _ = canister_id.len();
    let subject = canister_id.as_bytes();
    let mut body: Vec<u8> = Vec::new();
    body.push(10u8);
    body.push(116u8);
    body.push(105u8);
    body.push(100u8);
    append_range(&mut body, subject, 0, subject.len());
    push_be_bytes(&mut body, token);
    proof {
        assert(subject@.subrange(0, subject@.len() as int) =~= subject@);
        assert(body@ =~= token_body(canister_id@, token));
    }
    let checksum = crc32_checksum(&body);
    let mut frame: Vec<u8> = Vec::new();
    push_be_bytes(&mut frame, checksum);
    append_range(&mut frame, &body, 0, body.len());
    proof {
        assert(body@.subrange(0, body@.len() as int) =~= body@);
        assert(frame@ =~= token_frame(canister_id@, token));
    }
    let raw = base32_encode(&frame);
    let lower = to_ascii_lowercase(raw.as_str());
    let n = lower.as_str().unicode_len();
    let mut out = String::new();
    let mut i: usize = 0;
    while i < n
        invariant
            n == lower@.len(),
            0 <= i <= n,
            out@ == grouped(lower@.subrange(0, i as int)),
        decreases n - i,
    {
        let c = lower.as_str().get_char(i);
        proof {
            assert(lower@.subrange(0, i + 1).drop_last() =~= lower@.subrange(0, i as int));
        }
        if i % 5 == 0 && i != 0 {
            push_char(&mut out, '-');
        }
        push_char(&mut out, c);
        proof {
            let prev = grouped(lower@.subrange(0, i as int));
            if i % 5 == 0 && i != 0 {
                assert(prev.push('-').push(c) =~= prev + seq!['-', c]);
            }
        }
        i = i + 1;
    }
    proof {
        assert(lower@.subrange(0, n as int) =~= lower@);
        lemma_token_round_trip(canister_id@, token, raw@);
    }
    out
}

/// `text` without its `-` characters.
fn strip_dashes(text: &str) -> (r: String)
    ensures
        r@ == ungrouped(text@),
{
    let n = text.unicode_len();
    let mut out = String::new();
    let mut i: usize = 0;
    while i < n
        invariant
            n == text@.len(),
            0 <= i <= n,
            out@ == ungrouped(text@.subrange(0, i as int)),
        decreases n - i,
    {
        let c = text.get_char(i);
        proof {
            assert(text@.subrange(0, i + 1).drop_last() =~= text@.subrange(0, i as int));
        }
        if c != '-' {
            push_char(&mut out, c);
        }
        i = i + 1;
    }
    proof {
        assert(text@.subrange(0, n as int) =~= text@);
    }
    out
}

/// Reads a token back into the identity and index it names. Fails where the
/// text is not base-32, the frame is too short, its tag or checksum is wrong,
/// or the subject is too long for an identity.
pub fn decode_token(token: &str) -> (r: Result<(PrincipalId, u32), TokenError>)
    ensures
        match r {
            Ok((p, i)) => token_result(token@) == Ok::<(Seq<u8>, u32), TokenError>((p@, i)),
            Err(e) => token_result(token@) == Err::<(Seq<u8>, u32), TokenError>(e),
        },
{
    let raw = strip_dashes(token);
    let bytes = match base32_decode(raw.as_str()) {
        Some(b) => b,
        None => return Err(TokenError::InvalidBase32),
    };
    let n = bytes.len();
    if n < 12 {
        return Err(TokenError::TooShort);
    }
    if !(bytes[4] == 10u8 && bytes[5] == 116u8 && bytes[6] == 105u8 && bytes[7] == 100u8) {
        proof {
            if bytes@.subrange(4, 8) == token_tag() {
                assert(bytes@.subrange(4, 8)[0] == bytes@[4]);
                assert(bytes@.subrange(4, 8)[1] == bytes@[5]);
                assert(bytes@.subrange(4, 8)[2] == bytes@[6]);
                assert(bytes@.subrange(4, 8)[3] == bytes@[7]);
            }
        }
        return Err(TokenError::TagMismatch);
    }
    proof {
        assert(bytes@.subrange(4, 8) =~= token_tag());
    }
    if n - 12 > MAX_PRINCIPAL_LEN {
        return Err(TokenError::SubjectTooLong);
    }
    let mut covered: Vec<u8> = Vec::new();
    append_range(&mut covered, &bytes, 4, n);
    let checksum = crc32_checksum(&covered);
    let stored = read_be_u32(&bytes, 0);
    proof {
        assert(covered@ =~= bytes@.subrange(4, n as int));
        lemma_bytes_of_be_u32(bytes@, 0);
        lemma_be_u32_of_bytes(checksum);
        assert(be_bytes(checksum).subrange(0, 4) =~= be_bytes(checksum));
    }
    if stored != checksum {
        return Err(TokenError::ChecksumMismatch);
    }
    let mut subject: Vec<u8> = Vec::new();
    append_range(&mut subject, &bytes, 8, n - 4);
    let index = read_be_u32(&bytes, n - 4);
    proof {
        assert(subject@ =~= bytes@.subrange(8, n - 4));
    }
    match PrincipalId::from_bytes(subject) {
        Some(p) => Ok((p, index)),
        None => Err(TokenError::SubjectTooLong),
    }
}

} // verus!
