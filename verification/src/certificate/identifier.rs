//! The identifiers of certificates and of issued certificates.

use vstd::prelude::*;

use super::bytes::{
    append_bytes, law_le_bytes_are_read_back, le_bytes, le_value, lemma_le_bytes_of_value,
    u64_le_bytes, Bytes,
};

use base58::ToBase58;
use parity_scale_codec::Encode;

verus! {

/// The identifier of a certificate.
pub type CertId = [u8; 32];

/// The identifier of an issued certificate.
pub type IssuedId = Vec<u8>;

/// The BLAKE2b hash of the data, of 256 bits.
pub uninterp spec fn blake2_256(data: Seq<u8>) -> Seq<u8>;

/// Calls `Hash::hash` of `sp_runtime::traits::BlakeTwo256`. Trusted: the hash is a function of
/// the data alone.
#[verifier::external_body]
fn outer_blake_two_256(data: &[u8]) -> (r: [u8; 32])
    ensures
        r@ == blake2_256(data@),
{
    <sp_runtime::traits::BlakeTwo256 as sp_runtime::traits::Hash>::hash(data).to_fixed_bytes()
}

/// Calls `Encode::encode` of `parity_scale_codec` on an array of 32 bytes. Trusted: the encoding
/// is the bytes themselves, with nothing before or after.
#[verifier::external_body]
fn outer_encode(bytes: &[u8; 32]) -> (r: Vec<u8>)
    ensures
        r@ == bytes@,
{
    bytes.encode()
}

/// Calls `ToBase58::to_base58` of `base58`. Trusted: the characters of the text, all of them
/// ASCII, are those of `base58_text`. The crate's documentation vouches for up to 128 bytes.
#[verifier::external_body]
fn outer_to_base58(data: &[u8]) -> (r: Vec<u8>)
    requires
        data@.len() <= 128,
    ensures
        r@ == base58_text(data@),
{
    data.to_base58().into_bytes()
}

/// A hash function. Encoded hashes have at least the 32 bytes of a certificate's identifier, and at
/// most the 128 bytes that are turned into base 58.
pub trait Hashing {
    /// The encoded hash of the data.
    spec fn digest(data: Bytes) -> Bytes;

    /// The encoded hash of the data.
    fn encoded_hash(data: &[u8]) -> (r: Vec<u8>)
        ensures
            r@ == Self::digest(data@),
            32 <= r@.len() <= 128,
    ;
}

/// BLAKE2b with hashes of 256 bits.
pub struct BlakeTwo256;

impl Hashing for BlakeTwo256 {
    open spec fn digest(data: Bytes) -> Bytes {
        blake2_256(data)
    }

    fn encoded_hash(data: &[u8]) -> (r: Vec<u8>) {
        outer_encode(&outer_blake_two_256(data))
    }
}

/// The character of a base-58 digit: the decimal digits and the letters, without `0`, `I`, `O`
/// and `l`.
pub open spec fn base58_char(digit: nat) -> u8 {
    if digit < 9 {
        (0x31 + digit) as u8
    } else if digit < 17 {
        (0x41 + (digit - 9)) as u8
    } else if digit < 22 {
        (0x4a + (digit - 17)) as u8
    } else if digit < 33 {
        (0x50 + (digit - 22)) as u8
    } else if digit < 44 {
        (0x61 + (digit - 33)) as u8
    } else {
        (0x6d + (digit - 44)) as u8
    }
}

/// The base-58 digits of a number, the highest first, without leading zeros.
pub open spec fn base58_digits(n: nat) -> Seq<u8>
    decreases n,
{
    if n == 0 {
        seq![]
    } else {
        base58_digits(n / 58).push(base58_char(n % 58))
    }
}

/// The number of which the bytes are the base-256 digits, the highest first.
pub open spec fn be_number(data: Seq<u8>) -> nat
    decreases data.len(),
{
    if data.len() == 0 {
        0
    } else {
        256 * be_number(data.drop_last()) + data.last() as nat
    }
}

/// The number of zero bytes before the first other byte.
pub open spec fn leading_zeros(data: Seq<u8>) -> nat
    decreases data.len(),
{
    if data.len() == 0 || data[0] != 0 {
        0
    } else {
        1 + leading_zeros(data.skip(1))
    }
}

/// The data in base 58: a `1` for each leading zero byte, then the digits of the number that the
/// data is.
pub open spec fn base58_text(data: Seq<u8>) -> Seq<u8> {
    Seq::new(leading_zeros(data), |i: int| base58_char(0)) + base58_digits(be_number(data))
}

/// Whether the byte is a character of base 58.
pub open spec fn is_base58_char(c: u8) -> bool {
    exists|digit: nat| digit < 58 && c == #[trigger] base58_char(digit)
}

/// The identifier that the encoded hash of a certificate gives: its first 32 bytes.
pub open spec fn cert_id_of(encoded: Seq<u8>) -> Seq<u8> {
    encoded.take(32)
}

/// The identifier that the encoded hash of an issued certificate gives: the first five and the
/// last five characters of the hash in base 58.
pub open spec fn issued_id_of(encoded: Seq<u8>) -> Seq<u8> {
    let text = base58_text(encoded);
    text.take(5) + text.skip(text.len() - 5)
}

/// A larger number has no fewer digits.
proof fn lemma_digits_monotone(m: nat, n: nat)
    requires
        m <= n,
    ensures
        base58_digits(m).len() <= base58_digits(n).len(),
    decreases n,
{
    if m > 0 {
        vstd::arithmetic::div_mod::lemma_div_is_ordered(m as int, n as int, 58);
        lemma_digits_monotone(m / 58, n / 58);
    }
}

/// The number of the empty data, and of zeros, is zero; all other data has a positive number and
/// the leading zeros that it has without its last byte.
proof fn lemma_leading_zeros(data: Seq<u8>)
    ensures
        leading_zeros(data) <= data.len(),
        leading_zeros(data) == data.len() <==> be_number(data) == 0,
        data.len() > 0 && be_number(data.drop_last()) > 0 ==> leading_zeros(data)
            == leading_zeros(data.drop_last()),
        data.len() > 0 && be_number(data.drop_last()) == 0 && data.last() != 0
            ==> leading_zeros(data) == data.len() - 1,
    decreases data.len(),
{
    if data.len() > 0 {
        let front = data.drop_last();
        lemma_leading_zeros(front);
        lemma_leading_zeros_split(data);
    }
}

/// The leading zeros reach the last byte only where all bytes before it are zero.
proof fn lemma_leading_zeros_split(data: Seq<u8>)
    requires
        data.len() > 0,
    ensures
        leading_zeros(data) == if leading_zeros(data.drop_last()) < data.len() - 1 {
            leading_zeros(data.drop_last())
        } else if data.last() == 0 {
            data.len()
        } else {
            (data.len() - 1) as nat
        },
        leading_zeros(data.drop_last()) <= data.len() - 1,
    decreases data.len(),
{
    let front = data.drop_last();
    if data.len() == 1 {
        assert(data.skip(1).len() == 0);
        assert(leading_zeros(data.skip(1)) == 0);
        assert(front.len() == 0);
    } else if data[0] == 0 {
        let rest = data.skip(1);
        assert(rest.drop_last() =~= front.skip(1));
        assert(front[0] == 0);
        assert(rest.last() == data.last());
        lemma_leading_zeros_split(rest);
    } else {
        assert(front[0] != 0);
    }
}

/// Data in base 58 is at least as long as the data.
pub proof fn lemma_base58_text_len(data: Seq<u8>)
    ensures
        base58_text(data).len() >= data.len(),
    decreases data.len(),
{
    lemma_leading_zeros(data);
    if data.len() > 0 {
        let front = data.drop_last();
        let n = be_number(front);
        lemma_base58_text_len(front);
        if n > 0 {
            lemma_digits_monotone(n, (256 * n + data.last() as nat) / 58);
        } else {
            assert(be_number(data) == data.last() as nat);
            if data.last() != 0 {
                assert(base58_digits(data.last() as nat).len() >= 1);
            }
        }
    }
}

/// The digits of a number are characters of base 58.
proof fn lemma_digits_are_base58(n: nat, i: int)
    requires
        0 <= i < base58_digits(n).len(),
    ensures
        is_base58_char(base58_digits(n)[i]),
    decreases n,
{
    if i < base58_digits(n / 58).len() {
        lemma_digits_are_base58(n / 58, i);
    } else {
        assert(n % 58 < 58);
    }
}

/// Data in base 58 is made of the characters of base 58.
proof fn lemma_text_is_base58(data: Seq<u8>, i: int)
    requires
        0 <= i < base58_text(data).len(),
    ensures
        is_base58_char(base58_text(data)[i]),
{
    let zeros = leading_zeros(data);
    if i < zeros {
        assert(base58_text(data)[i] == base58_char(0));
    } else {
        lemma_digits_are_base58(be_number(data), i - zeros);
    }
}

/// The identifier of an issued certificate is ten characters of base 58.
pub proof fn law_issued_id_is_ten_base58_characters(encoded: Seq<u8>)
    requires
        encoded.len() >= 5,
    ensures
        issued_id_of(encoded).len() == 10,
        forall|i: int|
            0 <= i < issued_id_of(encoded).len() ==> is_base58_char(
                #[trigger] issued_id_of(encoded)[i],
            ),
{
    lemma_base58_text_len(encoded);
    let text = base58_text(encoded);
    assert forall|i: int| 0 <= i < issued_id_of(encoded).len() implies is_base58_char(
        #[trigger] issued_id_of(encoded)[i],
    ) by {
        if i < 5 {
            lemma_text_is_base58(encoded, i);
        } else {
            lemma_text_is_base58(encoded, text.len() - 5 + (i - 5));
        }
    }
}

/// The identifier that the encoded hash of a certificate gives.
pub fn cert_id_from_hash(encoded: &[u8]) -> (r: CertId)
    requires
        encoded@.len() >= 32,
    ensures
        r@ == cert_id_of(encoded@),
{
    let mut r: [u8; 32] = [0u8; 32];
    let mut i: usize = 0;
    while i < 32
        invariant
            i <= 32,
            encoded@.len() >= 32,
            forall|j: int| 0 <= j < i ==> r@[j] == encoded@[j],
        decreases 32 - i,
    {
        r[i] = encoded[i];
        i = i + 1;
    }
    assert(r@ =~= cert_id_of(encoded@));
    r
}

/// The identifier that the encoded hash of an issued certificate gives.
pub fn issued_id_from_hash(encoded: &[u8]) -> (r: IssuedId)
    requires
        5 <= encoded@.len() <= 128,
    ensures
        r@ == issued_id_of(encoded@),
        r@.len() == 10,
{
    let text = outer_to_base58(encoded);
    proof {
        law_issued_id_is_ten_base58_characters(encoded@);
        lemma_base58_text_len(encoded@);
    }
    let len: usize = text.len();
    let mut r: Vec<u8> = Vec::new();
    let mut i: usize = 0;
    while i < 5
        invariant
            i <= 5,
            len == text@.len(),
            len >= 5,
            r@ =~= text@.take(i as int),
        decreases 5 - i,
    {
        r.push(text[i]);
        i = i + 1;
    }
    let mut j: usize = len - 5;
    while j < len
        invariant
            len - 5 <= j <= len,
            len == text@.len(),
            len >= 5,
            r@ =~= text@.take(5) + text@.subrange(len - 5, j as int),
        decreases len - j,
    {
        r.push(text[j]);
        j = j + 1;
    }
    assert(r@ =~= issued_id_of(encoded@));
    r
}

/// What a certificate's identifier is the hash of: its index, name and description.
pub open spec fn cert_preimage(index: u64, name: Seq<u8>, description: Seq<u8>) -> Seq<u8> {
    le_bytes(index as nat, 8) + name + description
}

/// What a certificate's identifier is the hash of.
pub fn cert_data(index: u64, name: &[u8], description: &[u8]) -> (r: Vec<u8>)
    ensures
        r@ == cert_preimage(index, name@, description@),
{
    let mut r = u64_le_bytes(index);
    append_bytes(&mut r, name);
    append_bytes(&mut r, description);
    r
}

/// What an issued certificate's identifier is made from: the organization, the certificate, the
/// recipient and the additional data.
pub open spec fn issue_preimage(
    org_id: Seq<u8>,
    cert_id: Seq<u8>,
    recipient: Seq<u8>,
    additional_data: Seq<u8>,
) -> Seq<u8> {
    org_id + cert_id + recipient + additional_data
}

/// What an issued certificate's identifier is made from.
pub fn issue_data(org_id: &[u8], cert_id: &CertId, recipient: &[u8], additional_data: &[u8]) -> (r:
    Vec<u8>)
    ensures
        r@ == issue_preimage(org_id@, cert_id@, recipient@, additional_data@),
{
    let mut r: Vec<u8> = Vec::new();
    append_bytes(&mut r, org_id);
    append_bytes(&mut r, outer_encode(cert_id).as_slice());
    append_bytes(&mut r, recipient);
    append_bytes(&mut r, additional_data);
    assert(r@ =~= issue_preimage(org_id@, cert_id@, recipient@, additional_data@));
    r
}

/// The identifier of a certificate is the first 32 bytes of the encoded hash.
pub proof fn law_cert_id_is_the_front_of_the_hash(encoded: Seq<u8>)
    requires
        encoded.len() >= 32,
    ensures
        cert_id_of(encoded).len() == 32,
        forall|i: int| 0 <= i < 32 ==> #[trigger] cert_id_of(encoded)[i] == encoded[i],
{
}

/// The identifier of an issued certificate is made of the first five characters of the hash in base
/// 58 and of the last five.
pub proof fn law_issued_id_is_both_ends_of_the_hash(encoded: Seq<u8>)
    requires
        encoded.len() >= 5,
    ensures
        base58_text(encoded).len() >= 5,
        issued_id_of(encoded).len() == 10,
        forall|i: int|
            0 <= i < 5 ==> #[trigger] issued_id_of(encoded)[i] == base58_text(encoded)[i],
        forall|i: int|
            5 <= i < 10 ==> #[trigger] issued_id_of(encoded)[i] == base58_text(
                encoded,
            )[base58_text(encoded).len() - 10 + i],
{
    lemma_base58_text_len(encoded);
}

/// What a certificate's identifier is the hash of is eight bytes that are read as the index, the
/// whole name, and the whole description, one after the other, and nothing else.
pub proof fn law_certificate_data_holds_all_parts(
    index: u64,
    name: Seq<u8>,
    description: Seq<u8>,
    data: Seq<u8>,
)
    ensures
        data == cert_preimage(index, name, description) <==> {
            &&& data.len() == 8 + name.len() + description.len()
            &&& le_value(data.take(8)) == index
            &&& data.subrange(8, 8 + name.len() as int) == name
            &&& data.skip(8 + name.len() as int) == description
        },
{
    let made = cert_preimage(index, name, description);
    assert(vstd::arithmetic::power::pow(256, 8) > u64::MAX) by {
        reveal(vstd::arithmetic::power::pow);
        reveal_with_fuel(vstd::arithmetic::power::pow, 9);
    }
    law_le_bytes_are_read_back(index as nat, 8);
    assert(made.take(8) =~= le_bytes(index as nat, 8));
    assert(made.subrange(8, 8 + name.len() as int) =~= name);
    assert(made.skip(8 + name.len() as int) =~= description);
    if data.len() == 8 + name.len() + description.len() && le_value(data.take(8)) == index
        && data.subrange(8, 8 + name.len() as int) == name && data.skip(8 + name.len() as int)
        == description {
        lemma_le_bytes_of_value(data.take(8));
        assert(data =~= data.take(8) + data.subrange(8, 8 + name.len() as int) + data.skip(
            8 + name.len() as int,
        ));
    }
}

/// What an issued certificate's identifier is made from is the whole organization, the whole
/// certificate, the whole recipient and the whole additional data, one after the other, and nothing
/// else.
pub proof fn law_issue_data_holds_all_parts(
    org_id: Seq<u8>,
    cert_id: Seq<u8>,
    recipient: Seq<u8>,
    additional_data: Seq<u8>,
    data: Seq<u8>,
)
    ensures
        data == issue_preimage(org_id, cert_id, recipient, additional_data) <==> {
            let a = org_id.len() as int;
            let b = a + cert_id.len();
            let c = b + recipient.len();
            &&& data.len() == c + additional_data.len()
            &&& data.subrange(0, a) == org_id
            &&& data.subrange(a, b) == cert_id
            &&& data.subrange(b, c) == recipient
            &&& data.skip(c) == additional_data
        },
{
    let a = org_id.len() as int;
    let b = a + cert_id.len();
    let c = b + recipient.len();
    let made = issue_preimage(org_id, cert_id, recipient, additional_data);
    assert(made.subrange(0, a) =~= org_id);
    assert(made.subrange(a, b) =~= cert_id);
    assert(made.subrange(b, c) =~= recipient);
    assert(made.skip(c) =~= additional_data);
    if data.len() == c + additional_data.len() {
        assert(data =~= data.subrange(0, a) + data.subrange(a, b) + data.subrange(b, c) + data.skip(
            c,
        ));
    }
}

/// Of issues that differ in one part alone, be it the organization, the certificate, the recipient
/// or the additional data, the data to hash differs.
pub proof fn law_issue_data_tells_issues_apart(
    org_id: Seq<u8>,
    cert_id: Seq<u8>,
    recipient: Seq<u8>,
    additional_data: Seq<u8>,
    other: Seq<u8>,
)
    ensures
        other != org_id ==> issue_preimage(other, cert_id, recipient, additional_data)
            != issue_preimage(org_id, cert_id, recipient, additional_data),
        other != cert_id ==> issue_preimage(org_id, other, recipient, additional_data)
            != issue_preimage(org_id, cert_id, recipient, additional_data),
        other != recipient ==> issue_preimage(org_id, cert_id, other, additional_data)
            != issue_preimage(org_id, cert_id, recipient, additional_data),
        other != additional_data ==> issue_preimage(org_id, cert_id, recipient, other)
            != issue_preimage(org_id, cert_id, recipient, additional_data),
{
    let data = issue_preimage(org_id, cert_id, recipient, additional_data);
    law_issue_data_holds_all_parts(org_id, cert_id, recipient, additional_data, data);
    law_issue_data_holds_all_parts(other, cert_id, recipient, additional_data, data);
    law_issue_data_holds_all_parts(org_id, other, recipient, additional_data, data);
    law_issue_data_holds_all_parts(org_id, cert_id, other, additional_data, data);
    law_issue_data_holds_all_parts(org_id, cert_id, recipient, other, data);
}

/// BLAKE2b hashes all of the data, and the hash is encoded as it is.
pub proof fn law_all_data_is_hashed(data: Seq<u8>)
    ensures
        BlakeTwo256::digest(data) == blake2_256(data),
{
}

} // verus!
