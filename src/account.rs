//! Account bytes derived from principals: the per-user sub-account, the
//! ledger account identifier, and their hex text.
use sha2::{Digest, Sha224, Sha256};
use vstd::prelude::*;

verus! {

/// SHA-256 of a byte string.
pub uninterp spec fn sha256_of(data: Seq<u8>) -> Seq<u8>;

/// SHA-224 of a byte string.
pub uninterp spec fn sha224_of(data: Seq<u8>) -> Seq<u8>;

/// CRC-32 (IEEE) of a byte string.
pub uninterp spec fn crc32_of(data: Seq<u8>) -> u32;

/// Relies on `sha2::Sha256::digest`: the 32-byte SHA-256 digest of `data`.
#[verifier::external_body]
fn sha256(data: &Vec<u8>) -> (r: Vec<u8>)
    ensures
        r@ == sha256_of(data@),
        r@.len() == 32,
{
    Sha256::digest(data).to_vec()
}

/// Relies on `sha2::Sha224::digest`: the 28-byte SHA-224 digest of `data`.
#[verifier::external_body]
fn sha224(data: &Vec<u8>) -> (r: Vec<u8>)
    ensures
        r@ == sha224_of(data@),
        r@.len() == 28,
{
    Sha224::digest(data).to_vec()
}

/// Relies on `crc32fast::hash`: the CRC-32 checksum of `data`.
#[verifier::external_body]
fn crc32(data: &Vec<u8>) -> (r: u32)
    ensures
        r == crc32_of(data@),
{
    crc32fast::hash(data)
}

/// Relies on `String::push`: appends `c`.
#[verifier::external_body]
fn push_char(s: &mut String, c: char)
    ensures
        final(s)@ == old(s)@.push(c),
{
    s.push(c)
}

/// The version tag that starts every derived sub-account.
pub open spec fn version_tag() -> Seq<u8> {
    seq![0x53u8, 0x53u8, 0x53u8, 0x31u8]
}

/// The salt hashed before the principals when deriving a sub-account.
pub open spec fn subaccount_salt() -> Seq<u8> {
    seq![0x73u8, 0x73u8, 0x73u8, 0x23u8, 0x73u8, 0x75u8, 0x62u8, 0x3au8, 0x76u8, 0x31u8, 0x7cu8]
}

/// The domain separator of account identifiers: `0x0A` then `account-id`.
pub open spec fn account_id_domain() -> Seq<u8> {
    seq![0x0au8, 0x61u8, 0x63u8, 0x63u8, 0x6fu8, 0x75u8, 0x6eu8, 0x74u8, 0x2du8, 0x69u8, 0x64u8]
}

/// The big-endian bytes of `c`.
pub open spec fn be_bytes(c: u32) -> Seq<u8> {
    seq![(c / 0x1000000) as u8, (c / 0x10000 % 0x100) as u8, (c / 0x100 % 0x100) as u8, (c % 0x100) as u8]
}

/// The lower-case hex digit of `n < 16`.
pub open spec fn hex_digit(n: int) -> char {
    if n < 10 { (48 + n) as char } else { (87 + n) as char }
}

/// Two lower-case hex digits per byte.
pub open spec fn hex_of(b: Seq<u8>) -> Seq<char>
    decreases b.len(),
{
    if b.len() == 0 {
        Seq::empty()
    } else {
        hex_of(b.drop_last()).push(hex_digit(b.last() as int / 16)).push(hex_digit(b.last() as int % 16))
    }
}

fn append(out: &mut Vec<u8>, bytes: &Vec<u8>, n: usize)
    requires
        n <= bytes@.len(),
    ensures
        final(out)@ == old(out)@ + bytes@.subrange(0, n as int),
{
    let mut i: usize = 0;
    while i < n
        invariant
            i <= n,
            n <= bytes@.len(),
            out@ == old(out)@ + bytes@.subrange(0, i as int),
        decreases n - i,
    {
        out.push(bytes[i]);
        proof {
            assert(out@ =~= old(out)@ + bytes@.subrange(0, i + 1));
        }
        i = i + 1;
    }
}

/// The sub-account of `user` under canister `canister`: the version tag,
/// then the first 28 bytes of SHA-256 over the salt and both principals.
pub fn derive_subaccount(canister: &Vec<u8>, user: &Vec<u8>) -> (r: Vec<u8>)
    ensures
        r@ == version_tag() + sha256_of(subaccount_salt() + canister@ + user@).subrange(0, 28),
        r@.len() == 32,
{
    let salt: Vec<u8> = vec![0x73u8, 0x73, 0x73, 0x23, 0x73, 0x75, 0x62, 0x3a, 0x76, 0x31, 0x7c];
    let mut pre: Vec<u8> = Vec::new();
    append(&mut pre, &salt, salt.len());
    append(&mut pre, canister, canister.len());
    append(&mut pre, user, user.len());
    proof {
        assert(salt@ =~= subaccount_salt());
        assert(pre@ =~= subaccount_salt() + canister@ + user@);
    }
    let digest = sha256(&pre);
    let mut sub: Vec<u8> = vec![0x53u8, 0x53, 0x53, 0x31];
    append(&mut sub, &digest, 28);
    proof {
        assert(sub@ =~= version_tag() + sha256_of(subaccount_salt() + canister@ + user@).subrange(0, 28));
    }
    sub
}

/// The ledger account identifier of `owner` and sub-account `sub`: the
/// big-endian CRC-32 of `h`, then `h`, where `h` is SHA-224 over the domain
/// separator, the owner and the sub-account.
pub fn icp_account_identifier(owner: &Vec<u8>, sub: &Vec<u8>) -> (r: Vec<u8>)
    ensures
        ({
            let h = sha224_of(account_id_domain() + owner@ + sub@);
            r@ == be_bytes(crc32_of(h)) + h
        }),
        r@.len() == 32,
{
    let domain: Vec<u8> = vec![0x0au8, 0x61, 0x63, 0x63, 0x6f, 0x75, 0x6e, 0x74, 0x2d, 0x69, 0x64];
    let mut pre: Vec<u8> = Vec::new();
    append(&mut pre, &domain, domain.len());
    append(&mut pre, owner, owner.len());
    append(&mut pre, sub, sub.len());
    proof {
        assert(domain@ =~= account_id_domain());
        assert(pre@ =~= account_id_domain() + owner@ + sub@);
    }
    let hash = sha224(&pre);
    let c = crc32(&hash);
    let mut out: Vec<u8> = vec![(c / 0x1000000) as u8, (c / 0x10000 % 0x100) as u8, (c / 0x100 % 0x100) as u8, (c % 0x100) as u8];
    proof {
        assert(out@ =~= be_bytes(c));
    }
    append(&mut out, &hash, 28);
    proof {
        assert(hash@.subrange(0, 28) =~= hash@);
    }
    out
}

fn hex_char(n: u8) -> (r: char)
    requires
        n < 16,
    ensures
        r == hex_digit(n as int),
{
    if n < 10 { (48 + n) as char } else { (87 + n) as char }
}

/// Lower-case hex text of 32 bytes, two digits per byte.
pub fn to_hex32(bytes: &[u8; 32]) -> (r: String)
    ensures
        r@ == hex_of(bytes@),
{
    let mut s = String::new();
    let mut i: usize = 0;
    while i < 32
        invariant
            i <= 32,
            bytes@.len() == 32,
            s@ == hex_of(bytes@.subrange(0, i as int)),
        decreases 32 - i,
    {
        let b = bytes[i];
        push_char(&mut s, hex_char(b / 16));
        push_char(&mut s, hex_char(b % 16));
        proof {
            assert(bytes@.subrange(0, i + 1).drop_last() =~= bytes@.subrange(0, i as int));
        }
        i = i + 1;
    }
    proof {
        assert(bytes@.subrange(0, 32) =~= bytes@);
    }
    s
}

} // verus!
