use vaultpair::account::{derive_subaccount, icp_account_identifier, to_hex32};

fn hex(b: &[u8]) -> String {
    let arr: [u8; 32] = b.try_into().unwrap();
    to_hex32(&arr)
}

#[test]
fn derived_subaccount_is_tag_and_digest_prefix() {
    let can = vec![0u8, 0, 0, 0, 0, 0, 0, 1, 1, 1];
    let user = vec![0x11u8, 0x22, 0x33, 0x44, 5];
    let sub = derive_subaccount(&can, &user);
    assert_eq!(sub.len(), 32);
    assert_eq!(&sub[0..4], b"SSS1");
    assert_eq!(hex(&sub), "53535331f051168d39d3001aad198b6cc3f8b3c16ca8c8bf84282a22227affb8");
}

#[test]
fn account_identifier_of_anonymous_principal() {
    let aid = icp_account_identifier(&vec![4u8], &vec![0u8; 32]);
    assert_eq!(hex(&aid), "1c7a48ba6a562aa9eaa2481a9049cdf0433b9738c992d698c31d8abf89cadc79");
}

#[test]
fn account_identifier_of_derived_subaccount() {
    let can = vec![0u8, 0, 0, 0, 0, 0, 0, 1, 1, 1];
    let user = vec![0x11u8, 0x22, 0x33, 0x44, 5];
    let sub = derive_subaccount(&can, &user);
    let aid = icp_account_identifier(&user, &sub);
    assert_eq!(hex(&aid), "0c4fda8d427e119548533488f74b1bab749d446435cedbc51114ccfcecb2a86d");
}

#[test]
fn hex_is_lower_case_two_digits_per_byte() {
    let mut b = [0u8; 32];
    b[0] = 0xab;
    b[1] = 0x05;
    b[31] = 0xf0;
    let s = to_hex32(&b);
    assert_eq!(s.len(), 64);
    assert!(s.starts_with("ab05"));
    assert!(s.ends_with("f0"));
}
