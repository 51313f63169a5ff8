use runtime::types::const_eq::ConstEq;
use runtime::types::rand::Randomized;
use runtime::utils::{fname_from_bytes, random_fname, random_vec, xor, xor_mut};

#[test]
fn xor_writes_masked_prefix() {
    let mut data = [0u8, 0, 0, 9];
    xor(&mut data, &[0b1100, 0xff, 1, 1], &[0b1010, 0x0f, 1, 1], 3);
    assert_eq!(data, [0b0110, 0xf0, 0, 9]);
}

#[test]
fn xor_mut_twice_restores() {
    let mut payload = [1u8, 2, 3, 4];
    let noise = [0xaa, 0x55, 0xff, 0x00];
    xor_mut(&mut payload, &noise, 4);
    assert_eq!(payload, [0xab, 0x57, 0xfc, 0x04]);
    xor_mut(&mut payload, &noise, 4);
    assert_eq!(payload, [1, 2, 3, 4]);
}

#[test]
fn xor_then_unmask() {
    let payload = [10u8, 20, 30];
    let noise = [7u8, 7, 7];
    let mut data = [0u8; 4];
    xor(&mut data, &payload, &noise, 3);
    xor_mut(&mut data, &noise, 3);
    assert_eq!(data, [10, 20, 30, 0]);
}

#[test]
fn random_vec_has_size() {
    let v = random_vec(32);
    assert_eq!(v.as_slice().len(), 32);
    assert_eq!(random_vec(0).as_slice().len(), 0);
}

#[test]
fn fname_maps_bytes() {
    assert_eq!(fname_from_bytes(&[0, 25, 26, 51, 52, 61, 62, 255]), "azAZ09ah");
    assert_eq!(fname_from_bytes(&[]), "");
}

#[test]
fn random_fname_is_alphanumeric() {
    let name = random_fname(40);
    assert_eq!(name.chars().count(), 40);
    assert!(name.chars().all(|c| c.is_ascii_alphanumeric()));
}

#[test]
fn const_eq_on_bytes_and_integers() {
    assert!([1u8, 2, 3][..].const_eq(&[1u8, 2, 3][..]));
    assert!(![1u8, 2, 3][..].const_eq(&[1u8, 2][..]));
    assert!(![1u8, 2, 3][..].const_eq(&[1u8, 2, 4][..]));
    assert!(5u64.const_eq(&5u64));
    assert!(!5u32.const_eq(&6u32));
    assert!(7u16.const_eq(&7u16));
    assert!(!7u8.const_eq(&8u8));
    assert!([1u16, 2][..].const_eq(&[1u16, 2][..]));
    assert!(![1u16, 2][..].const_eq(&[1u16, 3][..]));
    assert!([9u32][..].const_eq(&[9u32][..]));
    assert!(![9u32][..].const_eq(&[9u32, 9][..]));
    assert!([5u64, 6, 7][..].const_eq(&[5u64, 6, 7][..]));
    assert!(![5u64, 6, 7][..].const_eq(&[5u64, 6, 8][..]));
}

#[test]
fn randomize_keeps_length() {
    let mut buf = [0u8; 64];
    buf[..].randomize();
    assert_ne!(buf, [0u8; 64]);
    let mut x = 0u64;
    x.randomize();
    let _ = x;
    let mut wide = [0u64; 8];
    wide[..].randomize();
    assert_eq!(wide.len(), 8);
    assert_ne!(wide, [0u64; 8]);
    let mut mid = [0u32; 8];
    mid[..].randomize();
    assert_ne!(mid, [0u32; 8]);
    let mut narrow = [0u16; 16];
    narrow[..].randomize();
    assert_ne!(narrow, [0u16; 16]);
}
