use skyless_core::xtea::Xtea;

fn key() -> [u32; 4] {
    [0x0001_0203, 0x0405_0607, 0x0809_0a0b, 0x0c0d_0e0f]
}

#[test]
fn known_block() {
    let x = Xtea::new(key());
    let plain = vec![0x44, 0x43, 0x42, 0x41, 0x48, 0x47, 0x46, 0x45];
    let cipher = x.encrypt(plain.clone());
    assert_eq!(cipher, vec![0xd0, 0xf3, 0x7d, 0x49, 0xb5, 0x2c, 0x61, 0x72]);
    assert_eq!(x.decrypt(cipher), plain);
}

#[test]
fn pads_to_whole_blocks() {
    let x = Xtea::new(key());
    assert_eq!(x.encrypt(vec![1, 2, 3]).len(), 8);
    assert_eq!(x.encrypt(vec![0; 9]).len(), 16);
    assert_eq!(x.encrypt(Vec::new()).len(), 0);
}

#[test]
fn decrypt_undoes_encrypt_with_padding() {
    let x = Xtea::new([7, 11, 13, 17]);
    let data: Vec<u8> = (0u8..21).collect();
    let back = x.decrypt(x.encrypt(data.clone()));
    let mut expected = data.clone();
    expected.extend_from_slice(&[0x33, 0x33, 0x33]);
    assert_eq!(back, expected);
    assert_ne!(x.encrypt(data.clone())[..8], data[..8]);
}

#[test]
fn key_is_kept() {
    assert_eq!(Xtea::new(key()).key(), key());
}
