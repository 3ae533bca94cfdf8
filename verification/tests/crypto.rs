use infrarust::crypto::{DecryptCipher, EncryptCipher};

#[test]
fn test_encrypt_decrypt_round_trip() {
    let key = [0x42u8; 16];
    let original = b"Hello, Minecraft!";
    let mut data = original.to_vec();

    let mut enc = EncryptCipher::new(&key);
    enc.encrypt(&mut data);

    let mut dec = DecryptCipher::new(&key);
    dec.decrypt(&mut data);

    assert_eq!(&data, original);
}

#[test]
fn test_encrypt_changes_data() {
    let key = [0x01u8; 16];
    let original = b"plaintext data here";
    let mut data = original.to_vec();

    let mut enc = EncryptCipher::new(&key);
    enc.encrypt(&mut data);

    assert_ne!(&data[..], &original[..]);
}

#[test]
fn test_stateful_encryption() {
    let key = [0xABu8; 16];
    let data_a = b"first chunk";
    let data_b = b"second chunk";

    // Encrypt in two separate calls
    let mut enc1 = EncryptCipher::new(&key);
    let mut a = data_a.to_vec();
    let mut b = data_b.to_vec();
    enc1.encrypt(&mut a);
    enc1.encrypt(&mut b);

    // Encrypt as one concatenated call
    let mut enc2 = EncryptCipher::new(&key);
    let mut combined = [data_a.as_slice(), data_b.as_slice()].concat();
    enc2.encrypt(&mut combined);

    assert_eq!(&a[..], &combined[..data_a.len()]);
    assert_eq!(&b[..], &combined[data_a.len()..]);
}

#[test]
fn test_different_keys_different_output() {
    let data = b"same input";

    let mut out1 = data.to_vec();
    EncryptCipher::new(&[0x01; 16]).encrypt(&mut out1);

    let mut out2 = data.to_vec();
    EncryptCipher::new(&[0x02; 16]).encrypt(&mut out2);

    assert_ne!(out1, out2);
}

#[test]
fn test_encrypt_empty_data() {
    let mut enc = EncryptCipher::new(&[0x00; 16]);
    let mut data = vec![];
    enc.encrypt(&mut data);
    assert!(data.is_empty());
}

#[test]
fn test_encrypt_single_byte() {
    let key = [0xFFu8; 16];
    let mut data = vec![0x42];

    let mut enc = EncryptCipher::new(&key);
    enc.encrypt(&mut data);

    let mut dec = DecryptCipher::new(&key);
    dec.decrypt(&mut data);

    assert_eq!(data, vec![0x42]);
}

#[test]
fn test_encrypt_large_data() {
    let key = [0x77u8; 16];
    let original: Vec<u8> = (0..1_000_000).map(|i: u32| (i % 256) as u8).collect();
    let mut data = original.clone();

    let mut enc = EncryptCipher::new(&key);
    enc.encrypt(&mut data);

    let mut dec = DecryptCipher::new(&key);
    dec.decrypt(&mut data);

    assert_eq!(data, original);
}

#[test]
fn test_wrong_key_cannot_decrypt() {
    let key1 = [0x11u8; 16];
    let key2 = [0x22u8; 16];
    let original = b"secret message here";
    let mut data = original.to_vec();

    let mut enc = EncryptCipher::new(&key1);
    enc.encrypt(&mut data);

    let mut dec = DecryptCipher::new(&key2);
    dec.decrypt(&mut data);

    assert_ne!(&data[..], &original[..]);
}

#[test]
fn test_two_independent_ciphers() {
    let key = [0x33u8; 16];
    let original = b"independent test";

    let mut data1 = original.to_vec();
    let mut data2 = original.to_vec();

    EncryptCipher::new(&key).encrypt(&mut data1);
    EncryptCipher::new(&key).encrypt(&mut data2);

    assert_eq!(data1, data2);
}

#[test]
fn encryptor_and_decryptor_stay_in_step() {
    let key = [0x5Au8; 16];
    let mut enc = EncryptCipher::new(&key);
    let mut dec = DecryptCipher::new(&key);
    for chunk in [&b"a"[..], &b"bcdefghijklmnopqrstuvwxyz0123456789"[..], &b""[..], &b"tail"[..]] {
        let mut data = chunk.to_vec();
        enc.encrypt(&mut data);
        dec.decrypt(&mut data);
        assert_eq!(&data[..], chunk);
    }
}

#[test]
fn decrypting_in_pieces_matches_one_call() {
    let key = [0x19u8; 16];
    let mut cipher = (0..40u8).collect::<Vec<u8>>();
    EncryptCipher::new(&key).encrypt(&mut cipher);
    let mut whole = cipher.clone();
    DecryptCipher::new(&key).decrypt(&mut whole);
    let mut dec = DecryptCipher::new(&key);
    let (mut a, mut b) = (cipher[..3].to_vec(), cipher[3..].to_vec());
    dec.decrypt(&mut a);
    dec.decrypt(&mut b);
    assert_eq!([a, b].concat(), whole);
    assert_eq!(whole, (0..40u8).collect::<Vec<u8>>());
}
