use marketplace_indexer::pubkey::Pubkey;

#[test]
fn zero_key_is_thirty_two_ones() {
    let key = Pubkey::new([0u8; 32]);
    assert_eq!(key.to_base58(), "11111111111111111111111111111111");
}

#[test]
fn key_text_is_base58() {
    let mut bytes = [0u8; 32];
    bytes[31] = 58;
    let key = Pubkey::new(bytes);
    assert_eq!(key.to_base58(), "1111111111111111111111111111111".to_string() + "21");
    assert_eq!(key.to_base58(), bs58::encode(bytes).into_string());
}

#[test]
fn base58_round_trips_on_keys() {
    for seed in [0u8, 1, 7, 42, 128, 200, 255] {
        let mut bytes = [0u8; 32];
        for (i, b) in bytes.iter_mut().enumerate() {
            *b = seed.wrapping_mul(31).wrapping_add((i as u8).wrapping_mul(seed | 1));
        }
        let key = Pubkey::new(bytes);
        let text = key.to_base58();
        let back = Pubkey::from_base58(&text).expect("a key's text names the key");
        assert_eq!(back.bytes, bytes);
        assert!(back.same_as(&key));
    }
}

#[test]
fn text_for_fewer_bytes_is_no_key() {
    assert!(Pubkey::from_base58("he11owor1d").is_none());
    assert!(Pubkey::from_base58("").is_none());
}

#[test]
fn text_outside_the_alphabet_is_no_key() {
    assert!(Pubkey::from_base58("0OIl").is_none());
    assert!(Pubkey::from_base58(&"l".repeat(44)).is_none());
}

#[test]
fn keys_compare_by_bytes() {
    let a = Pubkey::new([1u8; 32]);
    let mut other = [1u8; 32];
    other[31] = 2;
    assert!(a.same_as(&Pubkey::new([1u8; 32])));
    assert!(!a.same_as(&Pubkey::new(other)));
}
