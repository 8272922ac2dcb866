use frostbyte::mnemonic::{encode_phrase, parse_phrase};
use frostbyte::sr25519::KeyPair;

#[test]
fn phrase_has_one_word_per_seed_byte() {
    let seed: Vec<u8> = (0u8..32).collect();
    let phrase = encode_phrase(&seed);
    assert_eq!(phrase.split(' ').count(), 32);
    for word in phrase.split(' ') {
        assert_eq!(word.len(), 4);
    }
}

#[test]
fn phrase_known_words() {
    assert_eq!(encode_phrase(&[0x00]), "baka");
    assert_eq!(encode_phrase(&[0xff]), "gono");
    assert_eq!(encode_phrase(&[0x00, 0xff]), "baka gono");
    assert_eq!(encode_phrase(&[]), "");
}

#[test]
fn phrase_round_trips() {
    let seed: Vec<u8> = (0u8..32).map(|i| i.wrapping_mul(37).wrapping_add(11)).collect();
    let phrase = encode_phrase(&seed);
    let back = parse_phrase(&phrase).expect("own phrase parses");
    assert_eq!(back, seed);
}

#[test]
fn phrase_rejects_unknown_letters() {
    assert!(parse_phrase("xaka").is_none());
    assert!(parse_phrase("bxka").is_none());
    assert!(parse_phrase("baxa").is_none());
    assert!(parse_phrase("bakx").is_none());
}

#[test]
fn phrase_rejects_malformed_shape() {
    assert!(parse_phrase("bak").is_none());
    assert!(parse_phrase("baka ").is_none());
    assert!(parse_phrase("bakaxgono").is_none());
    assert!(parse_phrase("baka  gono").is_none());
    assert_eq!(parse_phrase(""), Some(Vec::new()));
}

#[test]
fn phrase_regenerates_identical_keypair() {
    let seed: Vec<u8> = (0u8..32).map(|i| i.wrapping_mul(101).wrapping_add(3)).collect();
    let direct = KeyPair::from_seed(seed.clone());
    let phrase = encode_phrase(&seed);
    let recovered_seed = parse_phrase(&phrase).expect("phrase parses");
    let recovered = KeyPair::from_seed(recovered_seed);
    assert_eq!(direct.public(), recovered.public());
    assert_ne!(direct.public(), &seed);
}
