use nostr::nips::nip19::ToBech32;
use rust_nostr_wasm::key::{generate, keys_to_hex};
use rust_nostr_wasm::{
    generate_keys, npub_to_public_key, parse_public_key, public_key_to_npub, NostrError, PublicKey,
};

const HEX: &str = "aa4fc8665f5696e33db7e1a572e3b0f5b3d615837b0f362dcb1c8068b098c7b4";
const NPUB: &str = "npub14f8usejl26twx0dhuxjh9cas7keav9vr0v8nvtwtrjqx3vycc76qqh9nsy";
const HEX_2: &str = "3bf0c63fcb93463407af97a5e5ee64fa883d107ef9e558472c4eb9aaaefa459d";
const NPUB_2: &str = "npub180cvv07tjdrrgpa0j7j7tmnyl2yr6yr7l8j4s3evf6u64th6gkwsyjh6w6";
const HEX_3: &str = "7e7e9c42a91bfef19fa929e5fda1b72e0ebc1a4c1141673e2794234d86addf4e";
const NPUB_3: &str = "npub10elfcs4fr0l0r8af98jlmgdh9c8tcxjvz9qkw038js35mp4dma8qzvjptg";
const NSEC: &str = "nsec1vl029mgpspedva04g90vltkh6fvh240zqtv9k0t9af8935ke9laqsnlfe5";

fn key_bytes() -> [u8; 32] {
    [
        0xaa, 0x4f, 0xc8, 0x66, 0x5f, 0x56, 0x96, 0xe3, 0x3d, 0xb7, 0xe1, 0xa5, 0x72, 0xe3, 0xb0,
        0xf5, 0xb3, 0xd6, 0x15, 0x83, 0x7b, 0x0f, 0x36, 0x2d, 0xcb, 0x1c, 0x80, 0x68, 0xb0, 0x98,
        0xc7, 0xb4,
    ]
}

#[test]
fn parses_hex() {
    let key = parse_public_key(HEX).unwrap();
    assert_eq!(key.to_bytes(), key_bytes());
    assert_eq!(key, PublicKey::from_byte_array(key_bytes()));
    assert_eq!(PublicKey::from_hex(HEX), Ok(key));
}

#[test]
fn parses_bech32() {
    let key = parse_public_key(NPUB).unwrap();
    assert_eq!(key.to_bytes(), key_bytes());
    assert_eq!(PublicKey::from_bech32(NPUB), Ok(key));
    assert_eq!(parse_public_key(NPUB_2).unwrap().to_hex(), HEX_2);
    assert_eq!(parse_public_key(NPUB_3).unwrap().to_hex(), HEX_3);
}

#[test]
fn encodes_hex() {
    assert_eq!(PublicKey::from_byte_array(key_bytes()).to_hex(), HEX);
    assert_eq!(PublicKey::from_byte_array([0u8; 32]).to_hex(), "0".repeat(64));
    assert_eq!(PublicKey::from_byte_array([0xff; 32]).to_hex(), "f".repeat(64));
}

#[test]
fn encodes_bech32() {
    assert_eq!(PublicKey::from_byte_array(key_bytes()).to_bech32(), Ok(NPUB.to_string()));
    assert_eq!(PublicKey::from_hex(HEX_2).unwrap().to_bech32(), Ok(NPUB_2.to_string()));
    assert_eq!(PublicKey::from_hex(HEX_3).unwrap().to_bech32(), Ok(NPUB_3.to_string()));
}

#[test]
fn hex_round_trip() {
    for seed in 0..=255u8 {
        let mut bytes = [0u8; 32];
        for (i, b) in bytes.iter_mut().enumerate() {
            *b = seed.wrapping_mul(31).wrapping_add((i as u8).wrapping_mul(7));
        }
        let key = PublicKey::from_byte_array(bytes);
        assert_eq!(parse_public_key(&key.to_hex()), Ok(key));
        assert_eq!(PublicKey::from_hex(&key.to_hex()), Ok(key));
    }
}

#[test]
fn bech32_round_trip() {
    for seed in 0..=255u8 {
        let mut bytes = [0u8; 32];
        for (i, b) in bytes.iter_mut().enumerate() {
            *b = seed.wrapping_mul(13).wrapping_add((i as u8).wrapping_mul(29));
        }
        let key = PublicKey::from_byte_array(bytes);
        let npub = key.to_bech32().unwrap();
        assert!(npub.starts_with("npub1"));
        assert_eq!(npub.len(), 63);
        assert_eq!(PublicKey::from_bech32(&npub), Ok(key));
        assert_eq!(parse_public_key(&npub), Ok(key));
    }
}

#[test]
fn bech32_agrees_with_nostr() {
    let key = PublicKey::from_byte_array(key_bytes());
    let theirs = nostr::PublicKey::from_byte_array(key_bytes());
    assert_eq!(key.to_bech32().unwrap(), theirs.to_bech32().unwrap());
    assert_eq!(key.to_hex(), theirs.to_hex());
}

#[test]
fn refuses_malformed_hex() {
    let upper = HEX.to_uppercase();
    let short = &HEX[..62];
    let long = format!("{}00", HEX);
    let odd = &HEX[..63];
    let bad = format!("{}zz", &HEX[..62]);
    for input in ["", upper.as_str(), short, long.as_str(), odd, bad.as_str(), " ", "hello"] {
        assert_eq!(parse_public_key(input), Err(NostrError::InvalidKeyEncoding), "{}", input);
        assert_eq!(PublicKey::from_hex(input), Err(NostrError::InvalidKeyEncoding), "{}", input);
    }
}

#[test]
fn refuses_wrong_checksum() {
    let broken = format!("{}z", &NPUB[..NPUB.len() - 1]);
    assert_ne!(broken, NPUB);
    assert_eq!(PublicKey::from_bech32(&broken), Err(NostrError::InvalidKeyEncoding));
    assert_eq!(parse_public_key(&broken), Err(NostrError::InvalidKeyEncoding));
}

#[test]
fn refuses_wrong_prefix() {
    assert_eq!(PublicKey::from_bech32(NSEC), Err(NostrError::InvalidKeyEncoding));
    assert_eq!(parse_public_key(NSEC), Err(NostrError::InvalidKeyEncoding));
}

#[test]
fn refuses_wrong_decoded_length() {
    let note = nostr::EventId::from_byte_array(key_bytes()).to_bech32().unwrap();
    assert!(note.starts_with("note1"));
    assert_eq!(PublicKey::from_bech32(&note), Err(NostrError::InvalidKeyEncoding));
    assert_eq!(PublicKey::from_bech32("npub1"), Err(NostrError::InvalidKeyEncoding));
    assert_eq!(PublicKey::from_bech32(HEX), Err(NostrError::InvalidKeyEncoding));
}

#[test]
fn refuses_uri_form() {
    let uri = format!("nostr:{}", NPUB);
    assert_eq!(parse_public_key(&uri), Err(NostrError::InvalidKeyEncoding));
}

#[test]
fn converts_to_npub() {
    assert_eq!(public_key_to_npub(HEX.to_string()), Ok(NPUB.to_string()));
    assert_eq!(public_key_to_npub(NPUB.to_string()), Ok(NPUB.to_string()));
    assert_eq!(public_key_to_npub("nonsense".to_string()), Err(NostrError::InvalidKeyEncoding));
    assert_eq!(public_key_to_npub(String::new()), Err(NostrError::InvalidKeyEncoding));
}

#[test]
fn converts_to_hex() {
    assert_eq!(npub_to_public_key(NPUB.to_string()), Ok(HEX.to_string()));
    assert_eq!(npub_to_public_key(NPUB_2.to_string()), Ok(HEX_2.to_string()));
    assert_eq!(npub_to_public_key(NPUB_3.to_string()), Ok(HEX_3.to_string()));
    assert_eq!(npub_to_public_key(NSEC.to_string()), Err(NostrError::InvalidKeyEncoding));
    assert_eq!(npub_to_public_key("npub1xyz".to_string()), Err(NostrError::InvalidKeyEncoding));
    assert_eq!(npub_to_public_key(String::new()), Err(NostrError::InvalidKeyEncoding));
}

#[test]
fn npub_conversion_refuses_a_key_in_hex() {
    assert_eq!(npub_to_public_key(HEX.to_string()), Err(NostrError::InvalidKeyEncoding));
    assert_eq!(npub_to_public_key(HEX_2.to_string()), Err(NostrError::InvalidKeyEncoding));
    assert_eq!(npub_to_public_key(format!("nostr:{}", NPUB)), Err(NostrError::InvalidKeyEncoding));
}

#[test]
fn text_conversions_undo_each_other() {
    for hex in [HEX, HEX_2, HEX_3] {
        let npub = public_key_to_npub(hex.to_string()).unwrap();
        assert_eq!(npub_to_public_key(npub.clone()), Ok(hex.to_string()));
        assert_eq!(public_key_to_npub(npub.clone()), Ok(npub));
    }
    for npub in [NPUB, NPUB_2, NPUB_3] {
        let hex = npub_to_public_key(npub.to_string()).unwrap();
        assert_eq!(hex.len(), 64);
        assert_eq!(public_key_to_npub(hex), Ok(npub.to_string()));
    }
}

#[test]
fn encoded_keys_have_one_shape() {
    for seed in 0..=255u8 {
        let npub = PublicKey::from_byte_array([seed; 32]).to_bech32().unwrap();
        assert_eq!(npub.chars().count(), 63);
        assert!(npub.starts_with("npub1"));
        assert!(PublicKey::from_hex(&npub).is_err());
    }
}

#[test]
fn generated_keys_are_hex_and_belong_together() {
    let pair = generate_keys();
    assert_eq!(pair.public_key.len(), 64);
    assert_eq!(pair.secret_key.len(), 64);
    assert!(parse_public_key(&pair.public_key).is_ok());
    let theirs = nostr::Keys::parse(&pair.secret_key).unwrap();
    assert_eq!(theirs.public_key().to_hex(), pair.public_key);
}

#[test]
fn generated_keys_differ() {
    let a = generate();
    let b = generate();
    assert_ne!(a.secret_key.bytes, b.secret_key.bytes);
    assert_ne!(a.public_key, b.public_key);
    let text = keys_to_hex(&a);
    assert_eq!(text.public_key, a.public_key.to_hex());
    assert_eq!(parse_public_key(&text.public_key), Ok(a.public_key));
}

#[test]
fn uppercase_bech32_is_read_and_mixed_case_is_not() {
    let key = PublicKey::from_byte_array(key_bytes());
    let upper = NPUB.to_uppercase();
    assert!(upper.starts_with("NPUB1"));
    assert_eq!(PublicKey::from_bech32(&upper), Ok(key));
    assert_eq!(npub_to_public_key(upper), Ok(HEX.to_string()));
    let mixed = format!("NPUB{}", &NPUB[4..]);
    assert_eq!(PublicKey::from_bech32(&mixed), Err(NostrError::InvalidKeyEncoding));
    let mixed = format!("Npub{}", &NPUB[4..]);
    assert_eq!(PublicKey::from_bech32(&mixed), Err(NostrError::InvalidKeyEncoding));
}

#[test]
fn texts_without_the_prefix_are_refused() {
    let data = &NPUB[4..];
    for prefix in ["", "n", "npu", "npubb", "xpub", "nsec", "note", " npub", "nostr:npub"] {
        let text = format!("{}{}", prefix, data);
        assert_eq!(PublicKey::from_bech32(&text), Err(NostrError::InvalidKeyEncoding), "{}", text);
    }
    assert_eq!(PublicKey::from_bech32("npub"), Err(NostrError::InvalidKeyEncoding));
    assert_eq!(PublicKey::from_bech32("1"), Err(NostrError::InvalidKeyEncoding));
}
