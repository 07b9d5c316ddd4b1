use gh_auth::config::Config;
use gh_auth::cookie::{create, create_with_iv, decode, decode_checked, hash_secret};

fn config_with_secret(secret: &str) -> Config {
    Config {
        allowed_users: vec![],
        github_secret: "".to_string(),
        github_key: "".to_string(),
        secret: secret.to_string(),
    }
}

#[test]
fn test_roundtrip() {
    let config = Config {
        allowed_users: vec![],
        github_secret: "".to_string(),
        github_key: "".to_string(),
        secret: "Test".to_string(),
    };

    let result = create(&config, "Hello World".to_string());
    assert_ne!(result, None);

    let decoded = decode(&config, result.unwrap());
    assert_ne!(decoded, None);
    assert_eq!(decoded.unwrap(), "Hello World");
}

#[test]
fn hash_secret_folds_the_sha256_digest() {
    let config = config_with_secret("Test");
    let digest = openssl::sha::sha256(b"Test");
    let expected: Vec<u8> = (0..16).map(|i| digest[i] ^ digest[i + 16]).collect();
    let key = hash_secret(&config);
    assert_eq!(key.len(), 16);
    assert_eq!(key, expected);
}

#[test]
fn cookie_bytes_are_iv_zero_ciphertext() {
    let config = config_with_secret("Test");
    let iv = [1u8; 16];
    let cookie = create_with_iv(&config, "octocat", &iv).unwrap();
    let bytes = base64::decode_config(&cookie, base64::URL_SAFE_NO_PAD).unwrap();
    assert_eq!(&bytes[..16], &iv[..]);
    assert_eq!(bytes[16], 0);
    let key = hash_secret(&config);
    let expected = openssl::symm::encrypt(
        openssl::symm::Cipher::aes_128_cbc(),
        &key,
        Some(&iv),
        b"octocat",
    )
    .unwrap();
    assert_eq!(&bytes[17..], &expected[..]);
    assert!(!cookie.contains('='));
    assert!(!cookie.contains('+'));
    assert!(!cookie.contains('/'));
}

#[test]
fn cookie_made_with_given_iv_reads_back() {
    let config = config_with_secret("another secret");
    let cookie = create_with_iv(&config, "mona lisa ✓", &[9u8; 16]).unwrap();
    assert_eq!(decode(&config, cookie.clone()), Some("mona lisa ✓".to_string()));
    assert_eq!(decode_checked(&config, cookie), Some(Some("mona lisa ✓".to_string())));
}

#[test]
fn cookie_does_not_read_under_another_secret() {
    let config = config_with_secret("Test");
    let other = config_with_secret("Other");
    let cookie = create_with_iv(&config, "octocat", &[3u8; 16]).unwrap();
    assert_ne!(decode(&other, cookie), Some("octocat".to_string()));
}

#[test]
fn cookie_with_zero_bytes_in_iv_reads_back() {
    let config = config_with_secret("Test");
    let mut iv = [5u8; 16];
    iv[7] = 0;
    iv[15] = 0;
    let cookie = create_with_iv(&config, "octocat", &iv).unwrap();
    assert_eq!(decode(&config, cookie), Some("octocat".to_string()));
    let cookie = create_with_iv(&config, "octocat", &[0u8; 16]).unwrap();
    assert_eq!(decode(&config, cookie), Some("octocat".to_string()));
}

#[test]
fn every_cookie_reads_back() {
    let config = config_with_secret("Test");
    for i in 0..200u32 {
        let data = format!("user-{}", i);
        let cookie = create(&config, data.clone()).unwrap();
        assert_eq!(decode(&config, cookie), Some(data));
    }
}

#[test]
fn cookie_alphabet_and_length() {
    let config = config_with_secret("Test");
    let cookie = create(&config, "Hello World".to_string()).unwrap();
    assert_eq!(cookie.len(), 44);
    assert!(cookie.chars().all(|c| c.is_ascii_alphanumeric() || c == '-' || c == '_'));
    let cookie = create(&config, "0123456789abcdef".to_string()).unwrap();
    assert_eq!(cookie.len(), (4 * (33 + 16) + 2) / 3);
}

#[test]
fn decode_refuses_what_is_not_base64() {
    let config = config_with_secret("Test");
    assert_eq!(decode(&config, "not base64!".to_string()), None);
    assert_eq!(decode_checked(&config, "***".to_string()), Some(None));
}

#[test]
fn decode_refuses_bytes_without_a_zero() {
    let config = config_with_secret("Test");
    let text = base64::encode_config([1u8; 40], base64::URL_SAFE_NO_PAD);
    assert_eq!(decode(&config, text), None);
}

#[test]
fn decode_refuses_a_ciphertext_of_broken_length() {
    let config = config_with_secret("Test");
    let mut bytes = vec![1u8; 16];
    bytes.push(0);
    bytes.extend_from_slice(&[2u8; 8]);
    bytes.push(0);
    bytes.extend_from_slice(&[2u8; 7]);
    let text = base64::encode_config(&bytes, base64::URL_SAFE_NO_PAD);
    assert_eq!(decode(&config, text), None);
}

#[test]
fn decode_refuses_bytes_without_a_zero_after_the_iv() {
    let config = config_with_secret("Test");
    let mut bytes = vec![1u8; 3];
    bytes.push(0);
    bytes.extend_from_slice(&[2u8; 16]);
    let text = base64::encode_config(&bytes, base64::URL_SAFE_NO_PAD);
    assert_eq!(decode_checked(&config, text.clone()), Some(None));
    assert_eq!(decode(&config, text), None);
    assert_eq!(decode(&config, "AQBB".to_string()), None);
}

#[test]
fn decode_refuses_a_bad_ciphertext() {
    let config = config_with_secret("Test");
    let mut bytes = vec![1u8; 16];
    bytes.push(0);
    bytes.extend_from_slice(&[2u8; 16]);
    let text = base64::encode_config(&bytes, base64::URL_SAFE_NO_PAD);
    assert_eq!(decode_checked(&config, text), Some(None));
}

#[test]
fn empty_data_round_trips() {
    let config = config_with_secret("Test");
    let cookie = create_with_iv(&config, "", &[1u8; 16]).unwrap();
    assert_eq!(decode(&config, cookie), Some("".to_string()));
}
