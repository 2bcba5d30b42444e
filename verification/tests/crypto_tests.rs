use pi_sentinel::crypto::verify_with_key;
use pi_sentinel::crypto::KeyPair;
use pi_sentinel::utils::hex_encode;
use pi_sentinel::utils::sha256;

#[test]
fn the_public_key_is_the_digest_of_the_secret() {
    let kp = KeyPair::from_bytes(b"a-secret".to_vec());
    assert_eq!(kp.public_key().clone(), sha256(b"a-secret"));
    assert_eq!(kp.secret_key().clone(), b"a-secret".to_vec());
    assert_eq!(kp.to_bytes(), b"a-secret".to_vec());
}

#[test]
fn signatures_verify_and_tampering_is_caught() {
    let kp = KeyPair::from_bytes(b"a-secret".to_vec());
    let message = b"commit block 7".to_vec();
    let signature = kp.sign(&message);
    assert!(kp.verify(&message, &signature));
    assert!(verify_with_key(kp.public_key(), &message, &signature));

    let mut wrong_message = message.clone();
    wrong_message.push(0);
    assert!(!kp.verify(&wrong_message, &signature));

    let mut wrong_signature = signature;
    wrong_signature[0] = wrong_signature[0].wrapping_add(1);
    assert!(!kp.verify(&message, &wrong_signature));
}

#[test]
fn generated_pairs_are_fresh_and_self_consistent() {
    let kp = KeyPair::generate();
    assert_eq!(kp.secret_key().len(), 32);
    let message = b"ping".to_vec();
    let signature = kp.sign(&message);
    assert!(kp.verify(&message, &signature));
}

#[test]
fn hex_spelling_round_trips_a_pair() {
    let kp = KeyPair::from_bytes(vec![0xde, 0xad, 0xbe, 0xef]);
    let spelled = kp.to_hex();
    assert_eq!(spelled, "deadbeef");
    let back = KeyPair::from_hex(&spelled).unwrap();
    assert_eq!(back.to_bytes(), vec![0xde, 0xad, 0xbe, 0xef]);
    assert_eq!(back.public_key().clone(), kp.public_key().clone());
    assert_eq!(hex_encode(&back.to_bytes()), spelled);
    assert!(KeyPair::from_hex("abc").is_err());
}
