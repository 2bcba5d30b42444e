use std::collections::HashSet;

use pi_sentinel::utils::base58_decode;
use pi_sentinel::utils::base58_encode;
use pi_sentinel::utils::bytes_eq;
use pi_sentinel::utils::hex_decode;
use pi_sentinel::utils::hex_encode;
use pi_sentinel::utils::ripemd160;
use pi_sentinel::utils::set_difference;
use pi_sentinel::utils::set_intersection;
use pi_sentinel::utils::set_union;
use pi_sentinel::utils::sha256;
use pi_sentinel::utils::HexError;

#[test]
fn hex_encodes_low_nibbles_first_nibble_high() {
    assert_eq!(hex_encode(&[0xbe, 0xef]), "beef");
    assert_eq!(hex_encode(&[0x00, 0x01, 0x0a]), "00010a");
    assert_eq!(hex_encode(&[]), "");
}

#[test]
fn hex_decodes_both_cases_and_round_trips() {
    assert_eq!(hex_decode("beef").unwrap(), vec![0xbe, 0xef]);
    assert_eq!(hex_decode("BEEF").unwrap(), vec![0xbe, 0xef]);
    assert_eq!(hex_decode("").unwrap(), Vec::<u8>::new());
    let data = vec![1u8, 2, 3, 255, 0, 77];
    assert_eq!(hex_decode(&hex_encode(&data)).unwrap(), data);
}

#[test]
fn hex_decode_reports_odd_length_and_stray_characters() {
    assert_eq!(hex_decode("abc"), Err(HexError::OddLength));
    assert_eq!(hex_decode("zz"), Err(HexError::InvalidChar));
    assert_eq!(hex_decode("a!"), Err(HexError::InvalidChar));
}

#[test]
fn sha256_matches_the_published_digest() {
    let digest = sha256(b"abc");
    assert_eq!(
        hex_encode(&digest),
        "ba7816bf8f01cfea414140de5dae2223b00361a396177a9cb410ff61f20015ad"
    );
    assert_eq!(sha256(b"").len(), 32);
}

#[test]
fn ripemd160_matches_the_published_digest() {
    let digest = ripemd160(b"abc");
    assert_eq!(hex_encode(&digest), "8eb208f7e05d987a9b044a8e98c6b087f15a0bfc");
    assert_eq!(ripemd160(b"").len(), 20);
}

#[test]
fn base58_round_trips_and_maps_zero_bytes_to_ones() {
    assert_eq!(base58_encode(&[]), "");
    assert_eq!(base58_encode(&[0]), "1");
    let data = vec![0u8, 1, 2, 3, 250];
    let spelled = base58_encode(&data);
    assert_eq!(base58_decode(&spelled).unwrap(), data);
}

#[test]
fn base58_refuses_characters_outside_the_alphabet() {
    // '0' and 'l' are not in the Bitcoin alphabet.
    assert!(base58_decode("0").is_err());
    assert!(base58_decode("l").is_err());
}

#[test]
fn bytes_eq_compares_content() {
    assert!(bytes_eq(&vec![1, 2, 3], &vec![1, 2, 3]));
    assert!(!bytes_eq(&vec![1, 2, 3], &vec![1, 2]));
    assert!(!bytes_eq(&vec![1, 2, 3], &vec![1, 2, 4]));
    assert!(bytes_eq(&Vec::new(), &Vec::new()));
}

#[test]
fn set_operations_follow_their_set_algebra() {
    let a: HashSet<u64> = [1, 2, 3, 4].into_iter().collect();
    let b: HashSet<u64> = [3, 4, 5].into_iter().collect();
    let diff = set_difference(&a, &b);
    assert_eq!(diff, [1u64, 2].into_iter().collect());
    let inter = set_intersection(&a, &b);
    assert_eq!(inter, [3u64, 4].into_iter().collect());
    let uni = set_union(&a, &b);
    assert_eq!(uni, [1u64, 2, 3, 4, 5].into_iter().collect());
    let empty: HashSet<u64> = HashSet::new();
    assert_eq!(set_difference(&empty, &a), HashSet::new());
    assert_eq!(set_union(&empty, &b), b);
}
