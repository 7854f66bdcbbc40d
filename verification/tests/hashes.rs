use blind_index::hashing::{hash_tri_grams, make_key_prefix};
use blind_index::index::{MAX_STRING_LEN, MAX_TRI_GRAMS};
use blind_index::padding::{add_padding, max_pad_count, padding_len, CAPACITY, MAX_TIER_ROLL};
use blind_index::{
    as_u32_be, generate_hashes_for_string, generate_hashes_for_string_with_padding, make_tri_grams,
    pad_hashes, pad_hashes_shared, short_hash, IndexError,
};
use rand::rngs::ThreadRng;
use rand::Rng;
use sha2::{Digest, Sha256};
use std::collections::HashSet;
use std::sync::Mutex;

/// The fingerprint of `message`, computed with the hasher fed piece by piece.
fn expected_hash(pieces: &[&[u8]]) -> u32 {
    let mut hasher = Sha256::new();
    for piece in pieces {
        hasher.input(piece);
    }
    as_u32_be(&(hasher.result().into()))
}

/// 87 bytes whose transliteration is one word of 204 distinct tri-grams.
const MANY_TRIGRAMS: &str = "\u{33B2}\u{3300}\u{3316}\u{331A}\u{3331}\u{334A}\u{FDF4}\u{330D}\u{332A}\u{3336}\u{3338}\u{3347}\u{334C}\u{3356}\u{338C}\u{337D}\u{AEA2}\u{B5DA}\u{BF7D}\u{AFD9}\u{3315}\u{3317}\u{3320}\u{332E}\u{3395}\u{B651}\u{C35E}\u{33B6}\u{BEC8}";

#[test]
fn as_u32_be_known_result() {
    let known_result = 16909060u32; //16777216 + 131072 + 768 + 4
    let mut input = [0u8; 32];
    input[0] = 1;
    input[1] = 2;
    input[2] = 3;
    input[3] = 4;
    let result = as_u32_be(&input);
    assert_eq!(result, known_result);
}

#[test]
fn as_u32_be_ignores_the_tail() {
    let mut input = [0xFFu8; 32];
    assert_eq!(as_u32_be(&input), u32::MAX);
    input[0] = 0x80;
    input[1] = 0;
    input[2] = 0;
    input[3] = 0;
    assert_eq!(as_u32_be(&input), 0x8000_0000);
    input[3] = 1;
    input[31] = 7;
    assert_eq!(as_u32_be(&input), 0x8000_0001);
    assert_eq!(as_u32_be(&[0u8; 32]), 0);
}

#[test]
fn generate_hashes_for_string_compute_known_value() -> Result<(), String> {
    let result =
        generate_hashes_for_string("123", Some("foo"), &[0u8; 1]).map_err(|e| e.message())?;
    //We compute this to catch cases where this computation might change.
    let expected_result = {
        let mut hasher = Sha256::new();
        hasher.input("foo".as_bytes());
        hasher.input([0u8; 1]);
        hasher.input("123");
        as_u32_be(&(hasher.result().into()))
    };
    assert_eq!(result, [expected_result].iter().map(|x| *x).collect());
    Ok(())
}

#[test]
fn generate_hashes_for_string_with_padding_adds_at_least_one() -> Result<(), String> {
    let rng = Mutex::new(ThreadRng::default());
    let result = generate_hashes_for_string_with_padding("123", Some("foo"), &[0u8; 1], &rng)
        .map_err(|e| e.message())?;
    assert!(result.len() > 1);
    Ok(())
}

#[test]
fn generate_hashes_for_string_with_padding_empty_string() -> Result<(), String> {
    let rng = Mutex::new(ThreadRng::default());
    let result = generate_hashes_for_string_with_padding("", Some("foo"), &[0u8; 1], &rng)
        .map_err(|e| e.message())?;
    assert!(result.len() >= 1);
    Ok(())
}

#[test]
fn generate_hashes_for_string_too_long_errors() -> Result<(), String> {
    let rng = ThreadRng::default();
    let input: String = rng
        .sample_iter(rand::distributions::Alphanumeric)
        .take(201)
        .collect();
    generate_hashes_for_string(&input, Some("foo"), &[0u8; 1]).unwrap_err();
    Ok(())
}

#[test]
fn known_sha256_value() {
    // SHA-256 of "abc" starts with ba 78 16 bf.
    assert_eq!(short_hash(b"", b"abc"), 0xba78_16bf);
    assert_eq!(short_hash(b"a", b"bc"), 0xba78_16bf);
    assert_eq!(short_hash(b"abc", b""), 0xba78_16bf);
    // SHA-256 of the empty message starts with e3 b0 c4 42.
    assert_eq!(short_hash(b"", b""), 0xe3b0_c442);
}

#[test]
fn short_hash_is_the_hash_of_prefix_then_word() {
    assert_eq!(short_hash(b"foo\0", b"123"), expected_hash(&[b"foo", &[0u8], b"123"]));
    assert_ne!(short_hash(b"foo\0", b"123"), short_hash(b"123", b"foo\0"));
}

#[test]
fn key_prefix_is_partition_then_salt() {
    assert_eq!(make_key_prefix(Some("foo"), &[0u8, 9]), vec![b'f', b'o', b'o', 0, 9]);
    assert_eq!(make_key_prefix(None, &[0u8, 9]), vec![0, 9]);
    assert_eq!(make_key_prefix(Some("é"), &[]), vec![0xC3, 0xA9]);
    assert_eq!(make_key_prefix(None, &[]), Vec::<u8>::new());
}

#[test]
fn hash_tri_grams_hashes_each_gram() {
    let grams = vec!["fiv".to_string(), "ive".to_string()];
    let expected: HashSet<u32> =
        [expected_hash(&[b"k", b"fiv"]), expected_hash(&[b"k", b"ive"])].iter().copied().collect();
    assert_eq!(hash_tri_grams(b"k", &grams), expected);
    assert_eq!(hash_tri_grams(b"k", &Vec::new()), HashSet::new());
}

#[test]
fn generate_hashes_without_partition() {
    let result = generate_hashes_for_string("five", None, b"salt").unwrap();
    let expected: HashSet<u32> =
        [expected_hash(&[b"salt", b"fiv"]), expected_hash(&[b"salt", b"ive"])]
            .iter()
            .copied()
            .collect();
    assert_eq!(result, expected);
}

#[test]
fn generate_hashes_with_empty_salt_and_multibyte_grams() {
    let result = generate_hashes_for_string("\u{102AE}\u{102AF}", Some("p"), &[]).unwrap();
    let expected: HashSet<u32> =
        [expected_hash(&[b"p", "\u{102AE}\u{102AF}-".as_bytes()])].iter().copied().collect();
    assert_eq!(result, expected);
}

#[test]
fn generate_hashes_of_empty_string_is_empty() {
    assert_eq!(generate_hashes_for_string("", Some("foo"), &[0u8; 1]), Ok(HashSet::new()));
    assert_eq!(generate_hashes_for_string("  !  ", None, &[]), Ok(HashSet::new()));
}

#[test]
fn generate_hashes_is_deterministic() {
    let text = "123 José  Núñez 812-111-7654";
    let first = generate_hashes_for_string(text, Some("foo"), &[1, 2, 3]);
    let second = generate_hashes_for_string(text, Some("foo"), &[1, 2, 3]);
    assert_eq!(first, second);
    assert_eq!(first.unwrap().len(), 14);
    let long = "x".repeat(201);
    assert_eq!(
        generate_hashes_for_string(&long, None, &[]),
        generate_hashes_for_string(&long, None, &[])
    );
}

#[test]
fn padded_hashes_hold_the_genuine_ones() {
    let rng = Mutex::new(ThreadRng::default());
    let text = "TİRYAKİ TİRYAKİ";
    let genuine = generate_hashes_for_string(text, Some("foo"), &[7]).unwrap();
    for _ in 0..200 {
        let padded =
            generate_hashes_for_string_with_padding(text, Some("foo"), &[7], &rng).unwrap();
        assert!(genuine.is_subset(&padded));
        assert!(padded.len() >= 1);
        assert!(padded.len() <= genuine.len() + 199);
        assert!(padded.len() <= CAPACITY);
    }
}

#[test]
fn partitions_give_disjoint_hashes() {
    let salt = [5u8; 16];
    let a = generate_hashes_for_string("abc", Some("A"), &salt).unwrap();
    let b = generate_hashes_for_string("abc", Some("B"), &salt).unwrap();
    assert_eq!(a.len(), 1);
    assert_eq!(b.len(), 1);
    assert!(a.is_disjoint(&b));
}

#[test]
fn salts_give_different_hashes() {
    let a = generate_hashes_for_string("abc", Some("A"), &[1]).unwrap();
    let b = generate_hashes_for_string("abc", Some("A"), &[2]).unwrap();
    assert!(a.is_disjoint(&b));
}

#[test]
fn length_limit_is_in_bytes() {
    assert_eq!(MAX_STRING_LEN, 200);
    let at_limit = "ab ".repeat(66) + "ab";
    assert_eq!(at_limit.len(), 200);
    assert!(generate_hashes_for_string(&at_limit, None, &[]).is_ok());
    let over = at_limit + "c";
    assert_eq!(
        generate_hashes_for_string(&over, None, &[]),
        Err(IndexError::InputTooLong)
    );
    // 67 characters of three bytes each.
    let wide = "志".repeat(67);
    assert_eq!(wide.chars().count(), 67);
    assert_eq!(
        generate_hashes_for_string(&wide, None, &[]),
        Err(IndexError::InputTooLong)
    );
    assert!(generate_hashes_for_string(&"志".repeat(66), None, &[]).is_ok());
}

#[test]
fn too_long_input_fails_with_padding_too() {
    let rng = Mutex::new(ThreadRng::default());
    let long = "y".repeat(201);
    assert_eq!(
        generate_hashes_for_string_with_padding(&long, Some("foo"), &[0u8; 1], &rng),
        Err(IndexError::InputTooLong)
    );
}

#[test]
fn too_many_tri_grams_are_refused() {
    assert!(MANY_TRIGRAMS.len() <= MAX_STRING_LEN);
    assert_eq!(make_tri_grams(MANY_TRIGRAMS).len(), 204);
    assert_eq!(
        generate_hashes_for_string(MANY_TRIGRAMS, None, &[]),
        Err(IndexError::TooManyNGrams)
    );
    let rng = Mutex::new(ThreadRng::default());
    assert_eq!(
        generate_hashes_for_string_with_padding(MANY_TRIGRAMS, None, &[], &rng),
        Err(IndexError::TooManyNGrams)
    );
}

#[test]
fn tri_gram_limit_is_198() {
    assert_eq!(MAX_TRI_GRAMS, 198);
    // One character less leaves 198 distinct tri-grams.
    let mut chars: Vec<char> = MANY_TRIGRAMS.chars().collect();
    chars.pop();
    let text: String = chars.into_iter().collect();
    assert_eq!(make_tri_grams(&text).len(), 198);
    let genuine = generate_hashes_for_string(&text, None, &[]).unwrap();
    assert!(genuine.len() <= 198);
    let rng = Mutex::new(ThreadRng::default());
    for _ in 0..300 {
        let padded = generate_hashes_for_string_with_padding(&text, None, &[], &rng).unwrap();
        assert!(genuine.is_subset(&padded));
        assert!(padded.len() <= CAPACITY);
    }
    // One short word more makes 199.
    let more = text + " a";
    assert_eq!(make_tri_grams(&more).len(), 199);
    assert_eq!(
        generate_hashes_for_string(&more, None, &[]),
        Err(IndexError::TooManyNGrams)
    );
}

#[test]
fn error_messages() {
    assert_eq!(
        IndexError::InputTooLong.message(),
        "The input string is too long. Only strings of no more than 200 bytes are supported."
    );
    assert_eq!(
        IndexError::TooManyNGrams.message(),
        "The input string has too many tri-grams. No more than 198 distinct ones are supported."
    );
    assert_eq!(
        IndexError::RandomSourcePoisoned.message(),
        "The lock around the random source is poisoned."
    );
}

#[test]
fn max_pad_count_by_tier() {
    assert_eq!(MAX_TIER_ROLL, 200);
    assert_eq!(max_pad_count(0), 199);
    assert_eq!(max_pad_count(1), 199);
    assert_eq!(max_pad_count(2), 29);
    assert_eq!(max_pad_count(5), 29);
    assert_eq!(max_pad_count(6), 9);
    assert_eq!(max_pad_count(50), 9);
    assert_eq!(max_pad_count(51), 4);
    assert_eq!(max_pad_count(200), 4);
    assert_eq!(max_pad_count(255), 4);
}

#[test]
fn padding_len_is_cut_to_the_room_left() {
    assert_eq!(CAPACITY, 200);
    assert_eq!(padding_len(0, 1), 1);
    assert_eq!(padding_len(0, 199), 199);
    assert_eq!(padding_len(1, 199), 199);
    assert_eq!(padding_len(2, 199), 198);
    assert_eq!(padding_len(198, 4), 2);
    assert_eq!(padding_len(196, 4), 4);
    assert_eq!(padding_len(199, 1), 1);
    assert_eq!(padding_len(200, 4), 0);
    assert_eq!(padding_len(201, 4), 0);
    assert_eq!(padding_len(usize::MAX, 255), 0);
    assert_eq!(padding_len(0, 255), 200);
}

#[test]
fn add_padding_is_a_union() {
    let hashes: HashSet<u32> = [1u32, 2, 3].iter().copied().collect();
    let padded = add_padding(hashes.clone(), &vec![3, 4, 4, u32::MAX, 0]);
    let expected: HashSet<u32> = [0u32, 1, 2, 3, 4, u32::MAX].iter().copied().collect();
    assert_eq!(padded, expected);
    assert_eq!(add_padding(hashes.clone(), &Vec::new()), hashes);
    assert_eq!(add_padding(HashSet::new(), &vec![9]), [9u32].iter().copied().collect());
}

#[test]
fn pad_hashes_adds_between_one_and_199() {
    let mut rng = ThreadRng::default();
    let mut largest = 0;
    for _ in 0..2000 {
        let padded = pad_hashes(HashSet::new(), &mut rng);
        assert!(padded.len() >= 1);
        assert!(padded.len() <= 199);
        largest = largest.max(padded.len());
    }
    // Three rolls in four ask for at most four values; some ask for more.
    assert!(largest > 4);
}

#[test]
fn pad_hashes_leaves_a_full_set_alone() {
    let mut rng = ThreadRng::default();
    let full: HashSet<u32> = (0..200u32).collect();
    assert_eq!(pad_hashes(full.clone(), &mut rng), full);
    let nearly: HashSet<u32> = (0..199u32).collect();
    let padded = pad_hashes(nearly.clone(), &mut rng);
    assert!(nearly.is_subset(&padded));
    assert!(padded.len() <= 200);
    let over: HashSet<u32> = (0..250u32).collect();
    assert_eq!(pad_hashes(over.clone(), &mut rng), over);
}

#[test]
fn padding_draws_from_all_of_u32() {
    let mut rng = ThreadRng::default();
    let mut high = false;
    let mut low = false;
    for _ in 0..200 {
        for value in pad_hashes(HashSet::new(), &mut rng) {
            if value >= 0x8000_0000 {
                high = true;
            } else {
                low = true;
            }
        }
    }
    assert!(high && low);
}

#[test]
fn pad_hashes_shared_draws_under_the_lock() {
    let rng = Mutex::new(ThreadRng::default());
    let genuine: HashSet<u32> = [1u32, 2, 3].iter().copied().collect();
    for _ in 0..200 {
        let padded = pad_hashes_shared(genuine.clone(), &rng).unwrap();
        assert!(genuine.is_subset(&padded));
        assert!(padded.len() >= 3);
        assert!(padded.len() <= 3 + 199);
    }
    // The lock is free again after every call.
    assert!(rng.try_lock().is_ok());
    assert!(!rng.is_poisoned());
}
