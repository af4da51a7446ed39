use mutate::ChainRng;
use mutate::bitflip_1;
use mutate::byte_arith;
use mutate::byte_intersting;
use mutate::byte_random;
use mutate::bytes_random;
use mutate::choose_block_len;
use mutate::dword_arith;
use mutate::dword_intersting;
use mutate::mutator::MAX_STR_LEN;
use mutate::random_delete_bytes;
use mutate::random_grow_bytes;
use mutate::ri;
use mutate::swap16;
use mutate::swap32;
use mutate::word_arith;
use mutate::word_intersting;

#[test]
fn test_mutations_zero_length() {
    let mut byte_array: Vec<u8> = vec![];
    let mut len = byte_array.len();
    let mut rng = ChainRng::new();

    bitflip_1(&mut byte_array, len, &mut rng);
    byte_intersting(&mut byte_array, len, &mut rng);
    word_intersting(&mut byte_array, len, &mut rng);
    dword_intersting(&mut byte_array, len, &mut rng);
    byte_arith(&mut byte_array, len, &mut rng);
    word_arith(&mut byte_array, len, &mut rng);
    dword_arith(&mut byte_array, len, &mut rng);
    byte_random(&mut byte_array, len, &mut rng);
    bytes_random(&mut byte_array, len, &mut rng);
    random_delete_bytes(&mut byte_array, &mut len, &mut rng);
    random_grow_bytes(&mut byte_array, &mut len, &mut rng);
}

#[test]
fn test_mutations_1_length() {
    let mut byte_array: Vec<u8> = vec![0];
    let mut len = byte_array.len();
    let mut rng = ChainRng::new();

    bitflip_1(&mut byte_array, len, &mut rng);
    byte_intersting(&mut byte_array, len, &mut rng);
    word_intersting(&mut byte_array, len, &mut rng);
    dword_intersting(&mut byte_array, len, &mut rng);
    byte_arith(&mut byte_array, len, &mut rng);
    word_arith(&mut byte_array, len, &mut rng);
    dword_arith(&mut byte_array, len, &mut rng);
    byte_random(&mut byte_array, len, &mut rng);
    bytes_random(&mut byte_array, len, &mut rng);
    random_delete_bytes(&mut byte_array, &mut len, &mut rng);
    random_delete_bytes(&mut byte_array, &mut len, &mut rng);
    random_grow_bytes(&mut byte_array, &mut len, &mut rng);
}

#[test]
fn test_mutations_2_length() {
    let mut byte_array: Vec<u8> = vec![0, 1];
    let mut len = byte_array.len();
    let mut rng = ChainRng::new();

    bitflip_1(&mut byte_array, len, &mut rng);
    byte_intersting(&mut byte_array, len, &mut rng);
    word_intersting(&mut byte_array, len, &mut rng);
    dword_intersting(&mut byte_array, len, &mut rng);
    byte_arith(&mut byte_array, len, &mut rng);
    word_arith(&mut byte_array, len, &mut rng);
    dword_arith(&mut byte_array, len, &mut rng);
    byte_random(&mut byte_array, len, &mut rng);
    bytes_random(&mut byte_array, len, &mut rng);
    random_delete_bytes(&mut byte_array, &mut len, &mut rng);
    random_delete_bytes(&mut byte_array, &mut len, &mut rng);
    random_grow_bytes(&mut byte_array, &mut len, &mut rng);
}

#[test]
fn test_mutations_4_length() {
    let mut byte_array: Vec<u8> = vec![0, 1, 2, 3];
    let mut len = byte_array.len();
    let mut rng = ChainRng::new();

    bitflip_1(&mut byte_array, len, &mut rng);
    byte_intersting(&mut byte_array, len, &mut rng);
    word_intersting(&mut byte_array, len, &mut rng);
    dword_intersting(&mut byte_array, len, &mut rng);
    byte_arith(&mut byte_array, len, &mut rng);
    word_arith(&mut byte_array, len, &mut rng);
    dword_arith(&mut byte_array, len, &mut rng);
    byte_random(&mut byte_array, len, &mut rng);
    bytes_random(&mut byte_array, len, &mut rng);
    random_delete_bytes(&mut byte_array, &mut len, &mut rng);
    random_delete_bytes(&mut byte_array, &mut len, &mut rng);
    random_grow_bytes(&mut byte_array, &mut len, &mut rng);
}

#[test]
fn test_mutations_8_length() {
    let mut byte_array: Vec<u8> = vec![0, 1, 2, 3, 4, 5, 6, 7];
    let mut len = byte_array.len();
    let mut rng = ChainRng::new();

    let mut previous_values: Vec<u8> = vec![];
    let mut previous_len = len;

    previous_values.extend_from_slice(&byte_array);
    bitflip_1(&mut byte_array, len, &mut rng);
    assert_ne!(byte_array, previous_values);
    previous_values.clear();
    previous_values.extend_from_slice(&byte_array);
    byte_intersting(&mut byte_array, len, &mut rng);
    assert_ne!(byte_array, previous_values);
    previous_values.clear();
    previous_values.extend_from_slice(&byte_array);
    word_intersting(&mut byte_array, len, &mut rng);
    assert_ne!(byte_array, previous_values);
    previous_values.clear();
    previous_values.extend_from_slice(&byte_array);
    dword_intersting(&mut byte_array, len, &mut rng);
    assert_ne!(byte_array, previous_values);
    previous_values.clear();
    previous_values.extend_from_slice(&byte_array);
    byte_arith(&mut byte_array, len, &mut rng);
    assert_ne!(byte_array, previous_values);
    previous_values.clear();
    previous_values.extend_from_slice(&byte_array);
    word_arith(&mut byte_array, len, &mut rng);
    assert_ne!(byte_array, previous_values);
    previous_values.clear();
    previous_values.extend_from_slice(&byte_array);
    dword_arith(&mut byte_array, len, &mut rng);
    assert_ne!(byte_array, previous_values);
    previous_values.clear();
    previous_values.extend_from_slice(&byte_array);
    byte_random(&mut byte_array, len, &mut rng);
    assert_ne!(byte_array, previous_values);
    previous_values.clear();
    previous_values.extend_from_slice(&byte_array);
    bytes_random(&mut byte_array, len, &mut rng);
    assert_ne!(byte_array, previous_values);
    previous_values.clear();
    previous_values.extend_from_slice(&byte_array);
    random_delete_bytes(&mut byte_array, &mut len, &mut rng);
    assert_ne!(byte_array, previous_values);
    assert!(len < previous_len);
    previous_values.clear();
    previous_values.extend_from_slice(&byte_array);
    previous_len = len;
    random_grow_bytes(&mut byte_array, &mut len, &mut rng);
    assert_ne!(byte_array, previous_values);
    assert!(len > previous_len);
    previous_values.clear();
    previous_values.extend_from_slice(&byte_array);
}

#[test]
fn test_mutations_max_length() {
    // Create a byte array of maximum length with random data
    let mut rng = ChainRng::new();
    let mut byte_array: Vec<u8> = vec![0; MAX_STR_LEN];
    for i in 0..MAX_STR_LEN {
        byte_array[i] = ri(&mut rng, 256) as u8;
    }
    let mut len = byte_array.len();

    let mut previous_values: Vec<u8> = vec![];
    let mut previous_len = len;

    previous_values.extend_from_slice(&byte_array);
    bitflip_1(&mut byte_array, len, &mut rng);
    assert_ne!(byte_array, previous_values);
    previous_values.clear();
    previous_values.extend_from_slice(&byte_array);
    byte_intersting(&mut byte_array, len, &mut rng);
    assert_ne!(byte_array, previous_values);
    previous_values.clear();
    previous_values.extend_from_slice(&byte_array);
    word_intersting(&mut byte_array, len, &mut rng);
    assert_ne!(byte_array, previous_values);
    previous_values.clear();
    previous_values.extend_from_slice(&byte_array);
    dword_intersting(&mut byte_array, len, &mut rng);
    assert_ne!(byte_array, previous_values);
    previous_values.clear();
    previous_values.extend_from_slice(&byte_array);
    byte_arith(&mut byte_array, len, &mut rng);
    assert_ne!(byte_array, previous_values);
    previous_values.clear();
    previous_values.extend_from_slice(&byte_array);
    word_arith(&mut byte_array, len, &mut rng);
    assert_ne!(byte_array, previous_values);
    previous_values.clear();
    previous_values.extend_from_slice(&byte_array);
    dword_arith(&mut byte_array, len, &mut rng);
    assert_ne!(byte_array, previous_values);
    previous_values.clear();
    previous_values.extend_from_slice(&byte_array);
    byte_random(&mut byte_array, len, &mut rng);
    assert_ne!(byte_array, previous_values);
    previous_values.clear();
    previous_values.extend_from_slice(&byte_array);
    bytes_random(&mut byte_array, len, &mut rng);
    assert_ne!(byte_array, previous_values);
    previous_values.clear();
    previous_values.extend_from_slice(&byte_array);
    random_delete_bytes(&mut byte_array, &mut len, &mut rng);
    assert_ne!(byte_array, previous_values);
    assert!(len < previous_len);
    previous_values.clear();
    previous_values.extend_from_slice(&byte_array);
    previous_len = len;
    random_grow_bytes(&mut byte_array, &mut len, &mut rng);
    assert_ne!(byte_array, previous_values);
    assert!(len > previous_len);
    previous_values.clear();
    previous_values.extend_from_slice(&byte_array);
}

#[test]
fn block_len_stays_in_bounds() {
    let mut rng = ChainRng::new();
    for limit in [1u32, 2, 3, 31, 32, 33, 100, 128, 1500, 32768, 100000] {
        for _ in 0..50 {
            let r = choose_block_len(&mut rng, limit);
            assert!(1 <= r && r <= limit);
        }
    }
}

#[test]
fn short_buffers_are_left_unchanged() {
    let mut rng = ChainRng::new();
    rng.set_state(777);

    // the single-byte operators need one byte
    let mut empty_buf: Vec<u8> = vec![];
    bitflip_1(&mut empty_buf, 0, &mut rng);
    byte_intersting(&mut empty_buf, 0, &mut rng);
    byte_arith(&mut empty_buf, 0, &mut rng);
    byte_random(&mut empty_buf, 0, &mut rng);
    assert_eq!(empty_buf, vec![]);

    // word operators need two bytes, dword operators four
    let mut one: Vec<u8> = vec![42];
    word_intersting(&mut one, 1, &mut rng);
    assert_eq!(one, vec![42]);
    word_arith(&mut one, 1, &mut rng);
    assert_eq!(one, vec![42]);

    let mut three: Vec<u8> = vec![1, 2, 3];
    dword_intersting(&mut three, 3, &mut rng);
    assert_eq!(three, vec![1, 2, 3]);
    dword_arith(&mut three, 3, &mut rng);
    assert_eq!(three, vec![1, 2, 3]);

    // block, delete and grow operators need two bytes (grow needs one)
    bytes_random(&mut one, 1, &mut rng);
    assert_eq!(one, vec![42]);
    let mut len: usize = 1;
    random_delete_bytes(&mut one, &mut len, &mut rng);
    assert_eq!(one, vec![42]);
    assert_eq!(len, 1);

    let mut empty: Vec<u8> = vec![];
    let mut zero: usize = 0;
    random_grow_bytes(&mut empty, &mut zero, &mut rng);
    assert_eq!(empty, vec![]);
    assert_eq!(zero, 0);

    // and the state was never consumed by any of these no-ops
    assert_eq!(rng.get_state(), 777);
}

#[test]
fn delete_shrinks_length() {
    let mut rng = ChainRng::new();
    let mut buf: Vec<u8> = vec![10, 20, 30, 40, 50, 60, 70, 80];
    let mut len = buf.len();
    random_delete_bytes(&mut buf, &mut len, &mut rng);
    assert_eq!(len, 4);
    assert_eq!(buf, vec![50, 60, 70, 80, 50, 60, 70, 80]);
}

#[test]
fn grow_extends_length() {
    let mut rng = ChainRng::new();
    let mut buf: Vec<u8> = vec![1, 2, 3, 4];
    let mut len = buf.len();
    random_grow_bytes(&mut buf, &mut len, &mut rng);
    assert_eq!(len, 8);
    assert_eq!(buf, vec![1, 2, 3, 1, 2, 3, 4, 4, 0]);
}

#[test]
fn grow_at_cap_still_grows() {
    // the cap check refuses lengths strictly above the cap, so a buffer
    // exactly at the cap still grows
    let mut rng = ChainRng::new();
    let mut buf: Vec<u8> = vec![7; MAX_STR_LEN];
    let mut len = buf.len();
    random_grow_bytes(&mut buf, &mut len, &mut rng);
    assert!(len > MAX_STR_LEN);
}

#[test]
fn grow_past_cap_is_refused() {
    let mut rng = ChainRng::new();
    rng.set_state(4242);
    let before = rng.get_state();
    let mut buf: Vec<u8> = vec![7; MAX_STR_LEN + 1];
    let mut len = buf.len();
    random_grow_bytes(&mut buf, &mut len, &mut rng);
    assert_eq!(len, MAX_STR_LEN + 1);
    assert_eq!(buf, vec![7; MAX_STR_LEN + 1]);
    assert_eq!(rng.get_state(), before);
}

#[test]
fn bitflip_hits_the_drawn_bit() {
    // seeded so the first draw over the 64-bit range picks bit index 43:
    // byte index 5 (43 >> 3), bit 3 (43 & 7) within that byte
    let mut rng = ChainRng::new();
    rng.set_state(32);
    let mut buf: Vec<u8> = vec![0, 1, 2, 3, 4, 5, 6, 7];
    bitflip_1(&mut buf, 8, &mut rng);
    assert_eq!(buf, vec![0, 1, 2, 3, 4, 5 ^ 16, 6, 7]);
}

#[test]
fn word_arith_wraps_with_carry() {
    // seeded so word_arith adds in native order: 0x00FF plus a delta of 12
    // carries into the high byte and wraps modulo two to the sixteenth
    let mut rng = ChainRng::new();
    rng.set_state(10);
    let mut buf: Vec<u8> = vec![0xFF, 0x00];
    word_arith(&mut buf, 2, &mut rng);
    assert_eq!(buf, vec![11, 1]);
}

#[test]
fn single_byte_operators_hit_expected_values() {
    let mut rng = ChainRng::new();
    let mut buf: Vec<u8> = vec![0, 1, 2, 3, 4, 5, 6, 7];
    bitflip_1(&mut buf, 8, &mut rng);
    assert_eq!(buf, vec![0, 3, 2, 3, 4, 5, 6, 7]);

    let mut rng = ChainRng::new();
    let mut buf: Vec<u8> = vec![0, 1, 2, 3];
    byte_intersting(&mut buf, 4, &mut rng);
    assert_eq!(buf, vec![0, 1, 255, 3]);

    let mut rng = ChainRng::new();
    let mut buf: Vec<u8> = vec![0, 1, 2, 3];
    word_intersting(&mut buf, 4, &mut rng);
    assert_eq!(buf, vec![127, 255, 2, 3]);
}

#[test]
fn byte_swaps_reverse_byte_order() {
    assert_eq!(swap16(0x1234), 0x3412);
    assert_eq!(swap16(0x00FF), 0xFF00);
    assert_eq!(swap32(0x12345678), 0x78563412);
    assert_eq!(swap32(0x000000FF), 0xFF000000);
}
