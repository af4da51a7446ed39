use mutate::ChainRng;
use mutate::havoc;
use mutate::ri;

#[test]
fn test_havoc_1000_times() {
    let mut rng = ChainRng::new();
    let mut byte_array: Vec<u8> = vec![0; 100];
    for i in 0..100 {
        byte_array[i] = ri(&mut rng, 256) as u8;
    }
    let mut len = byte_array.len();

    let mut previous_values: Vec<u8> = vec![];
    previous_values.extend_from_slice(&byte_array);

    let mut eq_cnt = 0;
    for _ in 0..500 {
        havoc(&mut byte_array, &mut len, true, &mut rng);
        if byte_array == previous_values {
            eq_cnt += 1;
        }
        previous_values.clear();
        previous_values.extend_from_slice(&byte_array);
    }
    for _ in 0..500 {
        havoc(&mut byte_array, &mut len, false, &mut rng);
        if byte_array == previous_values {
            eq_cnt += 1;
        }
        previous_values.clear();
        previous_values.extend_from_slice(&byte_array);
    }
    assert!(eq_cnt < 50);
}

#[test]
fn havoc_replays_identically_from_a_seed() {
    let mut first: Vec<u8> = (0u8..32).collect();
    let mut first_len = first.len();
    let mut rng = ChainRng::new();
    rng.set_state(31337);
    havoc(&mut first, &mut first_len, true, &mut rng);

    let mut second: Vec<u8> = (0u8..32).collect();
    let mut second_len = second.len();
    rng.set_state(31337);
    havoc(&mut second, &mut second_len, true, &mut rng);

    assert_eq!(first, second);
    assert_eq!(first_len, second_len);
}

#[test]
fn havoc_fixed_mode_keeps_length() {
    let mut rng = ChainRng::new();
    rng.set_state(9);
    let mut buf: Vec<u8> = (0u8..16).collect();
    let mut len = buf.len();
    havoc(&mut buf, &mut len, false, &mut rng);
    assert_eq!(len, 16);
    assert_eq!(buf.len(), 16);
    assert_eq!(
        buf,
        vec![254, 0, 0, 128, 0, 0, 128, 132, 15, 100, 0, 0, 0, 0, 0, 11]
    );
}
