use classifier::codec::{bool_vec_to_string, int_to_bool_vec};

#[test]
fn test_int_to_bool_vec() {
    let expected_vec = vec![false, false, false];
    assert_eq!(int_to_bool_vec(0, 3), expected_vec);

    let expected_vec = vec![false, true];
    assert_eq!(int_to_bool_vec(1, 2), expected_vec);

    let expected_vec = vec![false, false, false, true];
    assert_eq!(int_to_bool_vec(1, 4), expected_vec);

    let expected_vec = vec![false, false, true, false];
    assert_eq!(int_to_bool_vec(2, 4), expected_vec);

    let expected_vec = vec![true, true, true, true];
    assert_eq!(int_to_bool_vec(15, 4), expected_vec);
}

#[test]
fn test_bool_vec_to_string() {
    assert_eq!(bool_vec_to_string(&[]), "".to_string());
    assert_eq!(bool_vec_to_string(&[true, false]), "10".to_string());
    assert_eq!(bool_vec_to_string(&[true, true, false]), "110".to_string());
}

#[test]
fn zero_width_gives_empty_vector() {
    assert_eq!(int_to_bool_vec(5, 0), Vec::<bool>::new());
}

#[test]
fn high_bits_are_truncated() {
    assert_eq!(int_to_bool_vec(13, 2), vec![false, true]);
    assert_eq!(int_to_bool_vec(16, 4), vec![false, false, false, false]);
}

#[test]
fn negative_numbers_use_twos_complement() {
    assert_eq!(int_to_bool_vec(-1, 3), vec![true, true, true]);
    assert_eq!(int_to_bool_vec(-2, 4), vec![true, true, true, false]);
    assert_eq!(int_to_bool_vec(i32::MIN, 2), vec![false, false]);
    assert_eq!(int_to_bool_vec(-1, 40).len(), 40);
    assert!(int_to_bool_vec(-1, 40).iter().all(|b| *b));
    let mut expected = vec![true; 9];
    expected.extend(vec![false; 31]);
    assert_eq!(int_to_bool_vec(i32::MIN, 40), expected);
}

#[test]
fn label_reads_back_as_index() {
    for width in [0usize, 1, 3, 7, 30] {
        let limit: i64 = 1 << width;
        for index in [0i64, 1, 5, 1000, 123_456_789, limit - 1] {
            if index < limit {
                let label = bool_vec_to_string(&int_to_bool_vec(index as i32, width));
                assert_eq!(label.len(), width);
                let value = if width == 0 { 0 } else { i64::from_str_radix(&label, 2).unwrap() };
                assert_eq!(value, index);
            }
        }
    }
}
