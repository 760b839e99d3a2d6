use pngcheck::byte_match::{all_same, check_sameness, ByteMatch};

#[test]
fn sameness_of_equal_sequences() {
    let result = check_sameness(&[1, 2, 3], &[1, 2, 3]);
    assert_eq!(
        result,
        vec![ByteMatch::Same(1), ByteMatch::Same(2), ByteMatch::Same(3)]
    );
    assert!(all_same(&result));
    assert_eq!(check_sameness(&[], &[]), vec![]);
    assert!(all_same(&[]));
}

#[test]
fn sameness_of_different_sequences() {
    let result = check_sameness(&[1, 2, 3], &[1, 9, 3]);
    assert_eq!(
        result,
        vec![
            ByteMatch::Same(1),
            ByteMatch::Diff {
                left: Some(2),
                right: Some(9)
            },
            ByteMatch::Same(3)
        ]
    );
    assert!(!all_same(&result));
}

#[test]
fn sameness_of_sequences_of_different_lengths() {
    assert_eq!(
        check_sameness(&[1, 2], &[1]),
        vec![
            ByteMatch::Same(1),
            ByteMatch::Diff {
                left: Some(2),
                right: None
            }
        ]
    );
    assert_eq!(
        check_sameness(&[], &[7, 8]),
        vec![
            ByteMatch::Diff {
                left: None,
                right: Some(7)
            },
            ByteMatch::Diff {
                left: None,
                right: Some(8)
            }
        ]
    );
    assert!(!all_same(&check_sameness(&[1, 2], &[1])));
    assert!(!all_same(&check_sameness(&[1], &[1, 2])));
}
