use bitvec::order::Lsb0;
use bitvec::vec::BitVec;

fn bits_of(values: &[u8]) -> BitVec<usize, Lsb0> {
    let mut v = BitVec::new();
    for &b in values {
        v.push(b != 0);
    }
    v
}

// Confirm that BitVec finds free indices as the unit pool expects.
#[test]
fn test_bit_vec() {
    assert_eq!(bits_of(&[]).first_zero(), None);
    assert_eq!(bits_of(&[1]).first_zero(), None);

    assert_eq!(bits_of(&[0, 1]).first_zero(), Some(0));
    assert_eq!(bits_of(&[1, 0]).first_zero(), Some(1));

    assert_eq!(bits_of(&[0, 1, 1, 1]).first_zero(), Some(0));
    assert_eq!(bits_of(&[1, 0, 1, 1]).first_zero(), Some(1));
    assert_eq!(bits_of(&[1, 1, 0, 1]).first_zero(), Some(2));
    assert_eq!(bits_of(&[1, 1, 1, 0]).first_zero(), Some(3));

    assert_eq!(bits_of(&[1, 0, 1, 0, 0]).first_zero(), Some(1));
    assert_eq!(bits_of(&[1, 1, 0, 0, 1]).first_zero(), Some(2));
    assert_eq!(bits_of(&[1, 1, 1, 0, 0]).first_zero(), Some(3));
}
