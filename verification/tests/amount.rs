use crowdfunding::amount::MAX_BYTES;
use crowdfunding::{Address, Amount};

fn from_be(bytes: Vec<u8>) -> Amount {
    Amount::from_bytes_be(bytes).unwrap()
}

#[test]
fn zero_has_no_bytes() {
    assert_eq!(Amount::zero().to_bytes_be(), Vec::<u8>::new());
    assert_eq!(from_be(vec![]).to_bytes_be(), Vec::<u8>::new());
    assert_eq!(from_be(vec![0, 0, 0]).to_bytes_be(), Vec::<u8>::new());
}

#[test]
fn bytes_are_big_endian() {
    assert_eq!(from_be(vec![0x03, 0xe8]).to_bytes_be(), vec![0x03, 0xe8]);
    assert_eq!(from_be(1000u64.to_be_bytes().to_vec()).to_bytes_be(), vec![0x03, 0xe8]);
}

#[test]
fn leading_zeros_are_dropped() {
    assert_eq!(from_be(vec![0, 0, 7, 0]).to_bytes_be(), vec![7, 0]);
    assert_eq!(from_be(vec![0, 1]).to_bytes_be(), vec![1]);
    assert_eq!(from_be(vec![9]).to_bytes_be(), vec![9]);
}

#[test]
fn plus_adds() {
    let a = from_be(vec![0x01, 0x90]);
    let b = from_be(vec![0x02, 0xbc]);
    assert_eq!(a.plus(&b).to_bytes_be(), vec![0x04, 0x4c]);
    assert_eq!(b.plus(&a).to_bytes_be(), vec![0x04, 0x4c]);
    assert_eq!(a.plus(&Amount::zero()).to_bytes_be(), vec![0x01, 0x90]);
    assert_eq!(Amount::zero().plus(&Amount::zero()).to_bytes_be(), Vec::<u8>::new());
}

#[test]
fn plus_carries_past_machine_words() {
    let max = from_be(vec![0xff; 16]);
    let one = from_be(vec![1]);
    let mut expected = vec![0u8; 17];
    expected[0] = 1;
    assert_eq!(max.plus(&one).to_bytes_be(), expected);
    let mut doubled = vec![0xffu8; 17];
    doubled[0] = 1;
    doubled[16] = 0xfe;
    assert_eq!(max.plus(&max).to_bytes_be(), doubled);
}

#[test]
fn plus_ignores_leading_zeros() {
    let a = from_be(vec![0, 0, 0xff]);
    let b = from_be(vec![0, 1]);
    assert_eq!(a.plus(&b).to_bytes_be(), vec![1, 0]);
}

#[test]
fn at_least_compares_by_value() {
    let small = from_be(vec![0xff]);
    let big = from_be(vec![0x01, 0x00]);
    assert!(big.at_least(&small));
    assert!(!small.at_least(&big));
    assert!(big.at_least(&big));
    assert!(small.at_least(&Amount::zero()));
    assert!(Amount::zero().at_least(&Amount::zero()));
    assert!(!Amount::zero().at_least(&small));
    assert!(from_be(vec![0, 0, 5]).at_least(&from_be(vec![5])));
    assert!(from_be(vec![5]).at_least(&from_be(vec![0, 0, 5])));
    assert!(!from_be(vec![0, 9]).at_least(&from_be(vec![1, 0])));
}

#[test]
fn clone_keeps_the_value() {
    let a = from_be(vec![1, 2, 3]);
    assert_eq!(a.clone().to_bytes_be(), vec![1, 2, 3]);
}

#[test]
fn address_round_trip_and_equality() {
    let mut bytes = [0u8; 32];
    bytes[0] = 1;
    bytes[31] = 2;
    let a = Address::new(bytes);
    assert_eq!(a.to_bytes(), bytes);
    assert!(a.same_as(&Address::new(bytes)));
    let mut other = bytes;
    other[31] = 3;
    assert!(!a.same_as(&Address::new(other)));
    other = bytes;
    other[0] = 0;
    assert!(!a.same_as(&Address::new(other)));
    other = bytes;
    other[15] = 1;
    assert!(!a.same_as(&Address::new(other)));
}

#[test]
fn sum_is_spelled_in_its_shortest_form() {
    let a = from_be(vec![0, 0, 0, 2]);
    let b = from_be(vec![0, 3]);
    let sum = a.plus(&b).to_bytes_be();
    assert_eq!(sum, vec![5]);
    assert!(sum.is_empty() || sum[0] != 0);
}

#[test]
fn checked_plus_adds_what_can_be_held() {
    let a = from_be(vec![0xff, 0xff]);
    let b = from_be(vec![2]);
    assert_eq!(a.checked_plus(&b).unwrap().to_bytes_be(), vec![1, 0, 1]);
    assert_eq!(Amount::zero().checked_plus(&Amount::zero()).unwrap().to_bytes_be(), Vec::<u8>::new());
}

#[test]
fn longest_amount_is_just_under_two_gibibytes() {
    assert_eq!(MAX_BYTES, 2_147_483_646);
}

#[test]
fn from_bytes_be_turns_down_what_is_too_long() {
    let mut bytes = vec![0u8; MAX_BYTES + 1];
    bytes[0] = 1;
    assert!(Amount::from_bytes_be(bytes).is_none());
}

#[test]
fn from_bytes_be_measures_after_leading_zeros() {
    let mut bytes = vec![0u8; 4096];
    bytes[4095] = 7;
    assert_eq!(Amount::from_bytes_be(bytes).unwrap().to_bytes_be(), vec![7]);
}
