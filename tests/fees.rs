use fee_race::fees::{array_of_fees, build_attempt, generate_fee_variants, FeeVariant};

#[test]
fn fee_variants_count_and_prices() {
    let v = generate_fee_variants(4, 10000);
    assert_eq!(v.len(), 4);
    for (i, f) in v.iter().enumerate() {
        assert_eq!(*f, FeeVariant { index: i as u64, price: 10000 + i as u64 });
    }
    for w in v.windows(2) {
        assert!(w[0].price < w[1].price);
    }
}

#[test]
fn fee_variants_empty() {
    assert!(generate_fee_variants(0, 10000).is_empty());
}

#[test]
fn fee_variants_reach_largest_price() {
    let v = generate_fee_variants(2, u64::MAX - 1);
    assert_eq!(v[1].price, u64::MAX);
}

#[test]
fn fee_instructions_encode_each_price() {
    let ixs = array_of_fees(3, 0x0102);
    assert_eq!(ixs.len(), 3);
    for (i, ix) in ixs.iter().enumerate() {
        let mut expected = vec![3u8];
        expected.extend_from_slice(&(0x0102u64 + i as u64).to_le_bytes());
        assert_eq!(ix.data, expected);
        assert!(ix.accounts.is_empty());
    }
}

#[test]
fn attempt_appends_fee_instruction() {
    let prefix = array_of_fees(2, 7);
    let fee = array_of_fees(1, 99).pop().unwrap();
    let ixs = build_attempt(prefix.clone(), fee.clone());
    assert_eq!(ixs.len(), 3);
    assert_eq!(ixs[..2], prefix[..]);
    assert_eq!(ixs[2], fee);
}
