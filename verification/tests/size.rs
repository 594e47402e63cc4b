use parallel_disk_usage::size::{Blocks, Bytes, Size};

#[test]
fn bytes_add_is_exact_until_it_saturates() {
    assert_eq!(Bytes::new(2).add(Bytes::new(3)), Bytes::new(5));
    assert_eq!(Bytes::new(u64::MAX).add(Bytes::new(1)), Bytes::new(u64::MAX));
    assert_eq!(Bytes::zero(), Bytes::new(0));
    assert_eq!(Bytes::new(7).add(Bytes::zero()), Bytes::new(7));
}

#[test]
fn sizes_order_by_value() {
    assert!(Bytes::new(2).le(Bytes::new(3)));
    assert!(Bytes::new(3).le(Bytes::new(3)));
    assert!(!Bytes::new(4).le(Bytes::new(3)));
    assert!(Blocks::new(1).le(Blocks::new(2)));
    assert_eq!(Blocks::new(9).value(), 9);
    assert_eq!(Bytes::new(9).inner(), 9);
}
