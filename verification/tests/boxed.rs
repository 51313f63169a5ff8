use runtime::boxed::Boxed;
use runtime::pages::Prot;
use runtime::types::rand::Randomized;

#[test]
fn boxed_zeroize() {
    let mut boxed = Boxed::<u8>::random(4);
    boxed.unlock();
    assert_ne!(boxed.allocated_bytes(), [0u8; 4]);
    boxed.lock();

    boxed.zeroize();

    boxed.unlock();
    assert_eq!(boxed.allocated_bytes(), [0u8; 4]);
    boxed.lock();
}

#[test]
fn test_custom_init() {
    let mut boxed = Boxed::<u8>::new(1, |mut secret: Boxed<u8>| {
        secret.as_mut_slice().copy_from_slice(b"\x04");
        secret
    });

    assert_eq!(boxed.unlock().as_slice(), [0x04]);
    boxed.lock();
}

#[test]
fn test_init_with_zero() {
    let mut boxed = Boxed::<u8>::zero(6);

    assert_eq!(boxed.unlock().as_slice(), [0, 0, 0, 0, 0, 0]);

    boxed.lock();
}

#[test]
fn test_init_with_values() {
    let mut value = [8u64];
    let mut boxed = Boxed::from_mut_slice(&mut value[..]);

    assert_eq!(value, [0]);
    assert_eq!(boxed.unlock().as_ref(), 8);
    assert_eq!(boxed.as_slice(), 8u64.to_le_bytes());

    boxed.lock();
}

#[test]
fn from_mut_value_wipes_source() {
    let mut value = 0x0102u16;
    let mut boxed = Boxed::<u16>::from_mut_value(&mut value);
    assert_eq!(value, 0);
    assert_eq!(boxed.unlock().as_ref(), 0x0102);
    boxed.lock();
}

#[test]
fn large_box_is_not_locked_in_memory() {
    let mut boxed = Boxed::<u8>::zero(64 * 1024 * 1024);
    assert_eq!(boxed.size(), 64 * 1024 * 1024);
    let _ = boxed.unlock_mut();
    boxed.as_mut_slice()[12345] = 7;
    boxed.lock();
    assert_eq!(boxed.unlock().as_slice()[12345], 7);
    boxed.lock();
}

#[test]
fn read_borrow_can_become_write_pages() {
    let mut boxed = Boxed::<u8>::zero(2);
    let _ = boxed.unlock();
    assert_eq!(boxed.protection(), Prot::ReadOnly);
    boxed.lock();
    let _ = boxed.unlock_mut();
    assert_eq!(boxed.protection(), Prot::ReadWrite);
    boxed.lock();
}

#[test]
fn test_eq() {
    let mut boxed_a = Boxed::<u8>::random(1);
    let mut boxed_b = boxed_a.clone();

    assert!(boxed_a.eq(&mut boxed_b));
    assert!(boxed_b.eq(&mut boxed_a));

    let mut boxed_a = Boxed::<u8>::random(16);
    let mut boxed_b = Boxed::<u8>::random(16);

    assert!(!boxed_a.eq(&mut boxed_b));
    assert!(!boxed_b.eq(&mut boxed_a));

    let mut boxed_b = Boxed::<u8>::random(12);

    assert!(!boxed_a.eq(&mut boxed_b));
    assert!(!boxed_b.eq(&mut boxed_a));
}

#[test]
fn test_refs() {
    let mut boxed = Boxed::<u8>::zero(8);

    assert_eq!(0, boxed.refs());

    let _ = boxed.unlock();
    let _ = boxed.unlock();

    assert_eq!(2, boxed.refs());

    boxed.lock();
    boxed.lock();

    assert_eq!(0, boxed.refs());

    let _ = boxed.unlock_mut();

    assert_eq!(1, boxed.refs());

    boxed.lock();

    assert_eq!(0, boxed.refs());
}

#[test]
fn test_ref_overflow() {
    let mut boxed = Boxed::<u8>::zero(8);

    for _ in 0..u8::MAX {
        let _ = boxed.unlock();
    }

    for _ in 0..u8::MAX {
        boxed.lock()
    }
}

#[test]
fn test_random_borrow_amounts() {
    let mut boxed = Boxed::<u8>::zero(1);
    let mut counter = 0u8;

    counter.randomize();

    for _ in 0..counter {
        let _ = boxed.unlock();
    }

    for _ in 0..counter {
        boxed.lock()
    }
}

#[test]
fn unlock_lock_restores_protection() {
    let mut boxed = Boxed::<u32>::zero(3);
    assert_eq!(boxed.protection(), Prot::NoAccess);
    assert!(boxed.is_locked());
    let _ = boxed.unlock();
    assert_eq!(boxed.protection(), Prot::ReadOnly);
    assert!(!boxed.is_locked());
    boxed.lock();
    assert_eq!(boxed.protection(), Prot::NoAccess);
    assert_eq!(boxed.refs(), 0);
    let _ = boxed.unlock_mut();
    assert_eq!(boxed.protection(), Prot::ReadWrite);
    boxed.lock();
    assert_eq!(boxed.protection(), Prot::NoAccess);
}

#[test]
fn size_counts_bytes() {
    let boxed = Boxed::<u64>::zero(5);
    assert_eq!(boxed.len(), 5);
    assert_eq!(boxed.size(), 40);
    assert!(!boxed.is_empty());
    let empty = Boxed::<u16>::zero(0);
    assert!(empty.is_empty());
    assert_eq!(empty.size(), 0);
}

#[test]
fn describe_hides_values() {
    let boxed = Boxed::<u8>::random(16);
    assert_eq!(boxed.describe(), "{ size: 16, hidden }");
    let boxed = Boxed::<u32>::zero(3);
    assert_eq!(boxed.describe(), "{ size: 12, hidden }");
    let boxed = Boxed::<u8>::zero(0);
    assert_eq!(boxed.describe(), "{ size: 0, hidden }");
}

#[test]
fn write_then_read_back() {
    let mut boxed = Boxed::<u8>::zero(4);
    boxed.unlock_mut().as_mut_slice().copy_from_slice(&[1, 2, 3, 4]);
    boxed.lock();
    assert_eq!(boxed.unlock().as_slice(), [1, 2, 3, 4]);
    boxed.lock();
    let mut copy = boxed.clone();
    assert_eq!(copy.unlock().as_slice(), [1, 2, 3, 4]);
    copy.lock();
    assert!(copy.eq(&mut boxed));
}

#[test]
fn eq_compares_values() {
    let mut a = Boxed::<u8>::from_mut_slice(&mut [1u8, 2, 3]);
    let mut b = Boxed::<u8>::from_mut_slice(&mut [1u8, 2, 3]);
    let mut c = Boxed::<u8>::from_mut_slice(&mut [1u8, 2, 4]);
    assert!(a.eq(&mut b));
    assert!(!a.eq(&mut c));
    assert_eq!(a.refs(), 0);
    assert_eq!(c.refs(), 0);
    let _ = a.unlock();
    assert!(a.eq(&mut b));
    assert_eq!(a.refs(), 1);
    a.lock();
}

#[test]
fn from_mut_slice_wipes_source() {
    let mut source = [0x0809u16, 0x0607];
    let mut boxed = Boxed::<u16>::from_mut_slice(&mut source);
    assert_eq!(source, [0, 0]);
    assert_eq!(boxed.len(), 2);
    assert_eq!(boxed.unlock().as_slice(), [9, 8, 7, 6]);
    assert_eq!(boxed.as_ref(), 0x0809);
    boxed.lock();
}

#[test]
fn as_mut_writes_first_value() {
    let mut boxed = Boxed::<u32>::zero(2);
    boxed.unlock_mut().as_mut().copy_from_slice(&7u32.to_le_bytes());
    boxed.lock();
    assert_eq!(boxed.unlock().as_ref(), 7);
    assert_eq!(boxed.as_slice(), [7, 0, 0, 0, 0, 0, 0, 0]);
    boxed.lock();
}

#[test]
fn zeroize_wipes_values() {
    let mut boxed = Boxed::<u8>::from_mut_slice(&mut [5u8, 5, 5]);
    boxed.zeroize();
    assert!(boxed.is_empty());
    assert!(boxed.is_locked());
    assert_eq!(boxed.refs(), 0);
}

#[test]
fn try_new_keeps_box_on_ok() {
    let res: Result<Boxed<u8>, &str> = Boxed::<u8>::try_new(2, |mut b: Boxed<u8>| {
        b.as_mut_slice().copy_from_slice(&[3, 4]);
        (b, Ok(()))
    });
    let mut boxed = res.unwrap();
    assert!(boxed.is_locked());
    assert_eq!(boxed.unlock().as_slice(), [3, 4]);
    boxed.lock();
}

#[test]
fn try_new_returns_error() {
    let res: Result<Boxed<u8>, &str> =
        Boxed::<u8>::try_new(2, |b: Boxed<u8>| (b, Err::<(), &str>("refused")));
    assert_eq!(res.err(), Some("refused"));
}
