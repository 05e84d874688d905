use usb_log::log_buffer::LogBufferInner;

fn drain<const N: usize>(b: &mut LogBufferInner<N>) -> Vec<u8> {
    let mut out = Vec::new();
    while let Some(byte) = b.read() {
        out.push(byte);
    }
    out
}

#[test]
fn new_buffer_is_empty() {
    let mut b: LogBufferInner<8> = LogBufferInner::new();
    assert!(b.is_empty());
    assert_eq!(b.read(), None);
    assert!(b.is_empty());
}

#[test]
fn bytes_come_back_in_the_order_written() {
    let mut b: LogBufferInner<8> = LogBufferInner::new();
    for byte in [10u8, 20, 30, 40, 50] {
        assert_eq!(b.write(byte), Ok(()));
    }
    assert!(!b.is_empty());
    assert_eq!(b.read(), Some(10));
    assert_eq!(b.read(), Some(20));
    assert_eq!(b.write(60), Ok(()));
    assert_eq!(drain(&mut b), vec![30, 40, 50, 60]);
    assert!(b.is_empty());
}

#[test]
fn capacity_is_one_less_than_the_slots() {
    let mut b: LogBufferInner<4> = LogBufferInner::new();
    assert_eq!(b.write(1), Ok(()));
    assert_eq!(b.write(2), Ok(()));
    assert_eq!(b.write(3), Ok(()));
    assert_eq!(b.write(4), Err(()));
    assert_eq!(drain(&mut b), vec![1, 2, 3]);
}

#[test]
fn write_to_full_buffer_changes_nothing() {
    let mut b: LogBufferInner<4> = LogBufferInner::new();
    for byte in [1u8, 2, 3] {
        assert_eq!(b.write(byte), Ok(()));
    }
    assert_eq!(b.write(9), Err(()));
    assert_eq!(b.write(9), Err(()));
    assert!(!b.is_empty());
    assert_eq!(drain(&mut b), vec![1, 2, 3]);
}

#[test]
fn read_then_write_refills_a_full_buffer() {
    let mut b: LogBufferInner<4> = LogBufferInner::new();
    for byte in [1u8, 2, 3] {
        assert_eq!(b.write(byte), Ok(()));
    }
    assert_eq!(b.write(4), Err(()));
    assert_eq!(b.read(), Some(1));
    assert_eq!(b.write(4), Ok(()));
    assert_eq!(b.write(5), Err(()));
    assert_eq!(drain(&mut b), vec![2, 3, 4]);
}

#[test]
fn cursors_wrap_around_the_storage() {
    let mut b: LogBufferInner<4> = LogBufferInner::new();
    let mut next: u8 = 0;
    let mut expected: u8 = 0;
    for _ in 0..50 {
        assert_eq!(b.write(next), Ok(()));
        next += 1;
        assert_eq!(b.write(next), Ok(()));
        next += 1;
        assert_eq!(b.read(), Some(expected));
        expected += 1;
        assert_eq!(b.read(), Some(expected));
        expected += 1;
        assert!(b.is_empty());
    }
}

#[test]
fn occupancy_never_exceeds_capacity() {
    let mut b: LogBufferInner<5> = LogBufferInner::new();
    let mut queued: usize = 0;
    for round in 0..200u32 {
        let byte = (round % 251) as u8;
        if round % 3 == 2 {
            if b.read().is_some() {
                queued -= 1;
            }
        } else if b.write(byte).is_ok() {
            queued += 1;
        }
        assert!(queued <= 4);
        assert_eq!(b.is_empty(), queued == 0);
    }
    assert_eq!(queued, 4);
}

#[test]
fn buffer_of_one_slot_holds_nothing() {
    let mut b: LogBufferInner<1> = LogBufferInner::new();
    assert_eq!(b.write(1), Err(()));
    assert!(b.is_empty());
    assert_eq!(b.read(), None);
}

#[test]
fn buffer_without_slots_holds_nothing() {
    let mut b: LogBufferInner<0> = LogBufferInner::new();
    assert_eq!(b.write(1), Err(()));
    assert!(b.is_empty());
    assert_eq!(b.read(), None);
}

#[test]
fn inc_mod_n_wraps_at_the_end() {
    assert_eq!(LogBufferInner::<4>::inc_mod_n(0), 1);
    assert_eq!(LogBufferInner::<4>::inc_mod_n(2), 3);
    assert_eq!(LogBufferInner::<4>::inc_mod_n(3), 0);
    assert_eq!(LogBufferInner::<4>::inc_mod_n(7), 0);
    assert_eq!(LogBufferInner::<4>::inc_mod_n(usize::MAX), 0);
    assert_eq!(LogBufferInner::<1>::inc_mod_n(0), 0);
    assert_eq!(LogBufferInner::<0>::inc_mod_n(0), 0);
}

#[test]
fn write_bytes_queues_what_fits() {
    let mut b: LogBufferInner<8> = LogBufferInner::new();
    b.write_bytes(&[1, 2, 3]);
    b.write_bytes(&[]);
    b.write_bytes(&[4, 5, 6, 7, 8, 9]);
    b.write_bytes(&[10]);
    assert_eq!(drain(&mut b), vec![1, 2, 3, 4, 5, 6, 7]);
}

#[test]
fn write_str_queues_utf8_bytes() {
    let mut b: LogBufferInner<16> = LogBufferInner::new();
    assert!(b.write_str("a\u{e9}z").is_ok());
    assert_eq!(drain(&mut b), vec![0x61, 0xc3, 0xa9, 0x7a]);
}

#[test]
fn write_str_drops_what_does_not_fit() {
    let mut b: LogBufferInner<4> = LogBufferInner::new();
    assert!(b.write_str("hello").is_ok());
    assert_eq!(drain(&mut b), b"hel".to_vec());
}

#[test]
fn write_str_is_ok_also_on_a_full_buffer() {
    let mut b: LogBufferInner<4> = LogBufferInner::new();
    assert!(b.write_str("abc").is_ok());
    assert!(b.write_str("def").is_ok());
    assert!(b.write_str("").is_ok());
    assert_eq!(drain(&mut b), b"abc".to_vec());
}

#[test]
fn write_decimal_renders_digits() {
    for (n, text) in [
        (0u32, "0"),
        (7, "7"),
        (10, "10"),
        (42, "42"),
        (100, "100"),
        (1234567890, "1234567890"),
        (u32::MAX, "4294967295"),
    ] {
        let mut b: LogBufferInner<16> = LogBufferInner::new();
        b.write_decimal(n);
        assert_eq!(drain(&mut b), text.as_bytes().to_vec());
    }
}

#[test]
fn write_decimal_drops_digits_that_do_not_fit() {
    let mut b: LogBufferInner<4> = LogBufferInner::new();
    b.write_decimal(12345);
    assert_eq!(drain(&mut b), b"123".to_vec());
}
