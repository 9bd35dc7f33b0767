use simplevm::{Addressable, LinearMemory};

#[test]
fn new_memory_is_zeroed() {
    let m = LinearMemory::new(16);
    for a in 0..16u16 {
        assert_eq!(m.read(a), Some(0));
    }
}

#[test]
fn access_past_the_end_fails_without_change() {
    let mut m = LinearMemory::new(8192);
    assert_eq!(m.read(8192), None);
    assert_eq!(m.read(0xffff), None);
    assert!(!m.write(8192, 7));
    assert_eq!(m.read_word(8191), None);
    assert!(m.write(8191, 7));
    assert_eq!(m.read(8191), Some(7));
}

#[test]
fn words_are_little_endian() {
    let mut m = LinearMemory::new(32);
    assert!(m.write_word(10, 0x1234));
    assert_eq!(m.read(10), Some(0x34));
    assert_eq!(m.read(11), Some(0x12));
    assert_eq!(m.read_word(10), Some(0x1234));
    assert_eq!(m.read_word(11), Some(0x0012));
}

#[test]
fn word_write_straddling_the_end_keeps_low_byte() {
    let mut m = LinearMemory::new(4);
    assert!(!m.write_word(3, 0xabcd));
    assert_eq!(m.read(3), Some(0xcd));
    assert!(!m.write_word(4, 0xabcd));
}

#[test]
fn word_at_last_logical_address_fails() {
    let mut m = LinearMemory::new(0x10000);
    assert!(m.write(0xffff, 1));
    assert_eq!(m.read_word(0xffff), None);
    assert!(!m.write_word(0xffff, 0x0202));
    assert_eq!(m.read(0xffff), Some(0x02));
    assert_eq!(m.read(0), Some(0));
}

#[test]
fn copy_moves_bytes() {
    let mut m = LinearMemory::new(16);
    assert!(m.load_into(&[1, 2, 3], 0));
    assert!(m.copy(0, 8, 3));
    assert_eq!(m.read(8), Some(1));
    assert_eq!(m.read(9), Some(2));
    assert_eq!(m.read(10), Some(3));
}

#[test]
fn overlapping_copy_goes_forward() {
    let mut m = LinearMemory::new(8);
    assert!(m.load_into(&[1, 2, 3], 0));
    assert!(m.copy(0, 1, 3));
    assert_eq!(m.read(1), Some(1));
    assert_eq!(m.read(2), Some(1));
    assert_eq!(m.read(3), Some(1));
}

#[test]
fn failed_copy_keeps_bytes_already_moved() {
    let mut m = LinearMemory::new(8);
    assert!(m.load_into(&[5, 6, 7], 0));
    assert!(!m.copy(0, 6, 3));
    assert_eq!(m.read(6), Some(5));
    assert_eq!(m.read(7), Some(6));
}

#[test]
fn load_that_does_not_fit_keeps_prefix() {
    let mut m = LinearMemory::new(4);
    assert!(!m.load_into(&[9, 8, 7], 2));
    assert_eq!(m.read(2), Some(9));
    assert_eq!(m.read(3), Some(8));
    assert_eq!(m.read(1), Some(0));
}
