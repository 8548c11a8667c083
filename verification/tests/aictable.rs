use aict::Aictable;

#[test]
fn test_aictable_i8() {
    let mut num = i8::initial();
    assert_eq!(num, i8::MIN);
    assert!(!num.is_max_reached());

    num = i8::MAX;
    assert!(num.is_max_reached());
    assert_eq!(num.saturating_next(), i8::MAX);
    assert_eq!(num.wrapping_next(), i8::MIN);
}

#[test]
fn test_aictable_i16() {
    let mut num = i16::initial();
    assert_eq!(num, i16::MIN);
    assert!(!num.is_max_reached());

    num = i16::MAX;
    assert!(num.is_max_reached());
    assert_eq!(num.saturating_next(), i16::MAX);
    assert_eq!(num.wrapping_next(), i16::MIN);
}

#[test]
fn test_aictable_i32() {
    let mut num = i32::initial();
    assert_eq!(num, i32::MIN);
    assert!(!num.is_max_reached());

    num = i32::MAX;
    assert!(num.is_max_reached());
    assert_eq!(num.saturating_next(), i32::MAX);
    assert_eq!(num.wrapping_next(), i32::MIN);
}

#[test]
fn test_aictable_i64() {
    let mut num = i64::initial();
    assert_eq!(num, i64::MIN);
    assert!(!num.is_max_reached());

    num = i64::MAX;
    assert!(num.is_max_reached());
    assert_eq!(num.saturating_next(), i64::MAX);
    assert_eq!(num.wrapping_next(), i64::MIN);
}

#[test]
fn test_aictable_isize() {
    let mut num = isize::initial();
    assert_eq!(num, isize::MIN);
    assert!(!num.is_max_reached());

    num = isize::MAX;
    assert!(num.is_max_reached());
    assert_eq!(num.saturating_next(), isize::MAX);
    assert_eq!(num.wrapping_next(), isize::MIN);
}

#[test]
fn test_aictable_u8() {
    let mut num = u8::initial();
    assert_eq!(num, u8::MIN);
    assert!(!num.is_max_reached());

    num = u8::MAX;
    assert!(num.is_max_reached());
    assert_eq!(num.saturating_next(), u8::MAX);
    assert_eq!(num.wrapping_next(), u8::MIN);
}

#[test]
fn test_aictable_u16() {
    let mut num = u16::initial();
    assert_eq!(num, u16::MIN);
    assert!(!num.is_max_reached());

    num = u16::MAX;
    assert!(num.is_max_reached());
    assert_eq!(num.saturating_next(), u16::MAX);
    assert_eq!(num.wrapping_next(), u16::MIN);
}

#[test]
fn test_aictable_u32() {
    let mut num = u32::initial();
    assert_eq!(num, u32::MIN);
    assert!(!num.is_max_reached());

    num = u32::MAX;
    assert!(num.is_max_reached());
    assert_eq!(num.saturating_next(), u32::MAX);
    assert_eq!(num.wrapping_next(), u32::MIN);
}

#[test]
fn test_aictable_u64() {
    let mut num = u64::initial();
    assert_eq!(num, u64::MIN);
    assert!(!num.is_max_reached());

    num = u64::MAX;
    assert!(num.is_max_reached());
    assert_eq!(num.saturating_next(), u64::MAX);
    assert_eq!(num.wrapping_next(), u64::MIN);
}

#[test]
fn test_aictable_usize() {
    let mut num = usize::initial();
    assert_eq!(num, usize::MIN);
    assert!(!num.is_max_reached());

    num = usize::MAX;
    assert!(num.is_max_reached());
    assert_eq!(num.saturating_next(), usize::MAX);
    assert_eq!(num.wrapping_next(), usize::MIN);
}
