use aict::{Error, Factory};

#[test]
fn test_factory() {
    let mut factory = Factory::<u32>::builder().build();

    assert_eq!(factory.next().unwrap(), 0);
    assert_eq!(factory.next().unwrap(), 1);
    factory.remove(1);
    assert_eq!(factory.next().unwrap(), 2);
    assert!(factory.take_up(2).is_err());
    assert!(factory.take_up(3).is_ok());
    assert!(factory.take_up(3).is_err());
    factory.remove(3);
    assert!(factory.take_up(3).is_ok());
    assert_eq!(factory.next().unwrap(), 4);
    factory.reset();
    assert_eq!(factory.next().unwrap(), 0);

    factory = Factory::<u32>::builder().initial_value(1).build();

    assert_eq!(factory.next().unwrap(), 1);
    factory.reset();
    assert_eq!(factory.next().unwrap(), 1);

    factory = Factory::<u32>::builder().initial_value(u32::MAX).build();

    assert_eq!(factory.next().unwrap(), u32::MAX);
    assert!(factory.next().is_err());

    factory = Factory::<u32>::builder()
        .initial_value(u32::MAX)
        .looping(true)
        .build();

    assert_eq!(factory.next().unwrap(), u32::MAX);
    assert_eq!(factory.next().unwrap(), u32::MIN);

    factory = Factory::<u32>::builder().rewind(true).build();

    assert_eq!(factory.next().unwrap(), 0);
    assert_eq!(factory.next().unwrap(), 1);
    factory.remove(1);
    assert_eq!(factory.next().unwrap(), 1);
    factory.remove(0);
    assert_eq!(factory.next().unwrap(), 0);
    assert_eq!(factory.next().unwrap(), 2);
    assert_eq!(factory.next().unwrap(), 3);
    factory.remove(0);
    factory.remove(1);
    assert_eq!(factory.next().unwrap(), 1);
}

#[test]
fn test_unique_ids() {
    let mut factory = Factory::<u8>::builder().build();
    let mut seen = Vec::new();
    for _ in 0..10 {
        let id = factory.next().unwrap();
        assert!(!seen.contains(&id));
        seen.push(id);
    }
    assert!(factory.take_up(100).is_ok());
    assert!(factory.take_up(100).is_err());
    for _ in 0..10 {
        let id = factory.next().unwrap();
        assert!(!seen.contains(&id));
        assert_ne!(id, 100);
        seen.push(id);
    }
}

#[test]
fn test_saturating_full_run_u8() {
    let mut factory = Factory::<u8>::builder().build();
    for expected in 0..=u8::MAX {
        assert_eq!(factory.next().unwrap(), expected);
    }
    assert!(matches!(factory.next(), Err(Error::MaxReached)));
    assert!(matches!(factory.next(), Err(Error::MaxReached)));
}

#[test]
fn test_saturating_skips_reserved() {
    let mut factory = Factory::<u32>::builder().build();
    assert!(factory.take_up(0).is_ok());
    assert!(factory.take_up(1).is_ok());
    assert!(factory.take_up(3).is_ok());
    assert_eq!(factory.next().unwrap(), 2);
    assert_eq!(factory.next().unwrap(), 4);
}

#[test]
fn test_wrap_single_free_u8() {
    let mut factory = Factory::<u8>::builder().looping(true).build();
    for v in 0..=u8::MAX {
        if v != 200 {
            assert!(factory.take_up(v).is_ok());
        }
    }
    assert_eq!(factory.next().unwrap(), 200);
    assert!(matches!(factory.next(), Err(Error::OutOfSpace)));
}

#[test]
fn test_out_of_space_leaves_state() {
    let mut factory = Factory::<u8>::builder().looping(true).build();
    for v in 0..=u8::MAX {
        assert!(factory.take_up(v).is_ok());
    }
    assert!(matches!(factory.next(), Err(Error::OutOfSpace)));
    assert!(factory.remove(77));
    assert_eq!(factory.next().unwrap(), 77);
}

#[test]
fn test_reuse_after_release() {
    let mut factory = Factory::<u8>::builder().looping(true).build();
    let a = factory.next().unwrap();
    assert_eq!(a, 0);
    assert!(factory.remove(a));
    for expected in 1..=u8::MAX {
        assert_eq!(factory.next().unwrap(), expected);
    }
    assert_eq!(factory.next().unwrap(), a);
}

#[test]
fn test_rewind_reissue() {
    let mut factory = Factory::<u16>::builder().rewind(true).build();
    assert_eq!(factory.next().unwrap(), 0);
    assert_eq!(factory.next().unwrap(), 1);
    assert_eq!(factory.next().unwrap(), 2);
    assert!(factory.remove(2));
    assert_eq!(factory.next().unwrap(), 2);
    assert!(factory.remove(1));
    assert!(factory.take_up(1).is_ok());
    assert_eq!(factory.next().unwrap(), 3);
}

#[test]
fn test_reservation_independence() {
    let mut factory = Factory::<u32>::builder().build();
    assert!(factory.take_up(5).is_ok());
    match factory.take_up(5) {
        Err(Error::AlreadyExist(v)) => assert_eq!(v, 5),
        _ => panic!("second reservation of the same ID must fail"),
    }
    assert!(factory.remove(5));
    assert!(!factory.remove(5));
}

#[test]
fn test_reset_like_fresh() {
    let mut factory = Factory::<u32>::builder().initial_value(10).looping(true).build();
    assert_eq!(factory.next().unwrap(), 10);
    assert!(factory.take_up(12).is_ok());
    assert!(factory.remove(10));
    factory.reset();
    assert_eq!(factory.next().unwrap(), 10);
    assert_eq!(factory.next().unwrap(), 11);
    assert_eq!(factory.next().unwrap(), 12);
}

#[test]
fn test_signed_domain() {
    let mut factory = Factory::<i8>::builder().build();
    assert_eq!(factory.next().unwrap(), i8::MIN);
    assert_eq!(factory.next().unwrap(), -127);
    assert!(factory.take_up(-125).is_ok());
    assert_eq!(factory.next().unwrap(), -126);
    assert_eq!(factory.next().unwrap(), -124);
}

#[test]
fn test_max_reached_when_max_free() {
    let mut factory = Factory::<u8>::builder().initial_value(u8::MAX - 1).build();
    assert!(factory.take_up(u8::MAX - 1).is_ok());
    assert!(matches!(factory.next(), Err(Error::MaxReached)));
}

#[test]
fn test_error_messages() {
    let mut factory = Factory::<u8>::builder().initial_value(u8::MAX).build();
    assert_eq!(factory.next().unwrap(), u8::MAX);
    let max_reached = factory.next().unwrap_err();
    assert_eq!(max_reached.message(), "Maximum reached");
    let already = factory.take_up(u8::MAX).unwrap_err();
    assert_eq!(already.message(), "Id already exists");
    let mut looping = Factory::<u8>::builder().looping(true).build();
    for v in 0..=u8::MAX {
        assert!(looping.take_up(v).is_ok());
    }
    let out_of_space = looping.next().unwrap_err();
    assert_eq!(out_of_space.message(), "No more id left");
}

#[test]
fn test_builder_defaults() {
    let mut built = aict::FactoryBuilder::<u16>::new().build();
    assert_eq!(built.next().unwrap(), 0);
    let mut configured = aict::FactoryBuilder::<u16>::new()
        .initial_value(7)
        .looping(false)
        .rewind(false)
        .build();
    assert_eq!(configured.next().unwrap(), 7);
}
