use frost_threshold::handles::Registry;

#[test]
fn into_boxed_handle_issues_distinct_live_handles() {
    let mut reg: Registry<String> = Registry::new();
    let h1 = reg.into_boxed_handle("round one state".to_string());
    let h2 = reg.into_boxed_handle("commitment shares".to_string());
    assert_ne!(h1, h2);
    assert_eq!(reg.resolve(h1).unwrap(), "round one state");
    assert_eq!(reg.resolve(h2).unwrap(), "commitment shares");
}

#[test]
fn from_handle_moves_the_value_out_once() {
    let mut reg: Registry<u64> = Registry::new();
    let h = reg.into_boxed_handle(7);
    assert_eq!(reg.from_handle(h), Some(7));
    assert_eq!(reg.from_handle(h), None);
    assert!(reg.resolve(h).is_none());
}

#[test]
fn drop_handle_is_observable_not_undefined() {
    let mut reg: Registry<Vec<u8>> = Registry::new();
    let h = reg.into_boxed_handle(vec![1, 2, 3]);
    assert!(reg.drop_handle(h));
    assert!(!reg.drop_handle(h));
    assert!(reg.resolve(h).is_none());
}

#[test]
fn unknown_handles_are_refused() {
    let mut reg: Registry<u8> = Registry::new();
    assert!(reg.resolve(5).is_none());
    assert!(reg.resolve(-1).is_none());
    assert_eq!(reg.from_handle(42), None);
    assert!(!reg.drop_handle(0));
}

#[test]
fn handles_are_not_reused_after_release() {
    let mut reg: Registry<u32> = Registry::new();
    let h1 = reg.into_boxed_handle(10);
    assert!(reg.drop_handle(h1));
    let h2 = reg.into_boxed_handle(20);
    assert_ne!(h1, h2);
    assert!(reg.resolve(h1).is_none());
    assert_eq!(reg.resolve(h2), Some(&20));
}
