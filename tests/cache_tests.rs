use minigrep::cache::Cacher;

#[test]
fn cacher_keeps_first_result() {
    let mut c = Cacher::new(|n| n * 2);
    assert_eq!(10, c.value(5));
    assert_eq!(10, c.value(7));
}

#[test]
fn cacher_runs_calculation_once() {
    let calls = std::cell::Cell::new(0u32);
    let mut c = Cacher::new(|n| {
        calls.set(calls.get() + 1);
        n + 1
    });
    assert_eq!(4, c.value(3));
    assert_eq!(4, c.value(3));
    assert_eq!(1, calls.get());
}
