use std::cell::Cell;
use fnsql::cache::Cache;

#[test]
fn failed_prepare_is_not_cached() {
    let mut cache = Cache::new();
    let calls = Cell::new(0);
    let seen = Cell::new(0usize);
    for _ in 0..2 {
        let r = cache.prepare_typed("SELECT $1", &[23], |q: &str, t: &[u32]| {
            calls.set(calls.get() + 1);
            seen.set(q.len() + t.len());
            Err::<postgres::Statement, &str>("server down")
        });
        assert_eq!(r.err(), Some("server down"));
    }
    assert_eq!(calls.get(), 2);
    assert_eq!(seen.get(), "SELECT $1".len() + 1);
}

#[test]
fn untyped_prepare_passes_no_types() {
    let mut cache = Cache::new();
    let got = Cell::new(usize::MAX);
    let r = cache.prepare("SELECT 1", |_q: &str, t: &[u32]| {
        got.set(t.len());
        Err::<postgres::Statement, i32>(7)
    });
    assert_eq!(r.err(), Some(7));
    assert_eq!(got.get(), 0);
}
