use ftkit::{OnceCell, Tag};
use std::cell::Cell;

#[test]
fn producer_runs_exactly_once_across_repeated_calls() {
    let mut cell: OnceCell<u64> = OnceCell::new();
    let calls = Cell::new(0u32);
    for _ in 0..10_000 {
        let v = *cell.get_or_init(|| {
            calls.set(calls.get() + 1);
            42
        });
        assert_eq!(v, 42);
    }
    assert_eq!(calls.get(), 1);
}

#[test]
fn eight_callers_observe_the_same_value() {
    let mut cell: OnceCell<i32> = OnceCell::new();
    let calls = Cell::new(0u32);
    let mut seen: Vec<i32> = Vec::new();
    for _ in 0..8 {
        let v = *cell.get_or_init(|| {
            calls.set(calls.get() + 1);
            42
        });
        seen.push(v);
    }
    assert_eq!(seen, vec![42; 8]);
    assert_eq!(calls.get(), 1);
}

#[test]
fn aborted_producer_leaves_cell_retryable() {
    let mut cell: OnceCell<i32> = OnceCell::new();
    let calls = Cell::new(0u32);
    let first: Result<&i32, &str> = cell.get_or_try_init(|| {
        calls.set(calls.get() + 1);
        Err("abort")
    });
    assert!(first.is_err());
    assert_eq!(cell.tag(), Tag::Uninit);
    let second: Result<&i32, &str> = cell.get_or_try_init(|| {
        calls.set(calls.get() + 1);
        Ok(7)
    });
    assert_eq!(second.unwrap(), &7);
    assert_eq!(cell.tag(), Tag::Ready);
    assert_eq!(calls.get(), 2);
    let later = *cell.get_or_init(|| -> i32 { unreachable!() });
    assert_eq!(later, 7);
    assert_eq!(calls.get(), 2);
}

#[test]
fn state_sequence_through_abort_and_retry() {
    let mut cell: OnceCell<i32> = OnceCell::new();
    assert_eq!(cell.tag(), Tag::Uninit);
    assert!(cell.try_claim());
    assert_eq!(cell.tag(), Tag::InProgress);
    cell.rollback();
    assert_eq!(cell.tag(), Tag::Uninit);
    assert!(cell.try_claim());
    assert_eq!(cell.tag(), Tag::InProgress);
    cell.publish(7);
    assert_eq!(cell.tag(), Tag::Ready);
    assert_eq!(cell.get(), Some(&7));
    assert!(!cell.try_claim());
    assert_eq!(cell.tag(), Tag::Ready);
}

#[test]
fn multi_field_value_is_never_observed_torn() {
    let mut cell: OnceCell<(u64, u64, u64)> = OnceCell::new();
    assert_eq!(cell.get(), None);
    let v = *cell.get_or_init(|| (
        0x0101010101010101,
        0x0202020202020202,
        0x0303030303030303,
    ));
    assert_eq!(v.0, 0x0101010101010101);
    assert_eq!(v.1, 0x0202020202020202);
    assert_eq!(v.2, 0x0303030303030303);
    for _ in 0..100 {
        let w = cell.get().unwrap();
        assert_eq!(w.1, 2 * w.0);
        assert_eq!(w.2, 3 * w.0);
    }
}

#[test]
fn get_sees_nothing_before_publication() {
    let mut cell: OnceCell<String> = OnceCell::new();
    assert_eq!(cell.get(), None);
    assert!(cell.try_claim());
    assert_eq!(cell.get(), None);
    cell.publish(String::from("ready"));
    assert_eq!(cell.get(), Some(&String::from("ready")));
}
