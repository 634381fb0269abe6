use harmony::time::Instant;
use harmony::sync::{AtomicCell, AtomicLazyCell};

#[test]
fn atomic_cell_set_get_replace() {
    let mut cell = AtomicCell::new(5u32);
    assert_eq!(cell.get(), 5);
    cell.set(7);
    assert_eq!(cell.get(), 7);
    assert_eq!(cell.replace(9), 7);
    assert_eq!(cell.get(), 9);
    assert_eq!(cell.get_cloned(), 9);
}

#[test]
fn lazy_cell_computes_once() {
    let mut cell = AtomicLazyCell::new(|| 10u32);
    assert_eq!(*cell.get(), 10);
    assert_eq!(*cell.get(), 10);
    *cell.get_mut() = 11;
    assert_eq!(*cell.get(), 11);
}

#[test]
fn instants_count_ticks_forward_only() {
    let start = Instant::from_tick(100);
    assert_eq!(start.elapsed(Instant::from_tick(160)), 60);
    assert_eq!(start.elapsed(Instant::from_tick(100)), 0);
    assert_eq!(start.elapsed(Instant::from_tick(40)), 0);
    assert_eq!(start.tick(), 100);
}
