use easylazy::Lazy;
use std::cell::Cell;
use std::rc::Rc;

/// A computation that returns `value` and counts its runs in the cell it is
/// given.
fn counting(runs: &Rc<Cell<u32>>, value: i32) -> impl Fn() -> i32 {
    let runs = Rc::clone(runs);
    move || {
        runs.set(runs.get() + 1);
        value
    }
}

#[test]
fn get_test() {
    let mut my_lazy_variable = Lazy::new(Box::new(|| 2 + 2));
    assert_eq!(my_lazy_variable.get(), 4);
}

#[test]
fn get_mut_test() {
    let mut my_lazy_variable = Lazy::new(Box::new(|| 2 + 2));
    let value = my_lazy_variable.get_mut();
    *value = 10;
    assert_eq!(my_lazy_variable.get(), 10);
}

#[test]
fn new_does_not_run_the_computation() {
    let runs = Rc::new(Cell::new(0));
    let lazy = Lazy::new(Box::new(counting(&runs, 4)));
    assert_eq!(runs.get(), 0);
    drop(lazy);
    assert_eq!(runs.get(), 0);
}

#[test]
fn first_get_runs_the_computation_once() {
    let runs = Rc::new(Cell::new(0));
    let mut lazy = Lazy::new(Box::new(counting(&runs, 4)));
    assert_eq!(runs.get(), 0);
    assert_eq!(lazy.get(), 4);
    assert_eq!(runs.get(), 1);
    assert_eq!(lazy.get(), 4);
    assert_eq!(runs.get(), 1);
}

#[test]
fn first_get_mut_runs_the_computation_once() {
    let runs = Rc::new(Cell::new(0));
    let mut lazy = Lazy::new(Box::new(counting(&runs, 4)));
    assert_eq!(*lazy.get_mut(), 4);
    assert_eq!(runs.get(), 1);
    assert_eq!(*lazy.get_mut(), 4);
    assert_eq!(runs.get(), 1);
}

#[test]
fn get_mut_then_assign_then_get() {
    let runs = Rc::new(Cell::new(0));
    let mut lazy = Lazy::new(Box::new(counting(&runs, 4)));
    *lazy.get_mut() = 10;
    assert_eq!(lazy.get(), 10);
    assert_eq!(runs.get(), 1);
}

#[test]
fn accesses_in_any_order_compute_once() {
    let runs = Rc::new(Cell::new(0));
    let mut lazy = Lazy::new(counting(&runs, 7));
    assert_eq!(lazy.get(), 7);
    *lazy.get_mut() += 1;
    assert_eq!(lazy.get(), 8);
    assert_eq!(*lazy.get_mut(), 8);
    *lazy.get_mut() = -3;
    assert_eq!(lazy.get(), -3);
    assert_eq!(lazy.get(), -3);
    assert_eq!(runs.get(), 1);

    let runs = Rc::new(Cell::new(0));
    let mut lazy = Lazy::new(counting(&runs, 7));
    *lazy.get_mut() = 1;
    assert_eq!(lazy.get(), 1);
    assert_eq!(runs.get(), 1);
}

#[test]
fn repeated_gets_return_equal_values() {
    let mut lazy = Lazy::new(|| String::from("once"));
    let first = lazy.get();
    for _ in 0..5 {
        assert_eq!(lazy.get(), first);
    }
    assert_eq!(first, "once");
}

#[test]
fn write_is_seen_by_later_accesses() {
    let runs = Rc::new(Cell::new(0));
    let mut lazy = Lazy::new(counting(&runs, 4));
    assert_eq!(lazy.get(), 4);
    *lazy.get_mut() = 10;
    assert_eq!(lazy.get(), 10);
    assert_eq!(*lazy.get_mut(), 10);
    assert_eq!(lazy.get(), 10);
    assert_eq!(runs.get(), 1);
}

#[test]
fn results_are_independent_duplicates() {
    let mut lazy = Lazy::new(|| vec![1, 2, 3]);
    let mut first = lazy.get();
    first.push(4);
    first[0] = 100;
    assert_eq!(first, vec![100, 2, 3, 4]);
    let second = lazy.get();
    assert_eq!(second, vec![1, 2, 3]);
    assert_eq!(*lazy.get_mut(), vec![1, 2, 3]);
    drop(second);
    assert_eq!(lazy.get(), vec![1, 2, 3]);
}

#[test]
fn get_mut_edits_in_place() {
    let mut lazy = Lazy::new(|| vec![1, 2, 3]);
    lazy.get_mut().push(4);
    lazy.get_mut()[0] = 0;
    assert_eq!(lazy.get(), vec![0, 2, 3, 4]);
}

#[test]
fn get_returns_what_the_computation_returned() {
    let base = 20;
    let mut lazy = Lazy::new(move || base * 2 + 2);
    assert_eq!(lazy.get(), 42);
    let mut unit = Lazy::new(|| ());
    assert_eq!(unit.get(), ());
}

#[test]
fn type_erased_computation() {
    let boxed: Box<dyn Fn() -> u8> = Box::new(|| 10);
    let mut lazy: Lazy<u8, Box<dyn Fn() -> u8>> = Lazy::new(boxed);
    assert_eq!(lazy.get(), 10);
    *lazy.get_mut() = 42;
    assert_eq!(lazy.get(), 42);
}
