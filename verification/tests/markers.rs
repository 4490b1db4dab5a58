use easylazy::Lazy;
use std::sync::atomic::{AtomicUsize, Ordering};
use std::sync::{Arc, Mutex};

fn wants_send<X: Send>(x: X) -> X {
    x
}

fn wants_sync<X: Sync>(x: &X) -> &X {
    x
}

#[test]
fn lazy_is_send_and_sync_when_its_parts_are() {
    let runs = Arc::new(AtomicUsize::new(0));
    let counter = Arc::clone(&runs);
    let lazy = Lazy::new(move || {
        counter.fetch_add(1, Ordering::SeqCst);
        4u64
    });
    let lazy = wants_send(lazy);
    wants_sync(&lazy);
    assert_eq!(runs.load(Ordering::SeqCst), 0);

    let shared = Mutex::new(lazy);
    assert_eq!(shared.lock().unwrap().get(), 4);
    *shared.lock().unwrap().get_mut() = 9;
    assert_eq!(shared.lock().unwrap().get(), 9);
    assert_eq!(runs.load(Ordering::SeqCst), 1);
}
