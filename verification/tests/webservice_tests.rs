use std::sync::atomic::{AtomicU64, Ordering};
use std::sync::Arc;

use traffic_monitor::webservice::fnonce_to_fn;

#[test]
fn wrapped_callable_fires_exactly_once() {
    let hits = Arc::new(AtomicU64::new(0));
    let recorder = hits.clone();
    let mut callable = fnonce_to_fn(move |value: u64| {
        recorder.fetch_add(value, Ordering::SeqCst);
    });
    assert!(callable.func.is_some());
    callable.call(42);
    assert!(callable.func.is_none());
    assert_eq!(hits.load(Ordering::SeqCst), 42);
}
