//! Behavioural tests for the thread-sharing publisher variant.

use pubserve::shared::Handle;
use pubserve::shared::Publisher;
use pubserve::shared::Subscriber;
use std::sync::Mutex;

struct Counter {
    count: Mutex<i32>,
}

impl Subscriber<i32> for Counter {
    fn update(&self, message: &i32) {
        let mut guard = self.count.lock().unwrap();
        *guard += *message;
    }
}

#[test]
fn test_shared_publisher_delivers() {
    let mut publisher = Publisher::<i32, Counter>::new();
    let h = Handle::new(1, Counter { count: Mutex::new(0) });
    publisher.subscribe(h.clone());
    publisher.publish(40);
    publisher.publish(2);
    assert_eq!(*h.get().count.lock().unwrap(), 42);
    publisher.unsubscribe(h.clone());
    publisher.publish(100);
    assert_eq!(*h.get().count.lock().unwrap(), 42);
}

#[test]
fn test_shared_publisher_clone_independent() {
    let mut publisher = Publisher::<i32, Counter>::new();
    let h = Handle::new(1, Counter { count: Mutex::new(0) });
    publisher.subscribe(h.clone());
    let duplicate = publisher.clone();
    drop(publisher);
    duplicate.publish(5);
    assert_eq!(*h.get().count.lock().unwrap(), 5);
}
