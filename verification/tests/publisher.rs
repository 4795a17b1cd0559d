//! Behavioural tests for the single-owner publisher variant.

use pubserve::Handle;
use pubserve::Publisher;
use pubserve::Subscriber;
use std::cell::RefCell;
use std::rc::Rc;

struct MySubscriber;

impl Subscriber<String> for MySubscriber {
    fn update(&self, message: &String) {
        println!("Received this message: {}", message);
    }
}

struct Accumulator {
    seen: RefCell<Vec<i32>>,
}

impl Subscriber<i32> for Accumulator {
    fn update(&self, message: &i32) {
        self.seen.borrow_mut().push(*message);
    }
}

struct Tagger {
    tag: i32,
    log: Rc<RefCell<Vec<i32>>>,
}

impl Subscriber<u8> for Tagger {
    fn update(&self, _message: &u8) {
        self.log.borrow_mut().push(self.tag);
    }
}

#[test]
fn test_publisher() {
    let mut publisher = Publisher::<String, MySubscriber>::new();
    let subscriber = MySubscriber;
    let subscriber = Handle::new(1, subscriber);
    publisher.subscribe(subscriber.clone());
    publisher.publish("Hello, World!".to_string());
    publisher.unsubscribe(subscriber);
    publisher.publish("Hello, World!".to_string());
}

#[test]
fn test_clone() {
    let mut publisher = Publisher::<i32, Accumulator>::new();
    let shared = Handle::new(1, Accumulator { seen: RefCell::new(Vec::new()) });
    publisher.subscribe(shared.clone());
    publisher.publish(42);
    assert!(shared.get().seen.borrow().contains(&42));
    // Cloning the publisher, then dropping the original, must still allow the
    // subscriber to receive messages.
    let publisher_clone = publisher.clone();
    drop(publisher);
    publisher_clone.publish(43);
    assert!(shared.get().seen.borrow().contains(&43));
}

#[test]
fn test_accumulator_unsubscribe() {
    let mut publisher = Publisher::<i32, Accumulator>::new();
    let a = Handle::new(1, Accumulator { seen: RefCell::new(Vec::new()) });
    publisher.subscribe(a.clone());
    publisher.publish(42);
    assert!(a.get().seen.borrow().contains(&42));
    publisher.unsubscribe(a.clone());
    publisher.publish(43);
    assert!(!a.get().seen.borrow().contains(&43));
}

#[test]
fn test_foreign_unsubscribe_is_noop() {
    let mut publisher = Publisher::<i32, Accumulator>::new();
    let a = Handle::new(1, Accumulator { seen: RefCell::new(Vec::new()) });
    publisher.subscribe(a.clone());
    // A fresh handle of equal contents but a different identity matches
    // nothing; delivery to the registered subscriber is unaffected.
    let stranger = Handle::new(2, Accumulator { seen: RefCell::new(Vec::new()) });
    publisher.unsubscribe(stranger);
    assert!(publisher.has_subscribers());
    publisher.publish(7);
    assert_eq!(a.get().seen.borrow().as_slice(), &[7]);
}

#[test]
fn test_double_registration_receives_twice() {
    let mut publisher = Publisher::<i32, Accumulator>::new();
    let a = Handle::new(1, Accumulator { seen: RefCell::new(Vec::new()) });
    publisher.subscribe(a.clone());
    publisher.subscribe(a.clone());
    publisher.publish(9);
    assert_eq!(a.get().seen.borrow().as_slice(), &[9, 9]);
    // Unsubscribing removes every registration of the handle at once.
    publisher.unsubscribe(a.clone());
    assert!(!publisher.has_subscribers());
    publisher.publish(10);
    assert_eq!(a.get().seen.borrow().as_slice(), &[9, 9]);
}

#[test]
fn test_delivery_order() {
    let mut publisher = Publisher::<u8, Tagger>::new();
    let log = Rc::new(RefCell::new(Vec::new()));
    publisher.subscribe(Handle::new(1, Tagger { tag: 1, log: log.clone() }));
    publisher.subscribe(Handle::new(2, Tagger { tag: 2, log: log.clone() }));
    assert_eq!(publisher.len(), 2);
    publisher.publish(0);
    // Both subscribers were invoked before publish returned, in registration
    // order, once per registration.
    assert_eq!(log.borrow().as_slice(), &[1, 2]);
    publisher.publish(0);
    assert_eq!(log.borrow().as_slice(), &[1, 2, 1, 2]);
}

#[test]
fn test_has_subscribers_lifecycle() {
    let empty = Publisher::<u8, Tagger>::default();
    assert!(!empty.has_subscribers());
    let mut publisher = Publisher::<u8, Tagger>::new();
    assert!(!publisher.has_subscribers());
    // Publishing with no subscribers is a no-op.
    publisher.publish(1);
    let log = Rc::new(RefCell::new(Vec::new()));
    let h = Handle::new(5, Tagger { tag: 5, log: log.clone() });
    publisher.subscribe(h.clone());
    assert!(publisher.has_subscribers());
    publisher.unsubscribe(h);
    assert!(!publisher.has_subscribers());
    publisher.publish(2);
    assert!(log.borrow().is_empty());
}
