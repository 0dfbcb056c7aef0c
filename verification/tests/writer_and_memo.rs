use monads::memo::memoized;
use monads::writer::{compose_writer, to_upper_case, to_words};
use rand::{Rng, SeedableRng};
use std::cell::RefCell;

#[test]
fn test_writer() {
    let m = compose_writer(to_upper_case, to_words);
    let (x, c) = m("hello world".to_string());
    assert_eq!(x, vec!["HELLO".to_string(), "WORLD".to_string()]);
    assert_eq!(c, 2);
}

#[test]
fn test_memoize() {
    let rng = RefCell::new(rand::thread_rng());
    let mut memoized_rand = memoized(|_: ()| rng.borrow_mut().gen::<u32>());
    for _ in 0..10 {
        println!("{}", memoized_rand.call(()));
    }
}

#[test]
fn test_memoize_seed() {
    let mut memoized_rand = memoized(|seed: u32| {
        let mut rng = rand::rngs::StdRng::seed_from_u64(seed as u64);
        rng.gen::<u32>()
    });
    for _ in 0..10 {
        println!("{}", memoized_rand.call(42));
    }
}

#[test]
fn test_memoized_repeat_returns_cached() {
    let invocations = RefCell::new(0u32);
    let mut wrapper = memoized(|x: u32| {
        *invocations.borrow_mut() += 1;
        x * 100 + *invocations.borrow()
    });
    let first = wrapper.call(7);
    let second = wrapper.call(7);
    assert_eq!(second, first);
    assert_eq!(*invocations.borrow(), 1);
    let other = wrapper.call(8);
    assert_ne!(other, first);
    assert_eq!(*invocations.borrow(), 2);
    assert_eq!(wrapper.call(7), first);
}

#[test]
fn test_memoized_wrappers_independent() {
    let mut even = memoized(|x: u32| 2 * x);
    let mut odd = memoized(|x: u32| 2 * x + 1);
    assert_eq!(even.call(3), 6);
    assert_eq!(odd.call(3), 7);
    assert_eq!(even.call(3), 6);
}

#[test]
fn test_memoize_random_cached() {
    let rng = RefCell::new(rand::thread_rng());
    let mut memoized_rand = memoized(|_: ()| rng.borrow_mut().gen::<u64>());
    let first = memoized_rand.call(());
    for _ in 0..10 {
        assert_eq!(memoized_rand.call(()), first);
    }
}
