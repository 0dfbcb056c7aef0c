use monads::either::{either_to_maybe, factorizer, i, j, maybe_to_either, Either};
use monads::optional::{compose, identity, Optional};

#[test]
fn test_either_to_maybe() {
    let a: Either<(), i32> = Either::Right(1);
    assert_eq!(maybe_to_either(either_to_maybe(a)), a);
    let b: Either<(), i32> = Either::Left(());
    assert_eq!(either_to_maybe(b), None);
}

#[test]
fn test_round_trip_absent() {
    let b: Either<(), i32> = Either::Left(());
    assert_eq!(maybe_to_either(either_to_maybe(b)), b);
    assert_eq!(either_to_maybe(maybe_to_either(None::<i32>)), None);
}

#[test]
fn test_factorizer() {
    let m = factorizer(i, j);
    let a: Either<i32, bool> = Either::Left(2);
    assert_eq!(m(a), 2);
    let b: Either<i32, bool> = Either::Right(false);
    assert_eq!(m(b), 1);
}

#[test]
fn test_factorizer_right_true() {
    let m = factorizer(i, j);
    assert_eq!(m(Either::Right(true)), 0);
    assert_eq!(m(Either::Left(-7)), -7);
}

fn safe_reciprocal(x: f64) -> Optional<f64> {
    if x == 0.0 {
        Optional::NotValid
    } else {
        Optional::Valid(1.0 / x)
    }
}

fn safe_root(x: f64) -> Optional<f64> {
    if x < 0.0 {
        Optional::NotValid
    } else {
        Optional::Valid(x.sqrt())
    }
}

#[test]
fn test_compose() {
    let safe_root_reciprocal = compose(safe_root, safe_reciprocal);
    assert_eq!(safe_root_reciprocal(4.0), Optional::Valid(0.5));
    assert_eq!(safe_root_reciprocal(-1.0), Optional::NotValid);
    assert_eq!(safe_root_reciprocal(0.0), Optional::NotValid);
    let safe_root_identity = compose(safe_root, identity);
    assert_eq!(safe_root_identity(4.0), Optional::Valid(2.0));
    assert_eq!(safe_root_identity(-1.0), Optional::NotValid);
    let identity_safe_root = compose(identity, safe_root);
    assert_eq!(identity_safe_root(4.0), Optional::Valid(2.0));
    assert_eq!(identity_safe_root(-1.0), Optional::NotValid);
}

#[test]
fn test_compose_three_steps() {
    let double = |x: i32| Optional::Valid(2 * x);
    let positive = |x: i32| {
        if x > 0 {
            Optional::Valid(x)
        } else {
            Optional::NotValid
        }
    };
    let left = compose(compose(double, positive), double);
    let right = compose(double, compose(positive, double));
    assert_eq!(left(3), Optional::Valid(12));
    assert_eq!(right(3), Optional::Valid(12));
    assert_eq!(left(-3), Optional::NotValid);
    assert_eq!(right(-3), Optional::NotValid);
}
