use monads::counter::{
    bind_counter, bind_counter2, fish_counter, fmap_counter, fmap_counter2, fmap_counter3,
    join_counter, return_counter, to_upper_case, to_words, Counter,
};

#[test]
fn test_fish_counter() {
    let m = fish_counter(to_upper_case, to_words);
    let (x, c) = m("hello world".to_string());
    assert_eq!(x, vec!["HELLO".to_string(), "WORLD".to_string()]);
    assert_eq!(c, 2);
}

#[test]
fn test_fmap_counter() {
    let m = fmap_counter(|x| 10 * x);
    let c1: Counter<_> = (5, 8);
    let c2 = m(c1);
    assert_eq!(c2, (50, 8));
}

#[test]
fn test_fmap_counter2_agrees() {
    let m = fmap_counter2(|x: i32| 10 * x);
    assert_eq!(m((5, 8)), (50, 8));
}

#[test]
fn test_fmap_counter3_agrees() {
    let m = fmap_counter3(|x: i32| 10 * x);
    assert_eq!(m((5, 8)), (50, 8));
}

#[test]
fn test_bind_counter() {
    let c1: Counter<_> = (5, 2);
    let c2 = bind_counter(c1, |x| (10 * x, 1));
    assert_eq!(c2, (50, 3));
}

#[test]
fn test_bind_counter2() {
    let c1: Counter<_> = (5, 2);
    let c2 = bind_counter2(c1, |x| (10 * x, 1));
    assert_eq!(c2, (50, 3));
}

#[test]
fn test_join_counter() {
    let c1: Counter<_> = ((6, 2), 3);
    let c2 = join_counter(c1);
    assert_eq!(c2, (6, 5));
}

#[test]
fn test_return_counter_cost_zero() {
    assert_eq!(return_counter("x"), ("x", 0));
}

#[test]
fn test_to_upper_case_direct() {
    assert_eq!(to_upper_case("hello".to_string()), ("HELLO".to_string(), 1));
}

#[test]
fn test_to_words_edges() {
    assert_eq!(to_words(String::new()), (vec![String::new()], 1));
    assert_eq!(to_words("abc".to_string()), (vec!["abc".to_string()], 1));
    let (v, c) = to_words("a  b".to_string());
    assert_eq!(
        v,
        vec!["a".to_string(), String::new(), "b".to_string()]
    );
    assert_eq!(c, 1);
    let (w, _) = to_words(" x ".to_string());
    assert_eq!(
        w,
        vec![String::new(), "x".to_string(), String::new()]
    );
}
