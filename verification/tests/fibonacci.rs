use exercises::fibonacci::fib;

#[test]
fn base_cases() {
    assert_eq!(fib(0), 0);
    assert_eq!(fib(1), 1);
}

#[test]
fn tenth_fibonacci_number() {
    assert_eq!(fib(10), 55);
}

#[test]
fn twentieth_fibonacci_number() {
    assert_eq!(fib(20), 6765);
}

#[test]
fn recurrence_holds_on_concrete_values() {
    assert_eq!(fib(12), fib(11) + fib(10));
    assert_eq!(fib(2), fib(1) + fib(0));
}
