use ferrum::kernels::{
    add, analyze_text, char_is_whitespace, checked_fibonacci, checked_sum_large_vector, fibonacci,
    find_primes, hello_world, sum_large_vector,
};

#[test]
fn kernels_compute_what_they_say() {
    assert_eq!(hello_world(), "Hello, world from Rust!");
    assert_eq!(add(2, 40), 42);
    assert_eq!(add(u64::MAX, 0), u64::MAX);
    assert_eq!(sum_large_vector(&vec![1, -5, 10]), 6);
    assert_eq!(sum_large_vector(&vec![]), 0);
    assert_eq!(sum_large_vector(&vec![i64::MAX, -1, 1]), i64::MAX);
    let expected = [0u64, 1, 1, 2, 3, 5, 8, 13, 21, 34, 55];
    for (n, value) in expected.iter().enumerate() {
        assert_eq!(fibonacci(n as u32), *value);
        assert_eq!(checked_fibonacci(n as u32), Some(*value));
    }
    assert_eq!(checked_fibonacci(93), Some(12200160415121876738));
    assert_eq!(checked_fibonacci(94), None);
    assert_eq!(checked_fibonacci(u32::MAX), None);
    assert_eq!(find_primes(0), Vec::<usize>::new());
    assert_eq!(find_primes(1), Vec::<usize>::new());
    assert_eq!(find_primes(2), vec![2]);
    assert_eq!(find_primes(3), vec![2, 3]);
    assert_eq!(find_primes(4), vec![2, 3]);
    assert_eq!(find_primes(30), vec![2, 3, 5, 7, 11, 13, 17, 19, 23, 29]);
    assert_eq!(find_primes(49).last(), Some(&47));
    assert_eq!(find_primes(10_000).len(), 1229);
    for text in [
        "",
        "\n",
        "one",
        "one\n",
        "one two\nthree\n",
        "a\r\nb\r\n\r\nc",
        "  lead and trail  ",
        "tabs\tand\u{a0}nbsp\u{3000}wide\u{2003}em",
        "\n\n\n",
        "ünï cödé\u{85}next",
    ] {
        assert_eq!(
            analyze_text(text),
            (
                text.lines().count(),
                text.split_whitespace().count(),
                text.chars().count()
            ),
            "for {:?}",
            text
        );
    }
    for code in 0..0x3100u32 {
        if let Some(c) = char::from_u32(code) {
            assert_eq!(char_is_whitespace(c), c.is_whitespace(), "for {:?}", c);
        }
    }
}

#[test]
fn checked_sum_tells_when_a_prefix_overflows() {
    assert_eq!(checked_sum_large_vector(&vec![1, 2, 3]), Some(6));
    assert_eq!(checked_sum_large_vector(&vec![]), Some(0));
    assert_eq!(checked_sum_large_vector(&vec![i64::MAX, 1, -1]), None);
    assert_eq!(checked_sum_large_vector(&vec![i64::MIN, -1]), None);
    assert_eq!(checked_sum_large_vector(&vec![i64::MAX, -1, 1]), Some(i64::MAX));
}
