//! Small compute kernels that the crate exports to scripting hosts.

use vstd::arithmetic::div_mod::{
    lemma_fundamental_div_mod, lemma_mod_multiples_basic, lemma_small_mod,
};
use vstd::prelude::*;
use vstd::string::StrSliceExecFns;

verus! {

/// The greeting of the crate.
pub fn hello_world() -> (greeting: String)
    ensures
        greeting@ == "Hello, world from Rust!"@,
{
    "Hello, world from Rust!".to_string()
}

/// The sum of two numbers that has room in 64 bits.
pub fn add(left: u64, right: u64) -> (sum: u64)
    requires
        left + right <= u64::MAX,
    ensures
        sum == left + right,
{
    left + right
}

/// The sum of the first `upto` numbers.
pub open spec fn sum_upto(numbers: Seq<i64>, upto: nat) -> int
    decreases upto,
{
    if upto == 0 {
        0
    } else {
        sum_upto(numbers, (upto - 1) as nat) + numbers[upto - 1]
    }
}

/// Every sum of a prefix of the numbers has room in 64 bits.
pub open spec fn sums_fit(numbers: Seq<i64>) -> bool {
    forall|upto: nat|
        upto <= numbers.len() ==> i64::MIN <= #[trigger] sum_upto(numbers, upto) <= i64::MAX
}

/// The sum of the numbers, added up from the first to the last.
pub fn sum_large_vector(numbers: &Vec<i64>) -> (sum: i64)
    requires
        sums_fit(numbers@),
    ensures
        sum == sum_upto(numbers@, numbers@.len()),
{
    let mut sum: i64 = 0;
    let ghost mut added: nat = 0;
    for i in 0..numbers.len()
        invariant
            added == i,
            sums_fit(numbers@),
            sum == sum_upto(numbers@, added),
    {
        proof {
            added = added + 1;
            assert(i64::MIN <= sum_upto(numbers@, added) <= i64::MAX);
        }
        sum = sum + numbers[i];
    }
    sum
}

/// The sum of the numbers, or `None` where the sum of a prefix has no room
/// in 64 bits.
pub fn checked_sum_large_vector(numbers: &Vec<i64>) -> (sum: Option<i64>)
    ensures
        sum is Some <==> sums_fit(numbers@),
        sum matches Some(total) ==> total == sum_upto(numbers@, numbers@.len()),
{
    let mut sum: i64 = 0;
    let ghost mut added: nat = 0;
    for i in 0..numbers.len()
        invariant
            added == i,
            sum == sum_upto(numbers@, added),
            forall|upto: nat|
                upto <= added ==> i64::MIN <= #[trigger] sum_upto(numbers@, upto) <= i64::MAX,
    {
        proof {
            added = added + 1;
        }
        match sum.checked_add(numbers[i]) {
            Some(next) => {
                sum = next;
            },
            None => {
                assert(!(i64::MIN <= sum_upto(numbers@, added) <= i64::MAX));
                return None;
            },
        }
    }
    Some(sum)
}

/// The Fibonacci numbers: 0, 1, and from there the sum of the two before.
pub open spec fn fib(n: nat) -> nat
    decreases n,
{
    if n == 0 {
        0
    } else if n == 1 {
        1
    } else {
        fib((n - 1) as nat) + fib((n - 2) as nat)
    }
}

/// The `n`-th Fibonacci number, by its recurrence.
pub fn fibonacci(n: u32) -> (value: u64)
    requires
        fib(n as nat) <= u64::MAX,
    ensures
        value == fib(n as nat),
    decreases n,
{
    if n == 0 {
        0
    } else if n == 1 {
        1
    } else {
        fibonacci(n - 1) + fibonacci(n - 2)
    }
}

/// The Fibonacci numbers never decrease.
pub proof fn lemma_fib_monotonic(smaller: nat, larger: nat)
    requires
        smaller <= larger,
    ensures
        fib(smaller) <= fib(larger),
    decreases larger,
{
    if smaller < larger {
        lemma_fib_monotonic(smaller, (larger - 1) as nat);
        if larger >= 2 {
            assert(fib(larger) == fib((larger - 1) as nat) + fib((larger - 2) as nat));
        }
    }
}

/// The `n`-th Fibonacci number, or `None` where it has no room in 64 bits.
pub fn checked_fibonacci(n: u32) -> (value: Option<u64>)
    ensures
        value is Some <==> fib(n as nat) <= u64::MAX,
        value matches Some(number) ==> number == fib(n as nat),
{
    if n == 0 {
        return Some(0);
    }
    let mut before: u64 = 0;
    let mut current: u64 = 1;
    let mut at: u32 = 1;
    while at < n
        invariant
            1 <= at <= n,
            before == fib((at - 1) as nat),
            current == fib(at as nat),
        decreases n - at,
    {
        match current.checked_add(before) {
            Some(next) => {
                before = current;
                current = next;
                at = at + 1;
            },
            None => {
                proof {
                    assert(fib((at + 1) as nat) == fib(at as nat) + fib((at - 1) as nat));
                    lemma_fib_monotonic((at + 1) as nat, n as nat);
                }
                return None;
            },
        }
    }
    Some(current)
}

/// A number with exactly two divisors: one and itself.
pub open spec fn is_prime(n: nat) -> bool {
    n >= 2 && forall|d: nat| 2 <= d < n ==> !#[trigger] divides(d, n)
}

/// `d` divides `n`.
pub open spec fn divides(d: nat, n: nat) -> bool {
    d > 0 && n % d == 0
}

/// `n` has no divisor from 2 up to, but not including, `bound` other than
/// itself.
pub open spec fn unsieved(n: nat, bound: nat) -> bool {
    forall|d: nat| 2 <= d < bound && d < n ==> !#[trigger] divides(d, n)
}

/// A divisor of a divisor is a divisor.
pub proof fn lemma_divides_transitive(a: nat, b: nat, c: nat)
    requires
        divides(a, b),
        divides(b, c),
    ensures
        divides(a, c),
{
    lemma_fundamental_div_mod(b as int, a as int);
    lemma_fundamental_div_mod(c as int, b as int);
    let k = (b / a) as int;
    let l = (c / b) as int;
    assert(c == a * (k * l)) by (nonlinear_arith)
        requires
            b == a * k,
            c == b * l,
    ;
    lemma_mod_multiples_basic(k * l, a as int);
    assert(a * (k * l) == (k * l) * a) by (nonlinear_arith);
}

/// A number from 2 on that is not prime has a divisor, from 2 on, whose
/// square does not exceed it.
pub proof fn lemma_composite_has_small_divisor(n: nat) -> (d: nat)
    requires
        n >= 2,
        !is_prime(n),
    ensures
        2 <= d < n,
        d * d <= n,
        divides(d, n),
{
    let a = choose|a: nat| 2 <= a < n && #[trigger] divides(a, n);
    lemma_fundamental_div_mod(n as int, a as int);
    let b = (n / a) as nat;
    assert(n == a * b);
    assert(b >= 2 && b < n) by (nonlinear_arith)
        requires
            n == a * b,
            2 <= a < n,
    ;
    assert(divides(b, n)) by {
        lemma_mod_multiples_basic(a as int, b as int);
        assert(a * b == (a as int) * (b as int));
    }
    if a <= b {
        assert(a * a <= n) by (nonlinear_arith)
            requires
                n == a * b,
                a <= b,
        ;
        a
    } else {
        assert(b * b <= n) by (nonlinear_arith)
            requires
                n == a * b,
                b < a,
        ;
        b
    }
}

/// Once the bound's square exceeds a number, what is left unsieved is
/// prime.
pub proof fn lemma_unsieved_is_prime(n: nat, bound: nat)
    requires
        n >= 2,
        bound * bound > n,
        unsieved(n, bound),
    ensures
        is_prime(n),
{
    if !is_prime(n) {
        let d = lemma_composite_has_small_divisor(n);
        assert(d < bound) by (nonlinear_arith)
            requires
                d * d <= n,
                bound * bound > n,
        ;
        assert(divides(d, n));
    }
}

/// The primes up to and including `limit`, in ascending order, by the sieve
/// of Eratosthenes.
pub fn find_primes(limit: usize) -> (primes: Vec<usize>)
    requires
        limit < usize::MAX,
    ensures
        forall|k: int| 0 <= k < primes@.len() ==> (#[trigger] primes@[k]) <= limit && is_prime(
            primes@[k] as nat,
        ),
        forall|k: int, l: int|
            0 <= k < l < primes@.len() ==> #[trigger] primes@[k] < #[trigger] primes@[l],
        forall|p: usize| p <= limit && is_prime(p as nat) ==> #[trigger] primes@.contains(p),
{
    let mut primes: Vec<usize> = Vec::new();
    if limit < 2 {
        return primes;
    }
    let mut sieve: Vec<bool> = Vec::new();
    for n in 0..limit + 1
        invariant
            sieve@.len() == n,
            forall|m: int| 0 <= m < n ==> #[trigger] sieve@[m] == (m >= 2),
    {
        sieve.push(n >= 2);
    }
    let mut i: usize = 2;
    while i <= limit / i
        invariant
            2 <= i <= limit,
            sieve@.len() == limit + 1,
            !sieve@[0],
            !sieve@[1],
            forall|n: int| 2 <= n <= limit ==> #[trigger] sieve@[n] == unsieved(n as nat, i as nat),
        decreases limit - i,
    {
        proof {
            lemma_fundamental_div_mod(limit as int, i as int);
            assert(i * i <= limit) by (nonlinear_arith)
                requires
                    i <= limit / i,
                    limit == i * (limit / i) + limit % i,
                    limit % i >= 0,
            ;
        }
        let ghost before = sieve@;
        if sieve[i] {
            let mut j = i * i;
            let ghost mut factor: nat = i as nat;
            loop
                invariant_except_break
                    j == i * factor,
                    factor >= i,
                    i * i <= j <= limit,
                    forall|n: int|
                        0 <= n <= limit ==> #[trigger] sieve@[n] == (before[n] && !(divides(
                            i as nat,
                            n as nat,
                        ) && i * i <= n < j)),
                invariant
                    2 <= i,
                    i * i <= limit,
                    sieve@.len() == limit + 1,
                    before.len() == limit + 1,
                ensures
                    sieve@.len() == limit + 1,
                    forall|n: int|
                        0 <= n <= limit ==> #[trigger] sieve@[n] == (before[n] && !(divides(
                            i as nat,
                            n as nat,
                        ) && i * i <= n)),
                decreases limit - j,
            {
                sieve[j] = false;
                proof {
                    lemma_mod_multiples_basic(factor as int, i as int);
                    assert(i * factor == (factor as int) * (i as int)) by (nonlinear_arith);
                    assert(divides(i as nat, j as nat));
                    assert forall|n: int| j < n < j + i implies !#[trigger] divides(
                        i as nat,
                        n as nat,
                    ) by {
                        lemma_next_multiple(i as nat, factor, n as nat);
                    }
                }
                if limit - j < i {
                    break ;
                }
                proof {
                    assert(i * (factor + 1) == i * factor + i) by (nonlinear_arith);
                    factor = factor + 1;
                }
                j = j + i;
            }
            proof {
                assert forall|n: int| 2 <= n <= limit implies #[trigger] sieve@[n] == unsieved(
                    n as nat,
                    (i + 1) as nat,
                ) by {
                    lemma_sieve_step_prime(n as nat, i as nat, before[n]);
                }
            }
        } else {
            proof {
                assert forall|n: int| 2 <= n <= limit implies #[trigger] sieve@[n] == unsieved(
                    n as nat,
                    (i + 1) as nat,
                ) by {
                    lemma_sieve_step_composite(n as nat, i as nat);
                }
            }
        }
        assert(i < limit) by (nonlinear_arith)
            requires
                i * i <= limit,
                i >= 2,
        ;
        i = i + 1;
    }
    proof {
        lemma_fundamental_div_mod(limit as int, i as int);
        assert(i * i > limit) by (nonlinear_arith)
            requires
                i > limit / i,
                limit == i * (limit / i) + limit % i,
                limit % i < i,
                i >= 2,
        ;
        vstd::arithmetic::div_mod::lemma_mod_bound(limit as int, i as int);
    }
    let ghost bound = i as nat;
    let ghost mut scanned: nat = 0;
    for n in 0..limit + 1
        invariant
            scanned == n,
            bound * bound > limit,
            bound >= 2,
            sieve@.len() == limit + 1,
            forall|m: int| 2 <= m <= limit ==> #[trigger] sieve@[m] == unsieved(m as nat, bound),
            !sieve@[0],
            !sieve@[1],
            forall|k: int|
                0 <= k < primes@.len() ==> (#[trigger] primes@[k]) < scanned && is_prime(
                    primes@[k] as nat,
                ),
            forall|k: int, l: int|
                0 <= k < l < primes@.len() ==> #[trigger] primes@[k] < #[trigger] primes@[l],
            forall|p: usize| p < scanned && is_prime(p as nat) ==> #[trigger] primes@.contains(p),
    {
        let ghost found = primes@;
        if sieve[n] {
            proof {
                assert(bound * bound > n) by (nonlinear_arith)
                    requires
                        bound * bound > limit,
                        n <= limit,
                ;
                lemma_unsieved_is_prime(n as nat, bound);
            }
            primes.push(n);
        } else {
            proof {
                if n >= 2 && is_prime(n as nat) {
                    assert(unsieved(n as nat, bound));
                }
            }
        }
        proof {
            scanned = scanned + 1;
            assert forall|p: usize| p < scanned && is_prime(p as nat) implies #[trigger] primes@.contains(
                p,
            ) by {
                if p < n {
                    assert(found.contains(p));
                    let k = choose|k: int| 0 <= k < found.len() && found[k] == p;
                    assert(primes@[k] == p);
                } else {
                    assert(primes@[primes@.len() - 1] == p);
                }
            }
        }
    }
    primes
}

/// Between one multiple of `i` and the next there is no multiple of `i`.
proof fn lemma_next_multiple(i: nat, factor: nat, n: nat)
    requires
        i > 0,
        i * factor < n < i * factor + i,
    ensures
        !divides(i, n),
{
    let rest = (n - i * factor) as int;
    lemma_small_mod(rest as nat, i);
    vstd::arithmetic::div_mod::lemma_mod_multiples_vanish(factor as int, rest, i as int);
    assert(i * factor + rest == factor * i + rest) by (nonlinear_arith);
}

/// Striking the multiples of a prime `i` from its square on takes the sieve
/// from the bound `i` to the bound `i + 1`.
proof fn lemma_sieve_step_prime(n: nat, i: nat, before: bool)
    requires
        n >= 2,
        i >= 2,
        unsieved(i, i),
        before == unsieved(n, i),
    ensures
        (before && !(divides(i, n) && i * i <= n)) == unsieved(n, i + 1),
{
    if unsieved(n, i + 1) {
        assert forall|d: nat| 2 <= d < i && d < n implies !#[trigger] divides(d, n) by {}
        if divides(i, n) && i * i <= n {
            assert(i < n) by (nonlinear_arith)
                requires
                    i * i <= n,
                    i >= 2,
            ;
        }
    } else if before {
        let d = choose|d: nat| 2 <= d < i + 1 && d < n && #[trigger] divides(d, n);
        assert(d == i);
        lemma_fundamental_div_mod(n as int, i as int);
        let k = (n / i) as nat;
        assert(n == i * k);
        if k < i {
            assert(k >= 2) by (nonlinear_arith)
                requires
                    n == i * k,
                    i < n,
                    i >= 2,
            ;
            assert(divides(k, n)) by {
                lemma_mod_multiples_basic(i as int, k as int);
                assert(i * k == (i as int) * (k as int));
            }
            assert(k < n) by (nonlinear_arith)
                requires
                    n == i * k,
                    i >= 2,
                    k >= 2,
            ;
            assert(false);
        }
        assert(i * i <= n) by (nonlinear_arith)
            requires
                n == i * k,
                k >= i,
        ;
    }
}

/// A composite `i` strikes nothing: its multiples were struck by one of its
/// divisors.
proof fn lemma_sieve_step_composite(n: nat, i: nat)
    requires
        n >= 2,
        i >= 2,
        !unsieved(i, i),
    ensures
        unsieved(n, i) == unsieved(n, i + 1),
{
    if unsieved(n, i) && !unsieved(n, i + 1) {
        let d = choose|d: nat| 2 <= d < i + 1 && d < n && #[trigger] divides(d, n);
        assert(d == i);
        let e = choose|e: nat| 2 <= e < i && e < i && #[trigger] divides(e, i);
        lemma_divides_transitive(e, i, n);
        assert(divides(e, n));
    }
    if unsieved(n, i + 1) {
        assert forall|d: nat| 2 <= d < i && d < n implies !#[trigger] divides(d, n) by {}
    }
}

/// White space, as Unicode defines it.
pub open spec fn is_whitespace(c: char) -> bool {
    let code = c as u32;
    ||| 0x09 <= code <= 0x0D
    ||| code == 0x20
    ||| code == 0x85
    ||| code == 0xA0
    ||| code == 0x1680
    ||| 0x2000 <= code <= 0x200A
    ||| code == 0x2028
    ||| code == 0x2029
    ||| code == 0x202F
    ||| code == 0x205F
    ||| code == 0x3000
}

/// Computes [`is_whitespace`].
pub fn char_is_whitespace(c: char) -> (white: bool)
    ensures
        white == is_whitespace(c),
{
    let code = c as u32;
    (0x09 <= code && code <= 0x0D) || code == 0x20 || code == 0x85 || code == 0xA0 || code
        == 0x1680 || (0x2000 <= code && code <= 0x200A) || code == 0x2028 || code == 0x2029
        || code == 0x202F || code == 0x205F || code == 0x3000
}

/// Number of line feeds among the first `upto` characters.
pub open spec fn line_feeds(text: Seq<char>, upto: nat) -> nat
    decreases upto,
{
    if upto == 0 {
        0
    } else {
        line_feeds(text, (upto - 1) as nat) + if text[upto - 1] == '\n' {
            1nat
        } else {
            0nat
        }
    }
}

/// Number of lines: every line feed ends one, and so does the end of a text
/// that does not end in a line feed.
pub open spec fn line_count(text: Seq<char>) -> nat {
    line_feeds(text, text.len()) + if text.len() > 0 && text.last() != '\n' {
        1nat
    } else {
        0nat
    }
}

/// A word starts at `at`: the character there is no white space and the one
/// before it, if there is one, is.
pub open spec fn word_starts_at(text: Seq<char>, at: int) -> bool {
    !is_whitespace(text[at]) && (at == 0 || is_whitespace(text[at - 1]))
}

/// Number of words that start among the first `upto` characters.
pub open spec fn word_starts(text: Seq<char>, upto: nat) -> nat
    decreases upto,
{
    if upto == 0 {
        0
    } else {
        word_starts(text, (upto - 1) as nat) + if word_starts_at(text, upto - 1) {
            1nat
        } else {
            0nat
        }
    }
}

/// Neither count exceeds the number of characters counted.
pub proof fn lemma_counts_bounded(text: Seq<char>, upto: nat)
    ensures
        line_feeds(text, upto) <= upto,
        word_starts(text, upto) <= upto,
    decreases upto,
{
    if upto > 0 {
        lemma_counts_bounded(text, (upto - 1) as nat);
    }
}

/// Counts the lines, the words and the characters of a text.
pub fn analyze_text(text: &str) -> (counts: (usize, usize, usize))
    ensures
        counts.0 == line_count(text@),
        counts.1 == word_starts(text@, text@.len()),
        counts.2 == text@.len(),
{
    let chars = text.unicode_len();
    let mut feeds: usize = 0;
    let mut words: usize = 0;
    let mut after_white = true;
    let mut open_line = false;
    let ghost mut seen: nat = 0;
    for c in it: text.chars()
        invariant
            it.seq() == text@,
            seen == it.index(),
            chars == text@.len(),
            feeds == line_feeds(text@, seen),
            words == word_starts(text@, seen),
            after_white == (seen == 0 || is_whitespace(text@[seen - 1])),
            open_line == (seen > 0 && text@[seen - 1] != '\n'),
    {
        proof {
            lemma_counts_bounded(text@, seen + 1);
            assert(text@[seen as int] == c);
        }
        let white = char_is_whitespace(c);
        if !white && after_white {
            words = words + 1;
        }
        if c == '\n' {
            feeds = feeds + 1;
        }
        after_white = white;
        open_line = c != '\n';
        proof {
            seen = seen + 1;
        }
    }
    proof {
        lemma_counts_bounded(text@, text@.len());
        if open_line {
            lemma_counts_bounded(text@, (text@.len() - 1) as nat);
        }
    }
    let lines = if open_line {
        feeds + 1
    } else {
        feeds
    };
    (lines, words, chars)
}

} // verus!
