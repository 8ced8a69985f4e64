use vstd::prelude::*;

verus! {

/// The decimal numeral whose digits are the binary digits of `n`:
/// 5 = 0b101 gives 101.
pub open spec fn binary_numeral(n: nat) -> nat
    decreases n,
{
    if n == 0 {
        0
    } else {
        n % 2 + 10 * binary_numeral(n / 2)
    }
}

/// `binary_numeral` carried over to signed values: the sign is kept.
pub open spec fn signed_binary_numeral(n: int) -> int {
    if n >= 0 {
        binary_numeral(n as nat) as int
    } else {
        -(binary_numeral((-n) as nat) as int)
    }
}

/// Reads the decimal digits of `d` as binary digits: 101 gives 5.
pub open spec fn read_as_binary(d: nat) -> nat
    decreases d,
{
    if d == 0 {
        0
    } else {
        d % 10 + 2 * read_as_binary(d / 10)
    }
}

/// Every decimal digit of `d` is a 0 or a 1.
pub open spec fn has_only_bit_digits(d: nat) -> bool
    decreases d,
{
    d == 0 || (d % 10 <= 1 && has_only_bit_digits(d / 10))
}

/// Splits `b + 10 * rest` into its last decimal digit and the digits before it.
proof fn lemma_last_digit(b: nat, rest: nat)
    requires
        b < 10,
    ensures
        (b + 10 * rest) % 10 == b,
        (b + 10 * rest) / 10 == rest,
{
    assert((b + 10 * rest) % 10 == b && (b + 10 * rest) / 10 == rest) by (nonlinear_arith)
        requires
            b < 10,
    ;
}

/// The numeral of `n` is written with the digits 0 and 1 only, and reading it back
/// in base two gives `n` again.
pub proof fn lemma_binary_numeral_round_trip(n: nat)
    ensures
        has_only_bit_digits(binary_numeral(n)),
        read_as_binary(binary_numeral(n)) == n,
    decreases n,
{
    if n > 0 {
        lemma_binary_numeral_round_trip(n / 2);
        lemma_last_digit(n % 2, binary_numeral(n / 2));
    }
}

/// What `dec2bin` returns keeps the sign of its argument, is written with the digits
/// 0 and 1 only, and read in base two gives back the magnitude of the argument.
pub proof fn lemma_dec2bin_reads_back(num: int)
    ensures
        num >= 0 ==> signed_binary_numeral(num) >= 0
            && has_only_bit_digits(signed_binary_numeral(num) as nat)
            && read_as_binary(signed_binary_numeral(num) as nat) == num,
        num < 0 ==> signed_binary_numeral(num) < 0
            && has_only_bit_digits((-signed_binary_numeral(num)) as nat)
            && read_as_binary((-signed_binary_numeral(num)) as nat) == -num,
{
    if num >= 0 {
        lemma_binary_numeral_round_trip(num as nat);
    } else {
        lemma_binary_numeral_round_trip((-num) as nat);
    }
}

/// Two to the power `k`.
pub open spec fn pow2(k: nat) -> nat
    decreases k,
{
    if k == 0 {
        1
    } else {
        2 * pow2((k - 1) as nat)
    }
}

/// The number written with `k` ones: 0, 1, 11, 111, ...
pub open spec fn repunit(k: nat) -> nat
    decreases k,
{
    if k == 0 {
        0
    } else {
        1 + 10 * repunit((k - 1) as nat)
    }
}

/// A number below `2^k` has at most `k` binary digits, so its numeral is at most `k` ones.
proof fn lemma_numeral_bound(n: nat, k: nat)
    requires
        n < pow2(k),
    ensures
        binary_numeral(n) <= repunit(k),
    decreases k,
{
    if n > 0 {
        lemma_numeral_bound(n / 2, (k - 1) as nat);
    }
}

/// Ten to the power `k`.
pub open spec fn pow10(k: nat) -> nat
    decreases k,
{
    if k == 0 {
        1
    } else {
        10 * pow10((k - 1) as nat)
    }
}

/// A number of at least `2^k` has a numeral of at least `10^k`.
proof fn lemma_numeral_lower_bound(n: nat, k: nat)
    requires
        n >= pow2(k),
    ensures
        binary_numeral(n) >= pow10(k),
    decreases k,
{
    if k > 0 {
        lemma_numeral_lower_bound(n / 2, (k - 1) as nat);
    } else {
        lemma_numeral_positive(n);
    }
}

/// A positive number has a positive numeral.
proof fn lemma_numeral_positive(n: nat)
    requires
        n > 0,
    ensures
        binary_numeral(n) >= 1,
    decreases n,
{
    if n % 2 == 0 {
        lemma_numeral_positive(n / 2);
    }
}

/// The numeral of `n` fits in an `i32` exactly when `-1024 < n < 1024`: outside that
/// range the conversion cannot be written in an `i32`.
pub proof fn lemma_dec2bin_range(n: int)
    ensures
        (-1024 < n < 1024) <==> (i32::MIN <= signed_binary_numeral(n) <= i32::MAX),
{
    assert(pow2(10) == 1024 && pow2(9) == 512) by {
        reveal_with_fuel(pow2, 11);
    }
    assert(pow10(10) == 10000000000) by {
        reveal_with_fuel(pow10, 11);
    }
    assert(repunit(10) == 1111111111) by {
        reveal_with_fuel(repunit, 11);
    }
    let m: nat = if n >= 0 { n as nat } else { (-n) as nat };
    if m < 1024 {
        lemma_numeral_bound(m, 10);
    } else {
        lemma_numeral_lower_bound(m, 10);
    }
}

/// Converts a number to its binary representation written with decimal digits,
/// so that `dec2bin(5) == 101` and `dec2bin(-6) == -110`.
pub fn dec2bin(num: i32) -> (r: i32)
    requires
        -1024 < num < 1024,
    ensures
        r == signed_binary_numeral(num as int),
    decreases if num >= 0 { num as int } else { -num },
{
    if num == 0 {
        return 0;
    } else {
        let half_num = num / 2;
        let rest = dec2bin(half_num);
        proof {
            assert(pow2(9) == 512) by {
                reveal_with_fuel(pow2, 10);
            }
            assert(repunit(9) == 111111111) by {
                reveal_with_fuel(repunit, 10);
            }
            let half: int = if half_num >= 0 { half_num as int } else { -half_num };
            assert(0 <= half < 512);
            lemma_numeral_bound(half as nat, 9);
        }
        return num % 2 + 10 * rest;
    }
}

} // verus!
