//! Numbers as text.

use vstd::prelude::*;

verus! {

/// `std::string::String::push` appends the character.
pub assume_specification[ String::push ](s: &mut String, c: char)
    ensures
        final(s)@ == old(s)@.push(c),
;

/// The character of a digit.
pub open spec fn digit(d: int) -> char {
    (48 + d) as char
}

/// Decimal digits of a number, without leading zeros.
pub open spec fn digits(n: nat) -> Seq<char>
    decreases n,
{
    if n < 10 {
        seq![digit(n as int)]
    } else {
        digits(n / 10).push(digit((n % 10) as int))
    }
}

/// The last `width` decimal digits of a number, with leading zeros.
pub open spec fn fixed_digits(n: nat, width: nat) -> Seq<char>
    decreases width,
{
    if width == 0 {
        Seq::empty()
    } else {
        fixed_digits(n / 10, (width - 1) as nat).push(digit((n % 10) as int))
    }
}

fn push_digit(s: &mut String, d: u8)
    requires
        d < 10,
    ensures
        final(s)@ == old(s)@.push(digit(d as int)),
{
    s.push((48u8 + d) as char);
}

/// Appends a number in decimal.
pub fn push_number(s: &mut String, n: u128)
    ensures
        final(s)@ == old(s)@ + digits(n as nat),
    decreases n,
{
    if n < 10 {
        push_digit(s, n as u8);
        assert(s@ =~= old(s)@ + digits(n as nat));
    } else {
        push_number(s, n / 10);
        push_digit(s, (n % 10) as u8);
        assert(s@ =~= old(s)@ + digits(n as nat));
    }
}

/// Appends the last `width` digits of a number, with leading zeros.
pub fn push_padded(s: &mut String, n: u128, width: u32)
    ensures
        final(s)@ == old(s)@ + fixed_digits(n as nat, width as nat),
    decreases width,
{
    if width > 0 {
        push_padded(s, n / 10, width - 1);
        push_digit(s, (n % 10) as u8);
    }
    assert(s@ =~= old(s)@ + fixed_digits(n as nat, width as nat));
}

/// `10^n`.
pub open spec fn ten_to(n: nat) -> nat
    decreases n,
{
    if n == 0 {
        1
    } else {
        10 * ten_to((n - 1) as nat)
    }
}

/// `n / d` rounded to the nearest integer, halves to the even one.
pub open spec fn nearest(n: int, d: int) -> int {
    let q = n / d;
    let r = n % d;
    if 2 * r < d {
        q
    } else if 2 * r > d {
        q + 1
    } else if q % 2 == 0 {
        q
    } else {
        q + 1
    }
}

/// A number with nine decimals, shown with `places` of them: rounded to the
/// nearest, halves to even; a minus sign where the number is negative.
pub open spec fn rounded_text(v: int, places: nat) -> Seq<char> {
    let a: int = if v < 0 {
        -v
    } else {
        v
    };
    let shown = nearest(a, ten_to((9 - places) as nat) as int) as nat;
    let unit = ten_to(places);
    let sign: Seq<char> = if v < 0 {
        seq!['-']
    } else {
        Seq::empty()
    };
    if places == 0 {
        sign + digits(shown)
    } else {
        sign + digits(shown / unit) + seq!['.'] + fixed_digits(shown % unit, places)
    }
}

fn power_of_ten(n: u32) -> (p: u128)
    requires
        n <= 9,
    ensures
        p == ten_to(n as nat),
        1 <= p <= 1_000_000_000,
{
    reveal_with_fuel(ten_to, 10);
    if n == 0 {
        1
    } else if n == 1 {
        10
    } else if n == 2 {
        100
    } else if n == 3 {
        1_000
    } else if n == 4 {
        10_000
    } else if n == 5 {
        100_000
    } else if n == 6 {
        1_000_000
    } else if n == 7 {
        10_000_000
    } else if n == 8 {
        100_000_000
    } else {
        1_000_000_000
    }
}

/// Appends a number with nine decimals, shown with `places` of them.
pub fn push_rounded(s: &mut String, v: i128, places: u32)
    requires
        v > i128::MIN,
        places <= 9,
    ensures
        final(s)@ == old(s)@ + rounded_text(v as int, places as nat),
{
    let negative: bool = v < 0;
    let a: u128 = if negative {
        (-v) as u128
    } else {
        v as u128
    };
    let d: u128 = power_of_ten(9 - places);
    let q: u128 = a / d;
    let r: u128 = a % d;
    let shown: u128 = if 2 * r < d {
        q
    } else if 2 * r > d {
        q + 1
    } else if q % 2 == 0 {
        q
    } else {
        q + 1
    };
    if negative {
        s.push('-');
    }
    if places == 0 {
        push_number(s, shown);
    } else {
        let unit: u128 = power_of_ten(places);
        push_number(s, shown / unit);
        s.push('.');
        push_padded(s, shown % unit, places);
    }
    assert(s@ =~= old(s)@ + rounded_text(v as int, places as nat));
}

/// Time of day as hours and minutes: `t` is the fraction of the day, nine
/// decimals; whole days are taken off.
pub open spec fn clock_text(t: int) -> Seq<char> {
    let minutes = ((t % 1_000_000_000) * 1440) / 1_000_000_000;
    fixed_digits((minutes / 60) as nat, 2) + seq![':'] + fixed_digits((minutes % 60) as nat, 2)
}

/// Time of day as `HH:MM`.
pub fn format_game_time(t: i64) -> (text: String)
    ensures
        text@ == clock_text(t as int),
{
    let whole: i128 = crate::fixed::floor_div(t as i128, 1_000_000_000);
    let day: i128 = t as i128 - whole * 1_000_000_000;
    let minutes: u128 = ((day * 1440) / 1_000_000_000) as u128;
    let mut s: String = String::new();
    push_padded(&mut s, minutes / 60, 2);
    s.push(':');
    push_padded(&mut s, minutes % 60, 2);
    assert(s@ =~= clock_text(t as int));
    s
}

/// The clock shows a time between 00:00 and 23:59.
pub proof fn clock_is_a_time_of_day(t: int)
    ensures
        0 <= ((t % 1_000_000_000) * 1440) / 1_000_000_000 < 1440,
        clock_text(t).len() == 5,
{
    reveal_with_fuel(fixed_digits, 3);
}

/// The number that a row of decimal digits stands for.
pub open spec fn reading(text: Seq<char>) -> int
    decreases text.len(),
{
    if text.len() == 0 {
        0
    } else {
        10 * reading(text.drop_last()) + (text.last() as int - '0' as int)
    }
}

proof fn lemma_digit(d: int)
    requires
        0 <= d < 10,
    ensures
        digit(d) as int - '0' as int == d,
{
}

/// The digits of a number read back as the number, and none but zero starts with a
/// zero.
pub proof fn digits_read_back(n: nat)
    ensures
        reading(digits(n)) == n,
        digits(n).len() >= 1,
        n > 0 ==> digits(n)[0] != '0',
    decreases n,
{
    if n < 10 {
        lemma_digit(n as int);
        assert(digits(n).drop_last() == Seq::<char>::empty());
        reveal_with_fuel(reading, 2);
    } else {
        digits_read_back(n / 10);
        lemma_digit((n % 10) as int);
        assert(digits(n).drop_last() == digits(n / 10));
    }
}

proof fn lemma_ten_to(n: nat)
    ensures
        ten_to(n) >= 1,
    decreases n,
{
    if n > 0 {
        lemma_ten_to((n - 1) as nat);
    }
}

proof fn lemma_last_digits(n: nat, unit: int)
    requires
        1 <= unit,
    ensures
        10 * ((n as int / 10) % unit) + n as int % 10 == n as int % (10 * unit),
{
    let a = n as int / 10;
    vstd::arithmetic::div_mod::lemma_fundamental_div_mod(a, unit);
    let q = a / unit;
    let r = a % unit;
    let d = n as int % 10;
    let rest = 10 * r + d;
    assert(n as int == q * (10 * unit) + rest) by (nonlinear_arith)
        requires
            n as int == 10 * a + d,
            a == unit * q + r,
            rest == 10 * r + d,
    ;
    vstd::arithmetic::div_mod::lemma_fundamental_div_mod_converse(n as int, 10 * unit, q, rest);
}

/// A row of fixed length reads back as the number's last digits.
pub proof fn padded_digits_read_back(n: nat, width: nat)
    ensures
        fixed_digits(n, width).len() == width,
        reading(fixed_digits(n, width)) == n as int % (ten_to(width) as int),
    decreases width,
{
    if width > 0 {
        let less = (width - 1) as nat;
        padded_digits_read_back(n / 10, less);
        lemma_digit((n % 10) as int);
        lemma_ten_to(less);
        lemma_last_digits(n, ten_to(less) as int);
        assert(fixed_digits(n, width).drop_last() == fixed_digits(n / 10, less));
    }
}

/// No integer is nearer to a quotient than the rounded one, and where two are as near it
/// is the even one.
pub proof fn rounding_takes_the_nearest(n: int, d: int)
    requires
        d > 0,
    ensures
        -d <= 2 * (nearest(n, d) * d - n) <= d,
        2 * (nearest(n, d) * d - n) == d || 2 * (nearest(n, d) * d - n) == -d ==> nearest(n, d) % 2
            == 0,
{
    vstd::arithmetic::div_mod::lemma_fundamental_div_mod(n, d);
    let q = n / d;
    let r = n % d;
    assert(q * d == n - r) by (nonlinear_arith)
        requires
            n == d * q + r,
    ;
    assert((q + 1) * d == q * d + d) by (nonlinear_arith);
}

/// The text of a number starts with a minus sign exactly where the number is negative,
/// and has its point before the last `places` digits. Read without sign and point, it is
/// within half a unit of the last place of the number's size.
pub proof fn rounded_text_reads_back(v: int, places: nat)
    requires
        1 <= places <= 9,
    ensures
        ({
            let text = rounded_text(v, places);
            let sign: int = if v < 0 {
                1
            } else {
                0
            };
            let size = if v < 0 {
                -v
            } else {
                v
            };
            let point = text.len() - 1 - places;
            let whole = reading(text.subrange(sign, point));
            let part = reading(text.subrange(point + 1, text.len() as int));
            let unit = ten_to((9 - places) as nat);
            &&& sign < point
            &&& text[point] == '.'
            &&& v < 0 <==> text[0] == '-'
            &&& 0 <= part < ten_to(places)
            &&& -unit <= 2 * ((whole * ten_to(places) + part) * unit - size) <= unit
        }),
{
    let text = rounded_text(v, places);
    let size: int = if v < 0 {
        -v
    } else {
        v
    };
    let minus: Seq<char> = if v < 0 {
        seq!['-']
    } else {
        Seq::empty()
    };
    let d = ten_to((9 - places) as nat) as int;
    let unit = ten_to(places) as int;
    lemma_ten_to((9 - places) as nat);
    lemma_ten_to(places);
    rounding_takes_the_nearest(size, d);
    let near = nearest(size, d);
    assert(near >= 0) by {
        assert(near >= 0) by (nonlinear_arith)
            requires
                2 * (near * d - size) >= -d,
                size >= 0,
                d >= 1,
        ;
    }
    let shown = near as nat;
    let front = digits(shown / unit as nat);
    let back = fixed_digits(shown % unit as nat, places);
    digits_read_back(shown / unit as nat);
    padded_digits_read_back(shown % unit as nat, places);
    let point = (minus.len() + front.len()) as int;
    assert(text.len() == point + 1 + places);
    assert(text.subrange(minus.len() as int, point) == front);
    assert(text.subrange(point + 1, text.len() as int) == back);
    vstd::arithmetic::div_mod::lemma_fundamental_div_mod(near, unit);
    let (q, r) = (near / unit, near % unit);
    vstd::arithmetic::div_mod::lemma_small_mod(r as nat, unit as nat);
    assert(q * unit + r == near) by (nonlinear_arith)
        requires
            near == unit * q + r,
    ;
    lemma_no_sign(shown / unit as nat);
    assert(v >= 0 ==> text[0] == front[0]);
}

proof fn lemma_no_sign(n: nat)
    ensures
        digits(n).len() >= 1,
        digits(n)[0] != '-',
    decreases n,
{
    if n >= 10 {
        lemma_no_sign(n / 10);
    }
}

/// The clock's two numbers are the hours and minutes of the whole minutes that have
/// passed of the day.
pub proof fn clock_counts_the_minutes(t: int)
    ensures
        ({
            let text = clock_text(t);
            let hours = reading(text.subrange(0, 2));
            let minutes = reading(text.subrange(3, 5));
            let day = t % 1_000_000_000;
            &&& text.len() == 5
            &&& text[2] == ':'
            &&& 0 <= hours < 24
            &&& 0 <= minutes < 60
            &&& (60 * hours + minutes) * 1_000_000_000 <= day * 1440
            &&& day * 1440 < (60 * hours + minutes + 1) * 1_000_000_000
        }),
{
    let m = ((t % 1_000_000_000) * 1440) / 1_000_000_000;
    assert(0 <= m < 1440);
    padded_digits_read_back((m / 60) as nat, 2);
    padded_digits_read_back((m % 60) as nat, 2);
    reveal_with_fuel(ten_to, 3);
    let text = clock_text(t);
    assert(text.subrange(0, 2) == fixed_digits((m / 60) as nat, 2));
    assert(text.subrange(3, 5) == fixed_digits((m % 60) as nat, 2));
    assert(ten_to(2) == 100);
    assert((m / 60) % 100 == m / 60);
    assert((m % 60) % 100 == m % 60);
    assert(60 * (m / 60) + m % 60 == m);
}

}
