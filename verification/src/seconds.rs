//! Time in whole microseconds, with the decimal notation that the engine
//! reads and writes: `4`, `0.5`, `12.000001`, `-3.25`.

use crate::text::{
    chars_of, decimal, digit_char, digit_of, digit_str, digit_value, first_index, is_digit,
    lemma_first_index, lemma_first_index_at, push_decimal,
};
use vstd::prelude::*;
use vstd::string::*;

verus! {

/// A point or a span of time, counted in microseconds.
#[derive(Clone, Copy, Debug, PartialEq, Eq, Structural)]
pub struct Seconds {
    pub micros: i64,
}

/// The largest number of whole seconds whose microseconds may still fit in an `i64`.
const WHOLE_SECONDS_CAP: u64 = 9_223_372_036_854;

/// Every character of `s` is a digit.
pub open spec fn all_digits(s: Seq<char>) -> bool {
    forall|i: int| 0 <= i < s.len() ==> is_digit(#[trigger] s[i])
}

/// The number that the digit string `s` denotes; the empty string denotes 0.
pub open spec fn digits_value(s: Seq<char>) -> nat
    decreases s.len(),
{
    if s.len() == 0 {
        0
    } else {
        (digits_value(s.drop_last()) * 10 + digit_value(s.last())) as nat
    }
}

/// How many microseconds one unit of the last of `places` fraction digits is worth.
pub open spec fn place_micros(places: nat) -> nat {
    if places == 0 {
        1_000_000
    } else if places == 1 {
        100_000
    } else if places == 2 {
        10_000
    } else if places == 3 {
        1_000
    } else if places == 4 {
        100
    } else if places == 5 {
        10
    } else {
        1
    }
}

/// The microseconds that the fraction digits `frac` denote. Digits after the
/// sixth are below the resolution and do not count.
pub open spec fn fraction_micros(frac: Seq<char>) -> nat {
    let places = if frac.len() < 6 {
        frac.len()
    } else {
        6
    };
    digits_value(frac.take(places as int)) * place_micros(places)
}

/// The microseconds denoted by an unsigned decimal: digits, then optionally a
/// point and more digits, with a digit on at least one side of the point.
pub open spec fn unsigned_micros(body: Seq<char>) -> Option<nat> {
    let dot = first_index(body, '.');
    let whole = body.take(dot);
    let frac = if dot < body.len() {
        body.skip(dot + 1)
    } else {
        Seq::<char>::empty()
    };
    if all_digits(whole) && all_digits(frac) && whole.len() + frac.len() > 0 {
        Some(digits_value(whole) * 1_000_000 + fraction_micros(frac))
    } else {
        None
    }
}

/// The microseconds denoted by a decimal with an optional sign in front, where
/// the text is such a decimal and the value fits in an `i64`.
pub open spec fn decimal_micros(text: Seq<char>) -> Option<int> {
    let signed = text.len() > 0 && (text[0] == '-' || text[0] == '+');
    let negative = text.len() > 0 && text[0] == '-';
    let body = if signed {
        text.skip(1)
    } else {
        text
    };
    match unsigned_micros(body) {
        Some(m) => {
            let v = if negative {
                -(m as int)
            } else {
                m as int
            };
            if i64::MIN <= v <= i64::MAX {
                Some(v)
            } else {
                None
            }
        },
        None => None,
    }
}

/// `digits` with `count` zeros after them.
pub open spec fn with_zeros(digits: Seq<char>, count: nat) -> Seq<char> {
    digits + Seq::new(count, |i: int| '0')
}

/// The digits that stand before the point when the point stands after the
/// first `point` of `digits`: none where that is before the first digit, and
/// with zeros for what is missing where it is after the last.
pub open spec fn digits_before(digits: Seq<char>, point: int) -> Seq<char> {
    if point <= 0 {
        Seq::<char>::empty()
    } else if point <= digits.len() {
        digits.take(point)
    } else {
        with_zeros(digits, (point - digits.len()) as nat)
    }
}

/// The two runs of digits of an unsigned decimal, before and after its point,
/// where `body` is one: digits, then optionally a point and more digits, with
/// a digit on at least one side of the point.
pub open spec fn decimal_parts(body: Seq<char>) -> Option<(Seq<char>, Seq<char>)> {
    let dot = first_index(body, '.');
    let whole = body.take(dot);
    let frac = if dot < body.len() {
        body.skip(dot + 1)
    } else {
        Seq::<char>::empty()
    };
    if all_digits(whole) && all_digits(frac) && whole.len() + frac.len() > 0 {
        Some((whole, frac))
    } else {
        None
    }
}

/// The number that an exponent denotes: digits with an optional sign in front.
pub open spec fn exponent_value(text: Seq<char>) -> Option<int> {
    let signed = text.len() > 0 && (text[0] == '-' || text[0] == '+');
    let negative = text.len() > 0 && text[0] == '-';
    let digits = if signed {
        text.skip(1)
    } else {
        text
    };
    if digits.len() > 0 && all_digits(digits) {
        Some(
            if negative {
                -(digits_value(digits) as int)
            } else {
                digits_value(digits) as int
            },
        )
    } else {
        None
    }
}

/// The microseconds denoted by the unsigned decimal `body` times ten to the
/// power `exponent`: the point moves by `exponent` places, and what then
/// stands after the sixth place behind it does not count.
pub open spec fn scaled_micros(body: Seq<char>, exponent: int) -> Option<nat> {
    match decimal_parts(body) {
        Some((whole, frac)) => Some(
            digits_value(digits_before(whole + frac, whole.len() + exponent + 6)),
        ),
        None => None,
    }
}

/// Where the exponent of a number begins: at its first `e` or `E`, or at the
/// end where it has none.
pub open spec fn exponent_mark(text: Seq<char>) -> int {
    let small = first_index(text, 'e');
    let capital = first_index(text, 'E');
    if small <= capital {
        small
    } else {
        capital
    }
}

/// The microseconds denoted by a number of seconds in decimal or in
/// scientific notation: a decimal, then optionally `e` or `E` and an
/// exponent. Where there is no exponent the number is read as a decimal.
pub open spec fn number_micros(text: Seq<char>) -> Option<int> {
    let mark = exponent_mark(text);
    if mark >= text.len() {
        decimal_micros(text)
    } else {
        let mantissa = text.take(mark);
        let signed = mantissa.len() > 0 && (mantissa[0] == '-' || mantissa[0] == '+');
        let negative = mantissa.len() > 0 && mantissa[0] == '-';
        let body = if signed {
            mantissa.skip(1)
        } else {
            mantissa
        };
        match exponent_value(text.skip(mark + 1)) {
            Some(exponent) => match scaled_micros(body, exponent) {
                Some(m) => {
                    let v = if negative {
                        -(m as int)
                    } else {
                        m as int
                    };
                    if i64::MIN <= v <= i64::MAX {
                        Some(v)
                    } else {
                        None
                    }
                },
                None => None,
            },
            None => None,
        }
    }
}

/// The last `places` decimal digits of `n`, with zeros in front where `n` is short.
pub open spec fn padded(n: nat, places: nat) -> Seq<char>
    decreases places,
{
    if places == 0 {
        Seq::<char>::empty()
    } else {
        padded(n / 10, (places - 1) as nat).push(digit_char((n % 10) as int))
    }
}

/// The digits of `frac` units of the `places`-th decimal place, without the
/// zeros at the end.
pub open spec fn fraction_text(frac: nat, places: nat) -> Seq<char>
    decreases places,
{
    if places == 0 || frac == 0 {
        Seq::<char>::empty()
    } else if frac % 10 == 0 {
        fraction_text(frac / 10, (places - 1) as nat)
    } else {
        padded(frac, places)
    }
}

/// The decimal notation of `micros` microseconds in seconds: a minus sign where
/// it is negative, the whole seconds, and the fraction where there is one.
pub open spec fn seconds_text(micros: int) -> Seq<char> {
    let magnitude = if micros < 0 {
        (-micros) as nat
    } else {
        micros as nat
    };
    let whole = decimal(magnitude / 1_000_000);
    let frac = magnitude % 1_000_000;
    let unsigned = if frac == 0 {
        whole
    } else {
        whole + seq!['.'] + fraction_text(frac, 6)
    };
    if micros < 0 {
        seq!['-'] + unsigned
    } else {
        unsigned
    }
}

proof fn lemma_digits_value_monotone(s: Seq<char>, k: int)
    requires
        all_digits(s),
        0 <= k <= s.len(),
    ensures
        digits_value(s.take(k)) <= digits_value(s),
    decreases s.len() - k,
{
    if k == s.len() {
        assert(s.take(k) =~= s);
    } else {
        lemma_digits_value_monotone(s, k + 1);
        let longer = s.take(k + 1);
        assert(longer.drop_last() =~= s.take(k));
        assert(is_digit(longer.last()));
    }
}

proof fn lemma_digits_value_bound(s: Seq<char>)
    requires
        all_digits(s),
        s.len() <= 6,
    ensures
        digits_value(s) < place_micros((6 - s.len()) as nat),
    decreases s.len(),
{
    if s.len() > 0 {
        let front = s.drop_last();
        assert forall|i: int| 0 <= i < front.len() implies is_digit(#[trigger] front[i]) by {
            assert(front[i] == s[i]);
        }
        lemma_digits_value_bound(front);
        assert(is_digit(s.last()));
    }
}

proof fn lemma_digit(d: int)
    requires
        0 <= d <= 9,
    ensures
        is_digit(digit_char(d)),
        digit_value(digit_char(d)) == d,
{
}

proof fn lemma_decimal_digits(n: nat)
    ensures
        all_digits(decimal(n)),
        decimal(n).len() >= 1,
        digits_value(decimal(n)) == n,
    decreases n,
{
    let s = decimal(n);
    lemma_digit((n % 10) as int);
    if n < 10 {
        assert(s.len() == 1);
        assert(s.last() == digit_char(n as int));
        assert(s.drop_last() =~= Seq::<char>::empty());
        assert(digits_value(s.drop_last()) == 0);
        assert(digits_value(s) == (digits_value(s.drop_last()) * 10 + digit_value(
            s.last(),
        )) as nat);
    } else {
        let front = decimal(n / 10);
        lemma_decimal_digits(n / 10);
        assert(s.drop_last() =~= front);
        assert(s.last() == digit_char((n % 10) as int));
        assert(digits_value(s) == (digits_value(front) * 10 + digit_value(s.last())) as nat);
        assert forall|i: int| 0 <= i < s.len() implies is_digit(#[trigger] s[i]) by {
            if i < front.len() {
                assert(s[i] == front[i]);
            }
        }
    }
}

proof fn lemma_padded_digits(n: nat, places: nat)
    requires
        places <= 6,
    ensures
        all_digits(padded(n, places)),
        padded(n, places).len() == places,
        digits_value(padded(n, places)) == n % place_micros((6 - places) as nat),
    decreases places,
{
    let s = padded(n, places);
    if places > 0 {
        let front = padded(n / 10, (places - 1) as nat);
        let below = place_micros((7 - places) as nat);
        lemma_padded_digits(n / 10, (places - 1) as nat);
        lemma_digit((n % 10) as int);
        assert(s.drop_last() =~= front);
        assert(s.last() == digit_char((n % 10) as int));
        assert(digits_value(s) == (digits_value(front) * 10 + digit_value(s.last())) as nat);
        assert(n % (10 * below) == 10 * ((n / 10) % below) + n % 10) by {
            vstd::arithmetic::div_mod::lemma_breakdown(n as int, 10, below as int);
        }
        assert(10 * below == place_micros((6 - places) as nat));
        assert forall|i: int| 0 <= i < s.len() implies is_digit(#[trigger] s[i]) by {
            if i < front.len() {
                assert(s[i] == front[i]);
            }
        }
    } else {
        assert(digits_value(s) == 0);
    }
}

proof fn lemma_fraction_digits(frac: nat, places: nat)
    requires
        places <= 6,
        0 < frac < place_micros((6 - places) as nat),
    ensures
        all_digits(fraction_text(frac, places)),
        1 <= fraction_text(frac, places).len() <= places,
        digits_value(fraction_text(frac, places)) * place_micros(
            (6 - places + fraction_text(frac, places).len()) as nat,
        ) == frac,
    decreases places,
{
    let t = fraction_text(frac, places);
    if frac % 10 == 0 {
        lemma_fraction_digits(frac / 10, (places - 1) as nat);
        let v = digits_value(t);
        let gap = places - t.len();
        if gap == 1 {
            assert(v * 1 == frac / 10);
        } else if gap == 2 {
            assert(v * 10 == frac / 10);
        } else if gap == 3 {
            assert(v * 100 == frac / 10);
        } else if gap == 4 {
            assert(v * 1_000 == frac / 10);
        } else if gap == 5 {
            assert(v * 10_000 == frac / 10);
        } else {
            assert(v * 100_000 == frac / 10);
        }
    } else {
        lemma_padded_digits(frac, places);
    }
}

proof fn lemma_unsigned_reads_back(magnitude: nat)
    ensures
        unsigned_micros(seconds_text(magnitude as int)) == Some(magnitude),
        is_digit(seconds_text(magnitude as int)[0]),
{
    let whole = magnitude / 1_000_000;
    let frac = magnitude % 1_000_000;
    let d = decimal(whole);
    let body = seconds_text(magnitude as int);
    lemma_decimal_digits(whole);
    if frac == 0 {
        assert(body == d);
        assert forall|j: int| 0 <= j < d.len() implies d[j] != '.' by {
            assert(is_digit(d[j]));
        }
        lemma_first_index_at(body, '.', d.len() as int);
        assert(body.take(d.len() as int) =~= d);
        let none = Seq::<char>::empty();
        assert(none.take(0) =~= none);
    } else {
        let t = fraction_text(frac, 6);
        lemma_fraction_digits(frac, 6);
        assert(body == d + seq!['.'] + t);
        assert forall|j: int| 0 <= j < d.len() implies body[j] != '.' by {
            assert(body[j] == d[j]);
            assert(is_digit(d[j]));
        }
        assert(body[d.len() as int] == '.');
        lemma_first_index_at(body, '.', d.len() as int);
        assert(body.take(d.len() as int) =~= d);
        assert(body.skip(d.len() as int + 1) =~= t);
        assert(t.take(t.len() as int) =~= t);
    }
    assert(body[0] == d[0]);
}

/// The decimal notation of a time reads back as that time.
pub proof fn law_text_reads_back(micros: int)
    requires
        i64::MIN <= micros <= i64::MAX,
    ensures
        decimal_micros(seconds_text(micros)) == Some(micros),
{
    let text = seconds_text(micros);
    if micros < 0 {
        let unsigned = seconds_text(-micros);
        lemma_unsigned_reads_back((-micros) as nat);
        assert(text == seq!['-'] + unsigned);
        assert(text.skip(1) =~= unsigned);
    } else {
        lemma_unsigned_reads_back(micros as nat);
    }
}

/// The value of the digits of `chars` from `from` up to `to`, unless it is
/// above the cap on whole seconds.
fn digits_number(chars: &Vec<char>, from: usize, to: usize) -> (r: Option<u64>)
    requires
        from <= to <= chars.len(),
        all_digits(chars@.subrange(from as int, to as int)),
    ensures
        match r {
            Some(v) => v == digits_value(chars@.subrange(from as int, to as int)),
            None => digits_value(chars@.subrange(from as int, to as int)) > WHOLE_SECONDS_CAP,
        },
{
    let ghost digits = chars@.subrange(from as int, to as int);
    let mut acc: u64 = 0;
    let mut i: usize = from;
    while i < to
        invariant
            from <= i <= to <= chars.len(),
            digits == chars@.subrange(from as int, to as int),
            all_digits(digits),
            acc == digits_value(digits.take(i - from)),
            acc <= WHOLE_SECONDS_CAP * 10 + 9,
        decreases to - i,
    {
        if acc > WHOLE_SECONDS_CAP {
            proof {
                lemma_digits_value_monotone(digits, i - from);
            }
            return None;
        }
        assert(is_digit(digits[i - from]));
        let d = match digit_of(chars[i]) {
            Some(d) => d,
            None => 0,
        };
        proof {
            let longer = digits.take(i - from + 1);
            assert(longer.drop_last() =~= digits.take(i - from));
            assert(longer.last() == chars@[i as int]);
        }
        acc = acc * 10 + d as u64;
        i = i + 1;
    }
    assert(digits.take(to - from) =~= digits);
    Some(acc)
}

/// The end of the run of digits that starts at `from`.
fn digits_end(chars: &Vec<char>, from: usize) -> (end: usize)
    requires
        from <= chars.len(),
    ensures
        from <= end <= chars.len(),
        all_digits(chars@.subrange(from as int, end as int)),
        end < chars.len() ==> !is_digit(chars@[end as int]),
{
    let mut end: usize = from;
    while end < chars.len() && digit_of(chars[end]).is_some()
        invariant
            from <= end <= chars.len(),
            all_digits(chars@.subrange(from as int, end as int)),
        decreases chars.len() - end,
    {
        end = end + 1;
    }
    end
}

/// The microseconds that the fraction digits from `from` up to `to` denote.
fn fraction_value(chars: &Vec<char>, from: usize, to: usize) -> (r: u64)
    requires
        from <= to <= chars.len(),
        all_digits(chars@.subrange(from as int, to as int)),
    ensures
        r == fraction_micros(chars@.subrange(from as int, to as int)),
        r < 1_000_000,
{
    let ghost frac = chars@.subrange(from as int, to as int);
    let places: usize = if to - from < 6 {
        to - from
    } else {
        6
    };
    proof {
        let head = frac.take(places as int);
        assert(head =~= chars@.subrange(from as int, from + places));
        assert forall|i: int| 0 <= i < head.len() implies is_digit(#[trigger] head[i]) by {
            assert(head[i] == frac[i]);
        }
        lemma_digits_value_bound(head);
    }
    let v = match digits_number(chars, from, from + places) {
        Some(v) => v,
        None => 0,
    };
    assert(v == digits_value(frac.take(places as int)));
    assert(v < place_micros((6 - places) as nat));
    if places == 0 {
        v * 1_000_000
    } else if places == 1 {
        v * 100_000
    } else if places == 2 {
        v * 10_000
    } else if places == 3 {
        v * 1_000
    } else if places == 4 {
        v * 100
    } else if places == 5 {
        v * 10
    } else {
        v
    }
}

/// The microseconds that the unsigned decimal from `start` to the end of
/// `chars` denotes, unless they are more than 2^63.
fn unsigned_value(chars: &Vec<char>, start: usize) -> (r: Option<u64>)
    requires
        start <= chars.len(),
    ensures
        match r {
            Some(m) => unsigned_micros(chars@.skip(start as int)) == Some(m as nat),
            None => match unsigned_micros(chars@.skip(start as int)) {
                Some(m) => m > 0x8000_0000_0000_0000,
                None => true,
            },
        },
{
    let n = chars.len();
    let ghost body = chars@.skip(start as int);
    let whole_end = digits_end(chars, start);
    let dotted = whole_end < n;
    proof {
        assert(body.take(whole_end - start) =~= chars@.subrange(start as int, whole_end as int));
        assert forall|j: int| 0 <= j < whole_end - start implies body[j] != '.' by {
            assert(is_digit(body.take(whole_end - start)[j]));
        }
    }
    if dotted && chars[whole_end] != '.' {
        proof {
            let dot = first_index(body, '.');
            lemma_first_index(body, '.');
            assert(dot > whole_end - start);
            assert(body.take(dot)[whole_end - start] == chars@[whole_end as int]);
            assert(!all_digits(body.take(dot)));
        }
        return None;
    }
    let frac_start: usize = if dotted {
        whole_end + 1
    } else {
        n
    };
    let frac_end = digits_end(chars, frac_start);
    let ghost frac = if dotted {
        body.skip(whole_end - start + 1)
    } else {
        Seq::<char>::empty()
    };
    proof {
        lemma_first_index_at(body, '.', whole_end - start);
        assert(frac.take(frac_end - frac_start) =~= chars@.subrange(
            frac_start as int,
            frac_end as int,
        ));
    }
    if frac_end < n {
        proof {
            assert(frac[frac_end - frac_start] == chars@[frac_end as int]);
            assert(!all_digits(frac));
        }
        return None;
    }
    proof {
        assert(frac.take(frac_end - frac_start) =~= frac);
    }
    if (whole_end - start) + (frac_end - frac_start) == 0 {
        return None;
    }
    let frac_value = fraction_value(chars, frac_start, frac_end);
    match digits_number(chars, start, whole_end) {
        Some(whole_value) => {
            if whole_value > WHOLE_SECONDS_CAP {
                None
            } else {
                Some(whole_value * 1_000_000 + frac_value)
            }
        },
        None => None,
    }
}

/// Ten to the power `k`.
spec fn ten_to(k: nat) -> nat
    decreases k,
{
    if k == 0 {
        1
    } else {
        10 * ten_to((k - 1) as nat)
    }
}

proof fn lemma_zeros_step(digits: Seq<char>, count: nat)
    ensures
        digits_value(with_zeros(digits, count + 1)) == 10 * digits_value(
            with_zeros(digits, count),
        ),
        with_zeros(digits, count + 1).take(digits.len() + count as int) == with_zeros(
            digits,
            count,
        ),
{
    let longer = with_zeros(digits, count + 1);
    assert(longer.drop_last() =~= with_zeros(digits, count));
    assert(longer.take(digits.len() + count as int) =~= with_zeros(digits, count));
    assert(longer.last() == '0');
}

proof fn lemma_zeros_are_digits(digits: Seq<char>, count: nat)
    requires
        all_digits(digits),
    ensures
        all_digits(with_zeros(digits, count)),
{
    let padded = with_zeros(digits, count);
    assert forall|i: int| 0 <= i < padded.len() implies is_digit(#[trigger] padded[i]) by {
        if i < digits.len() {
            assert(padded[i] == digits[i]);
        }
    }
}

proof fn lemma_zeros_of_zero(digits: Seq<char>, count: nat)
    requires
        digits_value(digits) == 0,
    ensures
        digits_value(with_zeros(digits, count)) == 0,
    decreases count,
{
    if count == 0 {
        assert(with_zeros(digits, 0) =~= digits);
    } else {
        lemma_zeros_of_zero(digits, (count - 1) as nat);
        lemma_zeros_step(digits, (count - 1) as nat);
    }
}

proof fn lemma_zeros_grow(digits: Seq<char>, count: nat)
    requires
        digits_value(digits) >= 1,
    ensures
        digits_value(with_zeros(digits, count)) >= ten_to(count),
    decreases count,
{
    if count == 0 {
        assert(with_zeros(digits, 0) =~= digits);
    } else {
        lemma_zeros_grow(digits, (count - 1) as nat);
        lemma_zeros_step(digits, (count - 1) as nat);
    }
}

proof fn lemma_many_zeros_overflow(digits: Seq<char>, count: nat)
    requires
        all_digits(digits),
        digits_value(digits) >= 1,
        count >= 20,
    ensures
        digits_value(with_zeros(digits, count)) > 0x8000_0000_0000_0000,
{
    lemma_zeros_grow(digits, 20);
    assert(ten_to(20) == 100_000_000_000_000_000_000) by {
        reveal_with_fuel(ten_to, 21);
    }
    let all = with_zeros(digits, count);
    lemma_zeros_are_digits(digits, count);
    assert(all.take(digits.len() as int + 20) =~= with_zeros(digits, 20));
    lemma_digits_value_monotone(all, digits.len() as int + 20);
}

/// The value of `prefix` followed by the digits of `chars` from `from` up
/// to `to`, given the value of `prefix`, unless it is above `cap`.
fn extend_value(
    chars: &Vec<char>,
    from: usize,
    to: usize,
    start: u128,
    cap: u128,
    Ghost(prefix): Ghost<Seq<char>>,
) -> (r: Option<u128>)
    requires
        from <= to <= chars.len(),
        all_digits(chars@.subrange(from as int, to as int)),
        all_digits(prefix),
        start == digits_value(prefix),
        start <= cap <= 0x1_0000_0000_0000_0000_0000_0000,
    ensures
        match r {
            Some(v) => v == digits_value(prefix + chars@.subrange(from as int, to as int)) && v
                <= cap,
            None => digits_value(prefix + chars@.subrange(from as int, to as int)) > cap,
        },
{
    let ghost digits = chars@.subrange(from as int, to as int);
    let ghost full = prefix + digits;
    let mut acc: u128 = start;
    let mut i: usize = from;
    proof {
        assert(full.take(prefix.len() as int) =~= prefix);
        assert forall|j: int| 0 <= j < full.len() implies is_digit(#[trigger] full[j]) by {
            if j < prefix.len() {
                assert(full[j] == prefix[j]);
            } else {
                assert(full[j] == digits[j - prefix.len()]);
            }
        }
    }
    while i < to
        invariant
            from <= i <= to <= chars.len(),
            digits == chars@.subrange(from as int, to as int),
            full == prefix + digits,
            all_digits(digits),
            all_digits(full),
            acc == digits_value(full.take(prefix.len() + i - from)),
            acc <= cap <= 0x1_0000_0000_0000_0000_0000_0000,
        decreases to - i,
    {
        assert(is_digit(digits[i - from]));
        let d = match digit_of(chars[i]) {
            Some(d) => d,
            None => 0,
        };
        let next: u128 = acc * 10 + d as u128;
        proof {
            let longer = full.take(prefix.len() + i - from + 1);
            assert(longer.drop_last() =~= full.take(prefix.len() + i - from));
            assert(longer.last() == chars@[i as int]);
        }
        if next > cap {
            proof {
                lemma_digits_value_monotone(full, prefix.len() + i - from + 1);
            }
            return None;
        }
        acc = next;
        i = i + 1;
    }
    assert(full.take(full.len() as int) =~= full);
    Some(acc)
}

/// The value of `prefix` followed by `count` zeros, given the value of
/// `prefix`, unless it is above `cap`.
fn pad_value(start: u128, count: u128, cap: u128, Ghost(prefix): Ghost<Seq<char>>) -> (r: Option<
    u128,
>)
    requires
        all_digits(prefix),
        start == digits_value(prefix),
        start <= cap <= 0x1_0000_0000_0000_0000_0000_0000,
    ensures
        match r {
            Some(v) => v == digits_value(with_zeros(prefix, count as nat)) && v <= cap,
            None => digits_value(with_zeros(prefix, count as nat)) > cap,
        },
{
    if start == 0 {
        proof {
            lemma_zeros_of_zero(prefix, count as nat);
        }
        return Some(0);
    }
    let mut acc: u128 = start;
    let mut i: u128 = 0;
    assert(with_zeros(prefix, 0) =~= prefix);
    while i < count
        invariant
            i <= count,
            all_digits(prefix),
            acc == digits_value(with_zeros(prefix, i as nat)),
            acc <= cap <= 0x1_0000_0000_0000_0000_0000_0000,
        decreases count - i,
    {
        let next: u128 = acc * 10;
        proof {
            lemma_zeros_step(prefix, i as nat);
        }
        if next > cap {
            proof {
                let all = with_zeros(prefix, count as nat);
                lemma_zeros_are_digits(prefix, count as nat);
                assert(all.take(prefix.len() + i + 1) =~= with_zeros(prefix, (i + 1) as nat));
                lemma_digits_value_monotone(all, prefix.len() + i + 1);
            }
            return None;
        }
        acc = next;
        i = i + 1;
    }
    Some(acc)
}

/// Where the digits before the point of the unsigned decimal from `start` to
/// the end of `chars` end, where that is such a decimal.
fn whole_end(chars: &Vec<char>, start: usize) -> (r: Option<usize>)
    requires
        start <= chars.len(),
    ensures
        match r {
            Some(w) => start <= w <= chars.len() && decimal_parts(chars@.skip(start as int))
                == Some(
                (
                    chars@.subrange(start as int, w as int),
                    chars@.subrange(
                        if w < chars.len() {
                            w + 1
                        } else {
                            w as int
                        },
                        chars.len() as int,
                    ),
                ),
            ) && all_digits(chars@.subrange(start as int, w as int)) && all_digits(
                chars@.subrange(
                    if w < chars.len() {
                        w + 1
                    } else {
                        w as int
                    },
                    chars.len() as int,
                ),
            ),
            None => decimal_parts(chars@.skip(start as int)) is None,
        },
{
    let n = chars.len();
    let ghost body = chars@.skip(start as int);
    let w = digits_end(chars, start);
    let dotted = w < n;
    proof {
        assert(body.take(w - start) =~= chars@.subrange(start as int, w as int));
        assert forall|j: int| 0 <= j < w - start implies body[j] != '.' by {
            assert(is_digit(body.take(w - start)[j]));
        }
    }
    if dotted && chars[w] != '.' {
        proof {
            let dot = first_index(body, '.');
            lemma_first_index(body, '.');
            assert(dot > w - start);
            assert(body.take(dot)[w - start] == chars@[w as int]);
            assert(!all_digits(body.take(dot)));
        }
        return None;
    }
    let frac_start: usize = if dotted {
        w + 1
    } else {
        n
    };
    let frac_end = digits_end(chars, frac_start);
    let ghost frac = if dotted {
        body.skip(w - start + 1)
    } else {
        Seq::<char>::empty()
    };
    proof {
        lemma_first_index_at(body, '.', w - start);
        assert(frac.take(frac_end - frac_start) =~= chars@.subrange(
            frac_start as int,
            frac_end as int,
        ));
    }
    if frac_end < n {
        proof {
            assert(frac[frac_end - frac_start] == chars@[frac_end as int]);
            assert(!all_digits(frac));
        }
        return None;
    }
    proof {
        assert(frac.take(frac_end - frac_start) =~= frac);
        assert(frac =~= chars@.subrange(frac_start as int, n as int));
    }
    if (w - start) + (frac_end - frac_start) == 0 {
        return None;
    }
    Some(w)
}

/// The value of the digits that stand before the point when the point
/// stands after the first `point` digits of a decimal: of the digits of
/// `chars` from `start` up to `w`, and of those after the point at `w` to the
/// end. `None` where the value is above 2^63.
fn scaled_value(chars: &Vec<char>, start: usize, w: usize, point: i128) -> (r: Option<u128>)
    requires
        start <= w <= chars.len(),
        all_digits(chars@.subrange(start as int, w as int)),
        all_digits(
            chars@.subrange(
                if w < chars.len() {
                    w + 1
                } else {
                    w as int
                },
                chars.len() as int,
            ),
        ),
        -0x1_0000_0000_0000_0000_0000_0000 <= point <= 0x1_0000_0000_0000_0000_0000_0000,
    ensures
        ({
            let whole = chars@.subrange(start as int, w as int);
            let frac = chars@.subrange(
                if w < chars.len() {
                    w + 1
                } else {
                    w as int
                },
                chars.len() as int,
            );
            let value = digits_value(digits_before(whole + frac, point as int));
            match r {
                Some(v) => v == value && v <= 0x8000_0000_0000_0000,
                None => value > 0x8000_0000_0000_0000,
            }
        }),
{
    let n = chars.len();
    let f: usize = if w < n {
        w + 1
    } else {
        w
    };
    let whole_len: usize = w - start;
    let frac_len: usize = n - f;
    let cap: u128 = 0x8000_0000_0000_0000;
    let ghost none = Seq::<char>::empty();
    let ghost whole = chars@.subrange(start as int, w as int);
    let ghost frac = chars@.subrange(f as int, n as int);
    let ghost digits = whole + frac;
    let ghost target = digits_before(digits, point as int);
    proof {
        assert forall|j: int| 0 <= j < digits.len() implies is_digit(#[trigger] digits[j]) by {
            if j < whole.len() {
                assert(digits[j] == whole[j]);
            } else {
                assert(digits[j] == frac[j - whole.len()]);
            }
        }
        if point > digits.len() {
            lemma_zeros_are_digits(digits, (point - digits.len()) as nat);
        }
        assert forall|j: int| 0 <= j < target.len() implies is_digit(#[trigger] target[j]) by {
            if point <= digits.len() {
                assert(target[j] == digits[j]);
            }
        }
    }
    if point <= 0 {
        return Some(0);
    }
    if point <= whole_len as i128 {
        let k: usize = point as usize;
        proof {
            let head = chars@.subrange(start as int, start + k);
            assert(head =~= target);
            assert(none + head =~= target);
        }
        return extend_value(chars, start, start + k, 0, cap, Ghost(none));
    }
    proof {
        assert(none + whole =~= whole);
        assert(target.take(whole.len() as int) =~= whole);
    }
    let first = match extend_value(chars, start, w, 0, cap, Ghost(none)) {
        Some(v) => v,
        None => {
            proof {
                lemma_digits_value_monotone(target, whole.len() as int);
            }
            return None;
        },
    };
    let more: i128 = point - whole_len as i128;
    let m: usize = if more < frac_len as i128 {
        more as usize
    } else {
        frac_len
    };
    proof {
        let head = chars@.subrange(f as int, f + m);
        assert(head =~= frac.take(m as int));
        assert forall|j: int| 0 <= j < head.len() implies is_digit(#[trigger] head[j]) by {
            assert(head[j] == frac[j]);
        }
        assert(target.take(whole.len() + m) =~= whole + head);
    }
    let second = match extend_value(chars, f, f + m, first, cap, Ghost(whole)) {
        Some(v) => v,
        None => {
            proof {
                lemma_digits_value_monotone(target, whole.len() + m);
            }
            return None;
        },
    };
    if more <= frac_len as i128 {
        proof {
            assert(target.take(whole.len() + m) =~= target);
        }
        Some(second)
    } else {
        proof {
            assert(frac.take(m as int) =~= frac);
        }
        pad_value(second, (more - frac_len as i128) as u128, cap, Ghost(digits))
    }
}

/// Where the exponent of the number `chars` begins.
fn find_mark(chars: &Vec<char>) -> (mark: usize)
    ensures
        mark == exponent_mark(chars@),
        mark <= chars.len(),
{
    let n = chars.len();
    let mut mark: usize = 0;
    while mark < n && chars[mark] != 'e' && chars[mark] != 'E'
        invariant
            mark <= n,
            n == chars.len(),
            forall|j: int| 0 <= j < mark ==> chars@[j] != 'e' && chars@[j] != 'E',
        decreases n - mark,
    {
        mark = mark + 1;
    }
    proof {
        lemma_first_index(chars@, 'e');
        lemma_first_index(chars@, 'E');
        if mark < n && chars@[mark as int] == 'e' {
            lemma_first_index_at(chars@, 'e', mark as int);
        } else if mark < n {
            lemma_first_index_at(chars@, 'E', mark as int);
        } else {
            lemma_first_index_at(chars@, 'e', mark as int);
            lemma_first_index_at(chars@, 'E', mark as int);
        }
    }
    mark
}

/// The exponent that follows the mark at `mark`, where it is one: whether it
/// is negative, and how much it is, unless that is more than 2^70.
fn read_exponent(chars: &Vec<char>, mark: usize) -> (r: Option<(bool, Option<u128>)>)
    requires
        mark < chars.len(),
    ensures
        match r {
            Some((negative, size)) => exponent_value(chars@.skip(mark + 1)) is Some && negative
                == (exponent_value(chars@.skip(mark + 1))->Some_0 < 0) && match size {
                Some(e) => e <= 0x40_0000_0000_0000_0000 && exponent_value(
                    chars@.skip(mark + 1),
                )->Some_0 == if negative {
                    -(e as int)
                } else {
                    e as int
                },
                None => if negative {
                    exponent_value(chars@.skip(mark + 1))->Some_0 < -0x40_0000_0000_0000_0000
                } else {
                    exponent_value(chars@.skip(mark + 1))->Some_0 > 0x40_0000_0000_0000_0000
                },
            },
            None => exponent_value(chars@.skip(mark + 1)) is None,
        },
{
    let n = chars.len();
    let signed = mark + 1 < n && (chars[mark + 1] == '-' || chars[mark + 1] == '+');
    let minus = mark + 1 < n && chars[mark + 1] == '-';
    let from: usize = if signed {
        mark + 2
    } else {
        mark + 1
    };
    let ghost none = Seq::<char>::empty();
    let ghost text = chars@.skip(mark + 1);
    let ghost digits = if signed {
        text.skip(1)
    } else {
        text
    };
    let to = digits_end(chars, from);
    proof {
        assert(digits =~= chars@.subrange(from as int, n as int));
        assert(none + digits =~= digits);
        if mark + 1 < n {
            assert(text[0] == chars@[mark + 1]);
        }
    }
    if to < n || from == n {
        proof {
            if to < n {
                assert(digits[to - from] == chars@[to as int]);
            }
        }
        return None;
    }
    let size = extend_value(chars, from, n, 0, 0x40_0000_0000_0000_0000, Ghost(none));
    let negative = match size {
        Some(e) => minus && e > 0,
        None => minus,
    };
    Some((negative, size))
}

/// The characters of `chars` before `end`.
fn copy_prefix(chars: &Vec<char>, end: usize) -> (head: Vec<char>)
    requires
        end <= chars.len(),
    ensures
        head@ == chars@.take(end as int),
{
    let mut head: Vec<char> = Vec::new();
    let mut i: usize = 0;
    assert(head@ =~= chars@.take(0));
    while i < end
        invariant
            i <= end <= chars.len(),
            head@ == chars@.take(i as int),
        decreases end - i,
    {
        head.push(chars[i]);
        i = i + 1;
        assert(head@ =~= chars@.take(i as int));
    }
    head
}

/// The microseconds that the unsigned decimal from `start` to the end of
/// `chars` denotes when it is scaled by the exponent that `negative` and
/// `size` describe. The outer `None` where it is no decimal, the inner where
/// the microseconds are more than 2^63.
fn scaled_unsigned(
    chars: &Vec<char>,
    start: usize,
    negative: bool,
    size: Option<u128>,
    Ghost(exponent): Ghost<int>,
) -> (r: Option<Option<u128>>)
    requires
        start <= chars.len(),
        negative == (exponent < 0),
        match size {
            Some(e) => e <= 0x40_0000_0000_0000_0000 && exponent == if negative {
                -(e as int)
            } else {
                e as int
            },
            None => if negative {
                exponent < -0x40_0000_0000_0000_0000
            } else {
                exponent > 0x40_0000_0000_0000_0000
            },
        },
    ensures
        match r {
            Some(Some(v)) => scaled_micros(chars@.skip(start as int), exponent) == Some(v as nat)
                && v <= 0x8000_0000_0000_0000,
            Some(None) => scaled_micros(chars@.skip(start as int), exponent) is Some
                && scaled_micros(chars@.skip(start as int), exponent)->Some_0
                > 0x8000_0000_0000_0000,
            None => scaled_micros(chars@.skip(start as int), exponent) is None,
        },
{
    let n = chars.len();
    let w = match whole_end(chars, start) {
        Some(w) => w,
        None => {
            return None;
        },
    };
    let after: usize = if w < n {
        w + 1
    } else {
        w
    };
    let whole_len: usize = w - start;
    let frac_len: usize = n - after;
    let ghost whole = chars@.subrange(start as int, w as int);
    let ghost frac = chars@.subrange(after as int, n as int);
    let ghost digits = whole + frac;
    match size {
        Some(e) => {
            let shift: i128 = if negative {
                0 - e as i128
            } else {
                e as i128
            };
            Some(scaled_value(chars, start, w, whole_len as i128 + shift + 6))
        },
        None => {
            if negative {
                Some(Some(0))
            } else {
                let ghost count = (6 + exponent - frac.len()) as nat;
                proof {
                    assert(digits.take(digits.len() as int) =~= digits);
                    assert forall|j: int| 0 <= j < digits.len() implies is_digit(
                        #[trigger] digits[j],
                    ) by {
                        if j < whole.len() {
                            assert(digits[j] == whole[j]);
                        } else {
                            assert(digits[j] == frac[j - whole.len()]);
                        }
                    }
                    lemma_zeros_are_digits(digits, count);
                    assert(with_zeros(digits, count).take(digits.len() as int) =~= digits);
                    lemma_digits_value_monotone(with_zeros(digits, count), digits.len() as int);
                }
                match scaled_value(chars, start, w, (whole_len + frac_len) as i128) {
                    Some(v) => {
                        if v == 0 {
                            proof {
                                lemma_zeros_of_zero(digits, count);
                            }
                            Some(Some(0))
                        } else {
                            proof {
                                lemma_many_zeros_overflow(digits, count);
                            }
                            Some(None)
                        }
                    },
                    None => Some(None),
                }
            }
        },
    }
}

/// Appends the last `places` decimal digits of `n` to `buf`.
fn push_padded(buf: &mut String, n: u64, places: u8)
    ensures
        final(buf)@ == old(buf)@ + padded(n as nat, places as nat),
    decreases places,
{
    if places > 0 {
        push_padded(buf, n / 10, places - 1);
        buf.append(digit_str((n % 10) as u8));
    }
    assert(buf@ =~= old(buf)@ + padded(n as nat, places as nat));
}

impl Seconds {
    /// The time of `micros` microseconds.
    pub fn from_micros(micros: i64) -> (r: Seconds)
        ensures
            r.micros == micros,
    {
        Seconds { micros }
    }

    /// Reads a decimal number of seconds. `None` where `text` is no such
    /// decimal, or where the time is outside what an `i64` of microseconds holds.
    pub fn parse(text: &str) -> (r: Option<Seconds>)
        ensures
            match r {
                Some(t) => decimal_micros(text@) == Some(t.micros as int),
                None => decimal_micros(text@) is None,
            },
    {
        let chars = chars_of(text);
        let n = chars.len();
        let signed = n > 0 && (chars[0] == '-' || chars[0] == '+');
        let negative = n > 0 && chars[0] == '-';
        let start: usize = if signed {
            1
        } else {
            0
        };
        proof {
            assert(text@.skip(0) =~= text@);
        }
        match unsigned_value(&chars, start) {
            Some(magnitude) => {
                if negative {
                    if magnitude > 0x8000_0000_0000_0000 {
                        None
                    } else {
                        Some(Seconds { micros: (0 - magnitude as i128) as i64 })
                    }
                } else {
                    if magnitude > 0x7fff_ffff_ffff_ffff {
                        None
                    } else {
                        Some(Seconds { micros: magnitude as i64 })
                    }
                }
            },
            None => None,
        }
    }

    /// Reads a number of seconds in decimal or in scientific notation, as
    /// JSON writes numbers: `5.5`, `1e-7`, `2.5E3`. `None` where `text` is no
    /// such number, or where the time is outside what an `i64` of microseconds
    /// holds. What is below a microsecond does not count.
    pub fn parse_number(text: &str) -> (r: Option<Seconds>)
        ensures
            match r {
                Some(t) => number_micros(text@) == Some(t.micros as int),
                None => number_micros(text@) is None,
            },
    {
        let chars = chars_of(text);
        let n = chars.len();
        let mark = find_mark(&chars);
        if mark == n {
            return Seconds::parse(text);
        }
        let exponent = match read_exponent(&chars, mark) {
            Some(exponent) => exponent,
            None => {
                return None;
            },
        };
        let mantissa = copy_prefix(&chars, mark);
        let signed = mark > 0 && (mantissa[0] == '-' || mantissa[0] == '+');
        let negative = mark > 0 && mantissa[0] == '-';
        let start: usize = if signed {
            1
        } else {
            0
        };
        proof {
            assert(mantissa@.skip(0) =~= mantissa@);
        }
        let ghost e = exponent_value(text@.skip(mark + 1))->Some_0;
        match scaled_unsigned(&mantissa, start, exponent.0, exponent.1, Ghost(e)) {
            Some(Some(magnitude)) => {
                if negative {
                    Some(Seconds { micros: (0 - magnitude as i128) as i64 })
                } else {
                    if magnitude > 0x7fff_ffff_ffff_ffff {
                        None
                    } else {
                        Some(Seconds { micros: magnitude as i64 })
                    }
                }
            },
            _ => None,
        }
    }

    /// Writes the time as a decimal number of seconds.
    pub fn to_text(&self) -> (s: String)
        ensures
            s@ == seconds_text(self.micros as int),
    {
        micros_text(self.micros as i128)
    }

    /// The time from `earlier` to `self`, written as a decimal number of
    /// seconds. The difference of two times is written exactly, also where it
    /// is more than a `Seconds` can hold.
    pub fn text_since(&self, earlier: Seconds) -> (s: String)
        ensures
            s@ == seconds_text(self.micros - earlier.micros),
    {
        micros_text(self.micros as i128 - earlier.micros as i128)
    }
}

/// The decimal notation of `micros` microseconds in seconds.
fn micros_text(micros: i128) -> (s: String)
    requires
        -0x1_0000_0000_0000_0000 < micros < 0x1_0000_0000_0000_0000,
    ensures
        s@ == seconds_text(micros as int),
{
    let magnitude: u64 = if micros < 0 {
        (0 - micros) as u64
    } else {
        micros as u64
    };
    let mut s = String::new();
    proof {
        reveal_strlit("-");
        reveal_strlit(".");
    }
    if micros < 0 {
        s.append("-");
    }
    push_decimal(&mut s, magnitude / 1_000_000);
    let mut frac: u64 = magnitude % 1_000_000;
    if frac != 0 {
        s.append(".");
        let ghost head = s@;
        let mut places: u8 = 6;
        while places > 0 && frac % 10 == 0
            invariant
                frac != 0,
                places <= 6,
                fraction_text(frac as nat, places as nat) == fraction_text(
                    (magnitude % 1_000_000) as nat,
                    6,
                ),
            decreases places,
        {
            frac = frac / 10;
            places = places - 1;
        }
        push_padded(&mut s, frac, places);
        assert(s@ =~= head + fraction_text((magnitude % 1_000_000) as nat, 6));
    }
    assert(s@ =~= seconds_text(micros as int));
    s
}

} // verus!
