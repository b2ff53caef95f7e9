//! Decimal notation for amounts: writing an amount with two decimal places,
//! and reading one from text.
use crate::fixed::{representable, round_div};
use vstd::prelude::*;

verus! {

/// The character of the digit `d`.
pub open spec fn digit_char(d: int) -> char
    recommends
        0 <= d <= 9,
{
    seq!['0', '1', '2', '3', '4', '5', '6', '7', '8', '9'][d]
}

/// The decimal notation of `n`, without leading zeros.
pub open spec fn decimal_text(n: nat) -> Seq<char>
    decreases n,
{
    if n < 10 {
        seq![digit_char(n as int)]
    } else {
        decimal_text(n / 10).push(digit_char((n % 10) as int))
    }
}

/// The hundredths nearest to `value` millionths, halves away from zero, as a
/// magnitude.
pub open spec fn hundredths(value: int) -> int {
    round_div(
        if value < 0 {
            -value
        } else {
            value
        },
        10_000,
    )
}

/// `value` millionths written with two decimal places: a minus sign where
/// `value` is below zero, the whole part, a point and two digits.
pub open spec fn two_places(value: int) -> Seq<char> {
    let h = hundredths(value);
    let sign = if value < 0 {
        seq!['-']
    } else {
        Seq::<char>::empty()
    };
    sign + decimal_text((h / 100) as nat) + seq!['.', digit_char((h / 10) % 10), digit_char(h % 10)]
}

/// The text of one digit.
fn digit_text(d: u64) -> (text: &'static str)
    requires
        d <= 9,
    ensures
        text@ == seq![digit_char(d as int)],
{
    proof {
        reveal_strlit("0");
        reveal_strlit("1");
        reveal_strlit("2");
        reveal_strlit("3");
        reveal_strlit("4");
        reveal_strlit("5");
        reveal_strlit("6");
        reveal_strlit("7");
        reveal_strlit("8");
        reveal_strlit("9");
    }
    let text = match d {
        0 => "0",
        1 => "1",
        2 => "2",
        3 => "3",
        4 => "4",
        5 => "5",
        6 => "6",
        7 => "7",
        8 => "8",
        _ => "9",
    };
    assert(text@ =~= seq![digit_char(d as int)]);
    text
}

/// Appends the decimal notation of `n` to `out`.
fn append_decimal(out: &mut String, n: u64)
    ensures
        final(out)@ == old(out)@ + decimal_text(n as nat),
    decreases n,
{
    if n >= 10 {
        append_decimal(out, n / 10);
    }
    out.append(digit_text(n % 10));
    proof {
        let before = old(out)@;
        if n >= 10 {
            assert(final(out)@ =~= before + decimal_text((n / 10) as nat).push(
                digit_char((n % 10) as int),
            ));
        } else {
            assert(final(out)@ =~= before + seq![digit_char(n as int)]);
        }
    }
}

/// Writes `value` millionths with two decimal places, rounded to the nearest
/// hundredth, halves away from zero.
pub fn render(value: i64) -> (text: String)
    ensures
        text@ == two_places(value as int),
{
    let wide: i128 = value as i128;
    let magnitude: i128 = if wide < 0 {
        -wide
    } else {
        wide
    };
    let h: u64 = ((magnitude + 5_000) / 10_000) as u64;
    let mut text = if value < 0 {
        String::from_str("-")
    } else {
        String::new()
    };
    proof {
        reveal_strlit("-");
        reveal_strlit(".");
        assert(text@ =~= if value < 0 {
            seq!['-']
        } else {
            Seq::<char>::empty()
        });
        assert(h == hundredths(value as int));
    }
    append_decimal(&mut text, h / 100);
    text.append(".");
    text.append(digit_text((h / 10) % 10));
    text.append(digit_text(h % 10));
    proof {
        assert(text@ =~= two_places(value as int));
    }
    text
}

/// Whether `c` is a decimal digit.
pub open spec fn is_digit(c: char) -> bool {
    '0' <= c <= '9'
}

/// The number that the digit `c` stands for.
pub open spec fn digit_of(c: char) -> int {
    c as int - '0' as int
}

/// Whether every character of `s` is a decimal digit.
pub open spec fn all_digits(s: Seq<char>) -> bool {
    forall|i: int| 0 <= i < s.len() ==> is_digit(#[trigger] s[i])
}

/// The number that the digits `s` denote; zero for no digits.
pub open spec fn digits_value(s: Seq<char>) -> int
    decreases s.len(),
{
    if s.len() == 0 {
        0
    } else {
        digits_value(s.drop_last()) * 10 + digit_of(s.last())
    }
}

/// How many digits `s` begins with.
pub open spec fn leading_digits(s: Seq<char>) -> int
    decreases s.len(),
{
    if s.len() > 0 && is_digit(s[0]) {
        1 + leading_digits(s.drop_first())
    } else {
        0
    }
}

/// `v` with `n` zeros written after it: `v` times the `n`th power of ten.
pub open spec fn scale_up(v: int, n: nat) -> int
    decreases n,
{
    if n == 0 {
        v
    } else {
        scale_up(v * 10, (n - 1) as nat)
    }
}

/// The whole number nearest to what the digits `d` denote with the decimal
/// point after the first `k` of them, halves up. Where `k` is beyond the
/// digits, zeros fill the gap; where it is below zero, they stand before the
/// digits.
pub open spec fn shifted(d: Seq<char>, k: int) -> int {
    if k < 0 {
        0
    } else if k < d.len() {
        digits_value(d.subrange(0, k)) + if digit_of(d[k]) >= 5 {
            1int
        } else {
            0int
        }
    } else {
        scale_up(digits_value(d), (k - d.len()) as nat)
    }
}

/// The power of ten that the end of a numeral asks for: zero where nothing
/// follows the digits, else the number after an `e` or `E`, which may have a
/// sign and has at least one digit. `None` for any other ending.
pub open spec fn exponent_of(tail: Seq<char>) -> Option<int> {
    if tail.len() == 0 {
        Some(0int)
    } else if tail[0] == 'e' || tail[0] == 'E' {
        let after = tail.drop_first();
        let signed = after.len() > 0 && (after[0] == '-' || after[0] == '+');
        let digits = if signed {
            after.drop_first()
        } else {
            after
        };
        if digits.len() > 0 && all_digits(digits) {
            Some(
                if signed && after[0] == '-' {
                    -digits_value(digits)
                } else {
                    digits_value(digits)
                },
            )
        } else {
            None
        }
    } else {
        None
    }
}

/// The amount, in millionths, that `text` denotes. A numeral is an optional
/// sign, digits, optionally a point and more digits, with a digit on at least
/// one side of the point, and optionally an exponent: `e` or `E`, an optional
/// sign and digits. It denotes its digits times ten to the exponent, rounded
/// to the nearest millionth, halves away from zero.
///
/// `None` for any other text, and for a numeral whose amount is not
/// representable, that is beyond 9223372036854.775807 on either side (one
/// millionth more below zero). The words for infinity and for what is not a
/// number (`inf`, `infinity`, `nan`) denote no amount.
pub open spec fn denoted(text: Seq<char>) -> Option<int> {
    let signed = text.len() > 0 && (text[0] == '-' || text[0] == '+');
    let body = if signed {
        text.drop_first()
    } else {
        text
    };
    match magnitude_of(body) {
        Some(magnitude) => {
            let amount = if signed && text[0] == '-' {
                -magnitude
            } else {
                magnitude
            };
            if representable(amount) {
                Some(amount)
            } else {
                None
            }
        },
        None => None,
    }
}

/// The millionths that the numeral `body`, which has no sign, denotes;
/// `None` where `body` is no numeral.
pub open spec fn magnitude_of(body: Seq<char>) -> Option<int> {
    let whole = leading_digits(body);
    let after_whole = body.subrange(whole, body.len() as int);
    let after_point = if after_whole.len() > 0 && after_whole[0] == '.' {
        after_whole.drop_first()
    } else {
        after_whole
    };
    let fraction = leading_digits(after_point);
    let digits = body.subrange(0, whole) + after_point.subrange(0, fraction);
    match exponent_of(after_point.subrange(fraction, after_point.len() as int)) {
        Some(exponent) => if digits.len() > 0 {
            Some(shifted(digits, whole + exponent + 6))
        } else {
            None
        },
        None => None,
    }
}

proof fn lemma_leading_digits(s: Seq<char>, w: int)
    requires
        0 <= w <= s.len(),
        forall|j: int| 0 <= j < w ==> is_digit(#[trigger] s[j]),
        w < s.len() ==> !is_digit(s[w]),
    ensures
        leading_digits(s) == w,
    decreases w,
{
    if w > 0 {
        let tail = s.drop_first();
        assert forall|j: int| 0 <= j < w - 1 implies is_digit(#[trigger] tail[j]) by {
            assert(tail[j] == s[j + 1]);
        }
        lemma_leading_digits(tail, w - 1);
    }
}

proof fn lemma_leading_digits_are_digits(s: Seq<char>)
    ensures
        0 <= leading_digits(s) <= s.len(),
        forall|j: int| 0 <= j < leading_digits(s) ==> is_digit(#[trigger] s[j]),
    decreases s.len(),
{
    if s.len() > 0 && is_digit(s[0]) {
        let tail = s.drop_first();
        lemma_leading_digits_are_digits(tail);
        assert forall|j: int| 0 <= j < leading_digits(s) implies is_digit(#[trigger] s[j]) by {
            if j > 0 {
                assert(s[j] == tail[j - 1]);
            }
        }
    }
}

proof fn lemma_scale_up_grows(v: int, n: nat)
    requires
        v >= 0,
    ensures
        scale_up(v, n) >= v,
        v == 0 ==> scale_up(v, n) == 0,
    decreases n,
{
    if n > 0 {
        lemma_scale_up_grows(v * 10, (n - 1) as nat);
    }
}

/// The end of an exponent holds an `e`, a sign and digits only.
proof fn lemma_exponent_is_ascii(tail: Seq<char>)
    requires
        exponent_of(tail) is Some,
    ensures
        vstd::utf8::is_ascii_chars(tail),
{
    assert forall|i: int| 0 <= i < tail.len() implies '\0' <= #[trigger] tail[i] <= '\u{7f}' by {
        let after = tail.drop_first();
        let signed = after.len() > 0 && (after[0] == '-' || after[0] == '+');
        let digits = if signed {
            after.drop_first()
        } else {
            after
        };
        if i > 0 {
            assert(after[i - 1] == tail[i]);
            if signed {
                if i > 1 {
                    assert(digits[i - 2] == after[i - 1]);
                }
            } else {
                assert(digits[i - 1] == after[i - 1]);
            }
        }
    }
}

/// Text that denotes an amount holds signs, digits, points and the letter
/// of the exponent only.
proof fn lemma_denoted_is_ascii(text: Seq<char>)
    requires
        denoted(text) is Some,
    ensures
        vstd::utf8::is_ascii_chars(text),
{
    let signed = text.len() > 0 && (text[0] == '-' || text[0] == '+');
    let body = if signed {
        text.drop_first()
    } else {
        text
    };
    let w = leading_digits(body);
    lemma_leading_digits_are_digits(body);
    let after_whole = body.subrange(w, body.len() as int);
    let dotted = after_whole.len() > 0 && after_whole[0] == '.';
    let after_point = if dotted {
        after_whole.drop_first()
    } else {
        after_whole
    };
    let f = leading_digits(after_point);
    lemma_leading_digits_are_digits(after_point);
    let tail = after_point.subrange(f, after_point.len() as int);
    lemma_exponent_is_ascii(tail);
    assert forall|i: int| 0 <= i < text.len() implies '\0' <= #[trigger] text[i] <= '\u{7f}' by {
        let offset: int = if signed {
            1
        } else {
            0
        };
        if i >= offset {
            let j = i - offset;
            assert(body[j] == text[i]);
            if j >= w {
                assert(after_whole[j - w] == body[j]);
                let shift: int = if dotted {
                    1
                } else {
                    0
                };
                if j - w >= shift {
                    let p = j - w - shift;
                    assert(after_point[p] == after_whole[j - w]);
                    if p >= f {
                        assert(tail[p - f] == after_point[p]);
                    }
                }
            }
        }
    }
}

/// The magnitude beyond which no amount is representable.
const MAGNITUDE_MAX: i128 = 0x8000_0000_0000_0000;

/// The bound up to which an exponent is counted; beyond it only its sign
/// matters.
const EXPONENT_MAX: i128 = 0x4_0000_0000_0000_0000;

/// Whether `bytes` holds the characters `s`, one byte each.
spec fn mirrors(bytes: Seq<u8>, s: Seq<char>) -> bool {
    &&& bytes.len() == s.len()
    &&& forall|j: int| 0 <= j < s.len() ==> bytes[j] as int == #[trigger] s[j] as int
}

/// Whether a count stands for the number `v`: it is `v` where `v` is at
/// most `cap`, and is marked as beyond where it is not.
spec fn stands_for(count: i128, beyond: bool, v: int, cap: i128) -> bool {
    if beyond {
        v > cap
    } else {
        count == v && 0 <= v <= cap
    }
}

/// Where the digits that begin at `start` end.
fn scan_digits(bytes: &[u8], start: usize, Ghost(s): Ghost<Seq<char>>) -> (end: usize)
    requires
        mirrors(bytes@, s),
        start <= s.len(),
    ensures
        start <= end <= s.len(),
        forall|j: int| start <= j < end ==> is_digit(#[trigger] s[j]),
        end < s.len() ==> !is_digit(s[end as int]),
{
    let n = bytes.len();
    let mut i = start;
    while i < n && 48 <= bytes[i] && bytes[i] <= 57
        invariant
            mirrors(bytes@, s),
            n == s.len(),
            start <= i <= n,
            forall|j: int| start <= j < i ==> is_digit(#[trigger] s[j]),
        decreases n - i,
    {
        i += 1;
    }
    i
}

/// Counts on through the digits from `from` up to `to`: the count of the
/// digits `prefix` becomes the count of `prefix` followed by those digits.
fn take_digits(
    bytes: &[u8],
    from: usize,
    to: usize,
    count: i128,
    beyond: bool,
    cap: i128,
    Ghost(s): Ghost<Seq<char>>,
    Ghost(prefix): Ghost<Seq<char>>,
) -> (r: (i128, bool))
    requires
        mirrors(bytes@, s),
        from <= to <= s.len(),
        forall|j: int| from <= j < to ==> is_digit(#[trigger] s[j]),
        0 <= cap <= EXPONENT_MAX,
        stands_for(count, beyond, digits_value(prefix), cap),
    ensures
        stands_for(r.0, r.1, digits_value(prefix + s.subrange(from as int, to as int)), cap),
{
    let mut i = from;
    let mut count = count;
    let mut beyond = beyond;
    assert(prefix + s.subrange(from as int, from as int) =~= prefix);
    while i < to
        invariant
            mirrors(bytes@, s),
            from <= i <= to <= s.len(),
            forall|j: int| from <= j < to ==> is_digit(#[trigger] s[j]),
            0 <= cap <= EXPONENT_MAX,
            stands_for(count, beyond, digits_value(prefix + s.subrange(from as int, i as int)), cap),
        decreases to - i,
    {
        proof {
            let before = prefix + s.subrange(from as int, i as int);
            let after = prefix + s.subrange(from as int, i as int + 1);
            assert(after.drop_last() =~= before);
            assert(after.last() == s[i as int]);
            assert(is_digit(s[i as int]));
        }
        let d: i128 = (bytes[i] - 48) as i128;
        if !beyond {
            count = count * 10 + d;
            if count > cap {
                beyond = true;
            }
        }
        i += 1;
    }
    (count, beyond)
}

/// Counts on through `m` zeros: the count of `v` becomes the count of `v`
/// times the `m`th power of ten. `times` is `m`, or a number below it that
/// is large enough to take any count but zero beyond `cap`.
fn push_zeros(
    count: i128,
    beyond: bool,
    times: i128,
    cap: i128,
    Ghost(v): Ghost<int>,
    Ghost(m): Ghost<nat>,
) -> (r: (i128, bool))
    requires
        0 <= cap <= EXPONENT_MAX,
        stands_for(count, beyond, v, cap),
        0 <= times <= m,
        times < m ==> 9 * times >= cap,
    ensures
        stands_for(r.0, r.1, scale_up(v, m), cap),
{
    let mut count = count;
    let mut beyond = beyond;
    let mut done: i128 = 0;
    let ghost mut now = v;
    while done < times && !beyond && count != 0
        invariant
            0 <= cap <= EXPONENT_MAX,
            0 <= done <= times <= m,
            stands_for(count, beyond, now, cap),
            scale_up(v, m) == scale_up(now, (m - done) as nat),
            !beyond && count != 0 ==> count >= 1 + 9 * done,
        decreases times - done,
    {
        count = count * 10;
        if count > cap {
            beyond = true;
        }
        proof {
            now = now * 10;
        }
        done += 1;
    }
    proof {
        if beyond || count == 0 {
            lemma_scale_up_grows(now, (m - done) as nat);
        }
    }
    (count, beyond)
}

/// Reads the exponent that begins at `from` and ends with the text.
/// Returns its magnitude as a count up to `EXPONENT_MAX`, and whether it is
/// below zero; `None` where the text does not end in an exponent or nothing.
fn read_exponent(bytes: &[u8], from: usize, Ghost(s): Ghost<Seq<char>>) -> (r: Option<
    (i128, bool, bool),
>)
    requires
        mirrors(bytes@, s),
        from <= s.len(),
    ensures
        match r {
            Some((count, beyond, negative)) => exponent_of(
                s.subrange(from as int, s.len() as int),
            ) matches Some(e) && stands_for(
                count,
                beyond,
                if negative {
                    -e
                } else {
                    e
                },
                EXPONENT_MAX,
            ),
            None => exponent_of(s.subrange(from as int, s.len() as int)) is None,
        },
{
    let n = bytes.len();
    let ghost tail = s.subrange(from as int, n as int);
    if from == n {
        return Some((0, false, false));
    }
    assert(tail[0] == s[from as int]);
    if bytes[from] != 101 && bytes[from] != 69 {
        return None;
    }
    let ghost after = tail.drop_first();
    assert(after =~= s.subrange(from as int + 1, n as int));
    let signed = from + 1 < n && (bytes[from + 1] == 45 || bytes[from + 1] == 43);
    let negative = signed && bytes[from + 1] == 45;
    proof {
        if from + 1 < n {
            assert(after[0] == s[from as int + 1]);
        }
    }
    let first: usize = if signed {
        from + 2
    } else {
        from + 1
    };
    let ghost digits = s.subrange(first as int, n as int);
    assert(digits =~= if signed {
        after.drop_first()
    } else {
        after
    });
    let end = scan_digits(bytes, first, Ghost(s));
    if end != n {
        proof {
            assert(digits[end - first] == s[end as int]);
        }
        return None;
    }
    if first == n {
        return None;
    }
    proof {
        assert forall|j: int| 0 <= j < digits.len() implies is_digit(#[trigger] digits[j]) by {
            assert(digits[j] == s[j + first]);
        }
        assert(Seq::<char>::empty() + digits =~= digits);
    }
    let (count, beyond) = take_digits(
        bytes,
        first,
        n,
        0,
        false,
        EXPONENT_MAX,
        Ghost(s),
        Ghost(Seq::empty()),
    );
    Some((count, beyond, negative))
}

/// Counts the first `kept` digits of a numeral, or all of them where it has
/// fewer. The digits before the point stand from `start` up to `whole_end`,
/// those after it from `from` up to `fraction_end`.
fn count_digits(
    bytes: &[u8],
    start: usize,
    whole_end: usize,
    from: usize,
    fraction_end: usize,
    kept: i128,
    Ghost(s): Ghost<Seq<char>>,
) -> (r: (i128, bool))
    requires
        mirrors(bytes@, s),
        start <= whole_end <= from <= fraction_end <= s.len(),
        forall|j: int| start <= j < whole_end ==> is_digit(#[trigger] s[j]),
        forall|j: int| from <= j < fraction_end ==> is_digit(#[trigger] s[j]),
        0 <= kept,
    ensures
        ({
            let digits = s.subrange(start as int, whole_end as int) + s.subrange(
                from as int,
                fraction_end as int,
            );
            stands_for(
                r.0,
                r.1,
                digits_value(
                    if kept < digits.len() {
                        digits.subrange(0, kept as int)
                    } else {
                        digits
                    },
                ),
                MAGNITUDE_MAX,
            )
        }),
{
    let ghost whole = s.subrange(start as int, whole_end as int);
    let ghost fraction = s.subrange(from as int, fraction_end as int);
    let before: i128 = (whole_end - start) as i128;
    let after: i128 = (fraction_end - from) as i128;
    let of_whole: usize = if kept < before {
        kept as usize
    } else {
        whole_end - start
    };
    let of_fraction: usize = if kept <= before {
        0
    } else if kept - before < after {
        (kept - before) as usize
    } else {
        fraction_end - from
    };
    let ghost first = s.subrange(start as int, start + of_whole);
    let ghost second = s.subrange(from as int, from + of_fraction);
    assert(Seq::<char>::empty() + first =~= first);
    let (count, over) = take_digits(
        bytes,
        start,
        start + of_whole,
        0,
        false,
        MAGNITUDE_MAX,
        Ghost(s),
        Ghost(Seq::empty()),
    );
    let (count, over) = take_digits(
        bytes,
        from,
        from + of_fraction,
        count,
        over,
        MAGNITUDE_MAX,
        Ghost(s),
        Ghost(first),
    );
    proof {
        let digits = whole + fraction;
        if kept < digits.len() {
            assert(first + second =~= digits.subrange(0, kept as int));
        } else {
            assert(first + second =~= digits);
        }
    }
    (count, over)
}

/// The digit of the numeral that stands after the first `kept` ones.
fn digit_at(
    bytes: &[u8],
    start: usize,
    whole_end: usize,
    from: usize,
    fraction_end: usize,
    kept: usize,
    Ghost(s): Ghost<Seq<char>>,
) -> (d: u8)
    requires
        mirrors(bytes@, s),
        start <= whole_end <= from <= fraction_end <= s.len(),
        forall|j: int| start <= j < whole_end ==> is_digit(#[trigger] s[j]),
        forall|j: int| from <= j < fraction_end ==> is_digit(#[trigger] s[j]),
        kept < (whole_end - start) + (fraction_end - from),
    ensures
        d == digit_of(
            (s.subrange(start as int, whole_end as int) + s.subrange(
                from as int,
                fraction_end as int,
            ))[kept as int],
        ),
{
    let at: usize = if kept < whole_end - start {
        start + kept
    } else {
        from + (kept - (whole_end - start))
    };
    assert(is_digit(s[at as int]));
    bytes[at] - 48
}

/// Counts the digits of a numeral with its decimal point moved six places
/// and as many more as the exponent says. The digits before the point stand
/// from `start` up to `whole_end`, those after it from `from` up to
/// `fraction_end`; the exponent is given as `read_exponent` returns it.
fn magnitude(
    bytes: &[u8],
    start: usize,
    whole_end: usize,
    from: usize,
    fraction_end: usize,
    exponent: (i128, bool, bool),
    Ghost(s): Ghost<Seq<char>>,
    Ghost(e): Ghost<int>,
) -> (r: (i128, bool))
    requires
        mirrors(bytes@, s),
        start <= whole_end <= from <= fraction_end <= s.len(),
        forall|j: int| start <= j < whole_end ==> is_digit(#[trigger] s[j]),
        forall|j: int| from <= j < fraction_end ==> is_digit(#[trigger] s[j]),
        stands_for(
            exponent.0,
            exponent.1,
            if exponent.2 {
                -e
            } else {
                e
            },
            EXPONENT_MAX,
        ),
    ensures
        stands_for(
            r.0,
            r.1,
            shifted(
                s.subrange(start as int, whole_end as int) + s.subrange(
                    from as int,
                    fraction_end as int,
                ),
                whole_end - start + e + 6,
            ),
            MAGNITUDE_MAX,
        ),
{
    let (size, beyond, negative) = exponent;
    let ghost digits = s.subrange(start as int, whole_end as int) + s.subrange(
        from as int,
        fraction_end as int,
    );
    let before: i128 = (whole_end - start) as i128;
    let after: i128 = (fraction_end - from) as i128;
    assert(digits.len() == before + after);
    if negative && (beyond || size > before + 6) {
        return (0, false);
    }
    // How many digits to count or, where the exponent is beyond its bound, a
    // number that is beyond the digits as well.
    let kept: i128 = if beyond {
        before + EXPONENT_MAX + 6
    } else if negative {
        before - size + 6
    } else {
        before + size + 6
    };
    let (count, over) = count_digits(bytes, start, whole_end, from, fraction_end, kept, Ghost(s));
    if kept < before + after {
        let d = digit_at(bytes, start, whole_end, from, fraction_end, kept as usize, Ghost(s));
        if !over && d >= 5 {
            if count + 1 > MAGNITUDE_MAX {
                (count, true)
            } else {
                (count + 1, false)
            }
        } else {
            (count, over)
        }
    } else {
        push_zeros(
            count,
            over,
            kept - before - after,
            MAGNITUDE_MAX,
            Ghost(digits_value(digits)),
            Ghost((before + e + 6 - digits.len()) as nat),
        )
    }
}

/// Reads the numeral without a sign that begins at `start` and ends with
/// the text. Returns the count of its millionths, up to `MAGNITUDE_MAX`;
/// `None` where there is no such numeral.
fn read_magnitude(bytes: &[u8], start: usize, Ghost(s): Ghost<Seq<char>>) -> (r: Option<
    (i128, bool),
>)
    requires
        mirrors(bytes@, s),
        start <= s.len(),
    ensures
        match r {
            Some((count, beyond)) => magnitude_of(
                s.subrange(start as int, s.len() as int),
            ) matches Some(m) && stands_for(count, beyond, m, MAGNITUDE_MAX),
            None => magnitude_of(s.subrange(start as int, s.len() as int)) is None,
        },
{
    let n = bytes.len();
    let ghost body = s.subrange(start as int, n as int);
    let whole_end = scan_digits(bytes, start, Ghost(s));
    let ghost after_whole = s.subrange(whole_end as int, n as int);
    let dotted = whole_end < n && bytes[whole_end] == 46;
    let from: usize = if dotted {
        whole_end + 1
    } else {
        whole_end
    };
    let ghost after_point = s.subrange(from as int, n as int);
    proof {
        assert forall|j: int| 0 <= j < whole_end - start implies is_digit(#[trigger] body[j]) by {
            assert(body[j] == s[j + start]);
        }
        if whole_end < n {
            assert(body[whole_end - start] == s[whole_end as int]);
            assert(after_whole[0] == s[whole_end as int]);
        }
        lemma_leading_digits(body, whole_end - start);
        assert(body.subrange(0, leading_digits(body)) =~= s.subrange(
            start as int,
            whole_end as int,
        ));
        assert(body.subrange(leading_digits(body), body.len() as int) =~= after_whole);
        assert(after_point =~= if after_whole.len() > 0 && after_whole[0] == '.' {
            after_whole.drop_first()
        } else {
            after_whole
        });
    }
    let fraction_end = if dotted {
        scan_digits(bytes, from, Ghost(s))
    } else {
        from
    };
    proof {
        assert forall|j: int| 0 <= j < fraction_end - from implies is_digit(
            #[trigger] after_point[j],
        ) by {
            assert(after_point[j] == s[j + from]);
        }
        if fraction_end < n {
            assert(after_point[fraction_end - from] == s[fraction_end as int]);
        }
        lemma_leading_digits(after_point, fraction_end - from);
        assert(after_point.subrange(0, leading_digits(after_point)) =~= s.subrange(
            from as int,
            fraction_end as int,
        ));
        assert(after_point.subrange(leading_digits(after_point), after_point.len() as int)
            =~= s.subrange(fraction_end as int, n as int));
    }
    let exponent = match read_exponent(bytes, fraction_end, Ghost(s)) {
        Some(exponent) => exponent,
        None => {
            return None;
        },
    };
    if (whole_end - start) + (fraction_end - from) == 0 {
        return None;
    }
    let ghost e = exponent_of(s.subrange(fraction_end as int, n as int))->Some_0;
    Some(magnitude(bytes, start, whole_end, from, fraction_end, exponent, Ghost(s), Ghost(e)))
}

/// Reads an amount from `text`: a numeral with or without an exponent, as
/// `denoted` describes it. Returns the amount in millionths, for every
/// numeral whose amount lies from -9223372036854.775808 to
/// 9223372036854.775807, and `None` for any other text.
pub fn parse(text: &str) -> (r: Option<i64>)
    ensures
        match r {
            Some(v) => denoted(text@) == Some(v as int),
            None => denoted(text@) is None,
        },
{
    let ghost s = text@;
    if !text.is_ascii() {
        proof {
            if denoted(s) is Some {
                lemma_denoted_is_ascii(s);
            }
        }
        return None;
    }
    let bytes = text.as_bytes();
    let n = bytes.len();
    proof {
        vstd::string::is_ascii_spec_bytes(text);
        assert(bytes@.len() == s.len());
        assert forall|j: int| 0 <= j < s.len() implies bytes@[j] as int == #[trigger] s[j] as int by {
            assert(bytes@[j] == s[j] as u8);
            assert('\0' <= s[j] <= '\u{7f}');
        }
    }
    let signed = n > 0 && (bytes[0] == 45 || bytes[0] == 43);
    let negative = signed && bytes[0] == 45;
    let start: usize = if signed {
        1
    } else {
        0
    };
    assert(signed == (s.len() > 0 && (s[0] == '-' || s[0] == '+')));
    assert(negative == (signed && s[0] == '-'));
    assert(s.subrange(start as int, n as int) =~= if signed {
        s.drop_first()
    } else {
        s
    });
    match read_magnitude(bytes, start, Ghost(s)) {
        None => None,
        Some((_, true)) => None,
        Some((count, false)) => {
            let amount: i128 = if negative {
                -count
            } else {
                count
            };
            if amount < i64::MIN as i128 || amount > i64::MAX as i128 {
                None
            } else {
                Some(amount as i64)
            }
        },
    }
}

} // verus!
