use vstd::prelude::*;

verus! {

pub open spec fn is_digit(c: char) -> bool {
    '0' <= c && c <= '9'
}

pub open spec fn digit_val(c: char) -> nat {
    (c as u32 - '0' as u32) as nat
}

pub open spec fn all_digits(s: Seq<char>) -> bool {
    forall|i: int| 0 <= i < s.len() ==> is_digit(#[trigger] s[i])
}

/// The value of a run of decimal digits.
pub open spec fn digits_value(s: Seq<char>) -> nat
    decreases s.len(),
{
    if s.len() == 0 {
        0
    } else {
        digits_value(s.drop_last()) * 10 + digit_val(s.last())
    }
}

/// What `str::parse` accepts for an unsigned integer, before the range check:
/// an optional `+` followed by at least one ASCII digit.
pub open spec fn parse_nat(s: Seq<char>) -> Option<nat> {
    let body = if s.len() > 0 && s[0] == '+' {
        s.drop_first()
    } else {
        s
    };
    if body.len() > 0 && all_digits(body) {
        Some(digits_value(body))
    } else {
        None
    }
}

/// `str::parse::<u64>`, as an option.
pub open spec fn parse_u64(s: Seq<char>) -> Option<u64> {
    match parse_nat(s) {
        Some(n) => if n <= u64::MAX {
            Some(n as u64)
        } else {
            None
        },
        None => None,
    }
}

/// `str::parse::<u32>`, as an option.
pub open spec fn parse_u32(s: Seq<char>) -> Option<u32> {
    match parse_nat(s) {
        Some(n) => if n <= u32::MAX {
            Some(n as u32)
        } else {
            None
        },
        None => None,
    }
}

/// `str::parse::<u64>().unwrap_or(0)`.
pub open spec fn parse_u64_or0(s: Seq<char>) -> u64 {
    match parse_u64(s) {
        Some(n) => n,
        None => 0,
    }
}

/// `str::parse::<u32>().unwrap_or(0)`.
pub open spec fn parse_u32_or0(s: Seq<char>) -> u32 {
    match parse_u32(s) {
        Some(n) => n,
        None => 0,
    }
}

pub open spec fn pow10(n: nat) -> nat
    decreases n,
{
    if n == 0 {
        1
    } else {
        10 * pow10((n - 1) as nat)
    }
}

/// A run of `n` digits is worth less than `10^n`.
pub proof fn lemma_digits_value_lt_pow10(s: Seq<char>)
    requires
        all_digits(s),
    ensures
        digits_value(s) < pow10(s.len()),
    decreases s.len(),
{
    if s.len() > 0 {
        assert forall|i: int| 0 <= i < s.drop_last().len() implies is_digit(
            #[trigger] s.drop_last()[i],
        ) by {
            assert(s.drop_last()[i] == s[i]);
        }
        lemma_digits_value_lt_pow10(s.drop_last());
        assert(is_digit(s[s.len() - 1]));
    }
}

pub proof fn lemma_digits_value_mono(s: Seq<char>, k: int)
    requires
        0 <= k <= s.len(),
    ensures
        digits_value(s.take(k)) <= digits_value(s),
    decreases s.len(),
{
    if k < s.len() {
        assert(s.drop_last().take(k) == s.take(k));
        lemma_digits_value_mono(s.drop_last(), k);
    } else {
        assert(s.take(k) == s);
    }
}

/// Parses an unsigned decimal number as `str::parse` does; `None` on a
/// malformed input or a value above `u64::MAX`.
pub fn parse_u64_exec(s: &[char]) -> (r: Option<u64>)
    ensures
        r == parse_u64(s@),
{
    let start: usize = if s.len() > 0 && s[0] == '+' {
        1
    } else {
        0
    };
    let ghost body = s@.skip(start as int);
    assert(body == (if s@.len() > 0 && s@[0] == '+' {
        s@.drop_first()
    } else {
        s@
    }));
    if start >= s.len() {
        return None;
    }
    let mut acc: u64 = 0;
    let mut i: usize = start;
    assert(body.take(0) == Seq::<char>::empty());
    while i < s.len()
        invariant
            start <= i <= s@.len(),
            start < s@.len(),
            body == s@.skip(start as int),
            body == (if s@.len() > 0 && s@[0] == '+' {
                s@.drop_first()
            } else {
                s@
            }),
            all_digits(body.take(i - start)),
            acc as nat == digits_value(body.take(i - start)),
        decreases s@.len() - i,
    {
        let c = s[i];
        assert(body[i - start] == c);
        if !('0' <= c && c <= '9') {
            assert(!all_digits(body));
            return None;
        }
        let d = (c as u32 - '0' as u32) as u64;
        let ghost t = body.take(i - start + 1);
        assert(t.drop_last() == body.take(i - start));
        assert(t.last() == c);
        assert(digits_value(t) == digits_value(body.take(i - start)) * 10 + digit_val(c));
        if acc > (u64::MAX - d) / 10 {
            proof {
                assert(acc * 10 + d > u64::MAX) by (nonlinear_arith)
                    requires
                        acc > (u64::MAX - d) / 10,
                        d <= 9,
                ;
                // the value only grows with more digits
                let ghost j = i - start + 1;
                if all_digits(body) {
                    lemma_digits_value_mono(body, j);
                }
            }
            return None;
        }
        acc = acc * 10 + d;
        i = i + 1;
        assert forall|k: int| 0 <= k < t.len() implies is_digit(#[trigger] t[k]) by {
            if k < t.len() - 1 {
                assert(t[k] == body.take(i - 1 - start)[k]);
            }
        }
    }
    assert(body.take(s@.len() - start) == body);
    Some(acc)
}

/// `parse::<u64>().unwrap_or(0)` on characters.
pub fn parse_u64_or_zero(s: &[char]) -> (r: u64)
    ensures
        r == parse_u64_or0(s@),
{
    match parse_u64_exec(s) {
        Some(n) => n,
        None => 0,
    }
}

/// `parse::<u32>().unwrap_or(0)` on characters.
pub fn parse_u32_or_zero(s: &[char]) -> (r: u32)
    ensures
        r == parse_u32_or0(s@),
{
    match parse_u64_exec(s) {
        Some(n) => if n <= u32::MAX as u64 {
            n as u32
        } else {
            0
        },
        None => {
            proof {
                if parse_nat(s@) is Some {
                    assert(parse_nat(s@)->0 > u64::MAX);
                }
            }
            0
        },
    }
}

pub open spec fn digit_char(d: nat) -> char {
    (d + '0' as u32) as char
}

/// The decimal representation of `n`, without leading zeros.
pub open spec fn dec(n: nat) -> Seq<char>
    decreases n,
{
    if n < 10 {
        seq![digit_char(n)]
    } else {
        dec(n / 10).push(digit_char(n % 10))
    }
}

/// `format!("{:02}", n)`: at least two digits, padded with a zero.
pub open spec fn dec2(n: nat) -> Seq<char> {
    if n < 10 {
        seq!['0', digit_char(n)]
    } else {
        dec(n)
    }
}

fn digit_to_char(d: u64) -> (c: char)
    requires
        d < 10,
    ensures
        c == digit_char(d as nat),
{
    let b: u8 = d as u8 + 48;
    b as char
}

/// Appends the decimal representation of `n`.
pub fn push_dec(out: &mut Vec<char>, n: u64)
    ensures
        final(out)@ == old(out)@ + dec(n as nat),
    decreases n,
{
    if n >= 10 {
        push_dec(out, n / 10);
    }
    let c = digit_to_char(n % 10);
    out.push(c);
    proof {
        if n >= 10 {
            assert(dec(n as nat) == dec((n / 10) as nat).push(digit_char((n % 10) as nat)));
        }
    }
    assert(final(out)@ =~= old(out)@ + dec(n as nat));
}

/// Appends `n` formatted with `{:02}`.
pub fn push_dec2(out: &mut Vec<char>, n: u64)
    ensures
        final(out)@ == old(out)@ + dec2(n as nat),
{
    if n < 10 {
        out.push('0');
        let c = digit_to_char(n);
        out.push(c);
        assert(final(out)@ =~= old(out)@ + dec2(n as nat));
    } else {
        push_dec(out, n);
    }
}

/// The decimal representation of a signed integer (`{}` on an `i64`).
pub open spec fn idec(n: int) -> Seq<char> {
    if n < 0 {
        seq!['-'] + dec((-n) as nat)
    } else {
        dec(n as nat)
    }
}

/// Appends the decimal representation of a signed `n`.
pub fn push_idec(out: &mut Vec<char>, n: i64)
    ensures
        final(out)@ == old(out)@ + idec(n as int),
{
    if n < 0 {
        out.push('-');
        let wide: i128 = n as i128;
        let m: u64 = (-wide) as u64;
        assert(m == -n);
        push_dec(out, m);
        assert(final(out)@ =~= old(out)@ + idec(n as int));
    } else {
        push_dec(out, n as u64);
    }
}

/// `n` with at least four digits, padded with zeros (`{:04}`).
pub open spec fn dec4(n: nat) -> Seq<char> {
    if n < 10 {
        seq!['0', '0', '0'] + dec(n)
    } else if n < 100 {
        seq!['0', '0'] + dec(n)
    } else if n < 1000 {
        seq!['0'] + dec(n)
    } else {
        dec(n)
    }
}

/// A year as chrono's `%Y` writes it: four digits with zero padding for
/// years 0 to 9999, a `+` before years above, and a `-` before negative
/// years, whose digits are padded to four as well.
pub open spec fn year_text(y: int) -> Seq<char> {
    if y < 0 {
        seq!['-'] + dec4((-y) as nat)
    } else if y > 9999 {
        seq!['+'] + dec(y as nat)
    } else {
        dec4(y as nat)
    }
}

/// A calendar date as `%Y-%m-%d`.
pub open spec fn date_text(y: int, m: nat, d: nat) -> Seq<char> {
    year_text(y) + seq!['-'] + dec2(m) + seq!['-'] + dec2(d)
}

/// The text of some calendar date: a month 1 to 12 and a day 1 to 31.
pub open spec fn is_date_text(t: Seq<char>) -> bool {
    exists|y: int, m: nat, d: nat| 1 <= m <= 12 && 1 <= d <= 31 && t == #[trigger] date_text(y, m, d)
}

/// Appends `n` formatted with `{:04}`.
pub fn push_dec4(out: &mut Vec<char>, n: u64)
    ensures
        final(out)@ == old(out)@ + dec4(n as nat),
{
    if n < 10 {
        out.push('0');
        out.push('0');
        out.push('0');
    } else if n < 100 {
        out.push('0');
        out.push('0');
    } else if n < 1000 {
        out.push('0');
    }
    push_dec(out, n);
    assert(final(out)@ =~= old(out)@ + dec4(n as nat));
}

/// Appends a year as `%Y` writes it.
pub fn push_year(out: &mut Vec<char>, y: i32)
    ensures
        final(out)@ == old(out)@ + year_text(y as int),
{
    if y < 0 {
        out.push('-');
        let wide: i64 = y as i64;
        let m: u64 = (-wide) as u64;
        push_dec4(out, m);
    } else if y > 9999 {
        out.push('+');
        push_dec(out, y as u64);
    } else {
        push_dec4(out, y as u64);
    }
    assert(final(out)@ =~= old(out)@ + year_text(y as int));
}

/// Formats a calendar date as `YYYY-MM-DD` (chrono's `%Y-%m-%d`).
pub fn format_date(year: i32, month: u32, day: u32) -> (r: String)
    ensures
        r@ == date_text(year as int, month as nat, day as nat),
{
    let mut v: Vec<char> = Vec::new();
    push_year(&mut v, year);
    v.push('-');
    push_dec2(&mut v, month as u64);
    v.push('-');
    push_dec2(&mut v, day as u64);
    assert(v@ =~= date_text(year as int, month as nat, day as nat));
    crate::text::from_chars(v.as_slice())
}

/// The length of `dec(n)` for numbers of up to four digits.
proof fn lemma_dec_len(n: nat)
    requires
        n < 10000,
    ensures
        n < 10 ==> dec(n).len() == 1,
        10 <= n < 100 ==> dec(n).len() == 2,
        100 <= n < 1000 ==> dec(n).len() == 3,
        1000 <= n ==> dec(n).len() == 4,
    decreases n,
{
    if n >= 10 {
        lemma_dec_len(n / 10);
    }
}

/// For years 0 to 9999 the date takes ten characters, with the dashes at
/// positions 4 and 7.
pub proof fn lemma_date_text_shape(y: int, m: nat, d: nat)
    requires
        0 <= y <= 9999,
        1 <= m <= 12,
        1 <= d <= 31,
    ensures
        date_text(y, m, d).len() == 10,
        date_text(y, m, d)[4] == '-',
        date_text(y, m, d)[7] == '-',
{
    lemma_dec_len(y as nat);
    lemma_dec_len(m);
    lemma_dec_len(d);
}

} // verus!
