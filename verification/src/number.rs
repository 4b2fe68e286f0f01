//! Decimal numbers: rendering and reading.

use vstd::prelude::*;

use crate::text::chars_of;

verus! {

/// The decimal digit that stands for `d`.
pub open spec fn digit(d: nat) -> char {
    (48 + d) as char
}

/// Whether `c` is one of the ten decimal digits.
pub open spec fn is_digit(c: char) -> bool {
    '0' <= c && c <= '9'
}

/// The decimal rendering of `n`, without leading zeros.
pub open spec fn decimal(n: nat) -> Seq<char>
    decreases n,
{
    if n < 10 {
        seq![digit(n)]
    } else {
        decimal(n / 10).push(digit(n % 10))
    }
}

/// The decimal rendering of a signed number.
pub open spec fn signed_decimal(n: int) -> Seq<char> {
    if n < 0 {
        seq!['-'] + decimal((-n) as nat)
    } else {
        decimal(n as nat)
    }
}

/// The number that a sequence of digits stands for.
pub open spec fn digits_value(s: Seq<char>) -> nat
    decreases s.len(),
{
    if s.len() == 0 {
        0
    } else {
        (digits_value(s.drop_last()) * 10 + (s.last() as nat - 48)) as nat
    }
}

/// Whether `s` is a number written with digits alone: at least one, nothing else.
pub open spec fn all_digits(s: Seq<char>) -> bool {
    &&& s.len() > 0
    &&& forall|i: int| 0 <= i < s.len() ==> is_digit(#[trigger] s[i])
}

/// The digits that follow an optional `+`.
pub open spec fn after_plus(s: Seq<char>) -> Seq<char> {
    if s.len() > 0 && s[0] == '+' {
        s.drop_first()
    } else {
        s
    }
}

/// The number that `s` stands for: an optional `+`, then digits, within 64 bits.
pub open spec fn parsed_u64(s: Seq<char>) -> Option<u64> {
    let digits = after_plus(s);
    if all_digits(digits) && digits_value(digits) <= u64::MAX {
        Some(digits_value(digits) as u64)
    } else {
        None
    }
}

/// The number that `s` stands for: an optional sign, then digits, within 64 signed bits.
pub open spec fn parsed_i64(s: Seq<char>) -> Option<i64> {
    if s.len() > 0 && s[0] == '-' {
        let digits = s.drop_first();
        if all_digits(digits) && digits_value(digits) <= -(i64::MIN as int) {
            Some((-(digits_value(digits) as int)) as i64)
        } else {
            None
        }
    } else {
        let digits = after_plus(s);
        if all_digits(digits) && digits_value(digits) <= i64::MAX {
            Some(digits_value(digits) as i64)
        } else {
            None
        }
    }
}

fn digit_text(d: u64) -> (r: &'static str)
    requires
        d < 10,
    ensures
        r@ == seq![digit(d as nat)],
{
    proof {
        reveal_strlit("0");
        reveal_strlit("1");
        reveal_strlit("2");
        reveal_strlit("3");
        reveal_strlit("4");
        reveal_strlit("5");
        reveal_strlit("6");
        reveal_strlit("7");
        reveal_strlit("8");
        reveal_strlit("9");
    }
    let r = match d {
        0 => "0",
        1 => "1",
        2 => "2",
        3 => "3",
        4 => "4",
        5 => "5",
        6 => "6",
        7 => "7",
        8 => "8",
        _ => "9",
    };
    assert(r@ =~= seq![digit(d as nat)]);
    r
}

/// Renders `n` in decimal.
pub fn decimal_text(n: u64) -> (r: String)
    ensures
        r@ == decimal(n as nat),
    decreases n,
{
    let mut out = if n < 10 {
        String::new()
    } else {
        decimal_text(n / 10)
    };
    let ghost head = out@;
    out.append(digit_text(n % 10));
    assert(out@ =~= head.push(digit((n % 10) as nat)));
    assert(out@ =~= decimal(n as nat));
    out
}

/// Renders `n` in decimal, with a leading `-` when it is negative.
pub fn signed_text(n: i64) -> (r: String)
    ensures
        r@ == signed_decimal(n as int),
{
    if n < 0 {
        let magnitude: u64 = if n == i64::MIN {
            9_223_372_036_854_775_808
        } else {
            (-n) as u64
        };
        let mut out = "-".to_owned();
        out.append(decimal_text(magnitude).as_str());
        proof {
            reveal_strlit("-");
            assert("-"@ =~= seq!['-']);
        }
        out
    } else {
        decimal_text(n as u64)
    }
}

proof fn lemma_digits_value_take(s: Seq<char>, i: int)
    requires
        0 <= i < s.len(),
    ensures
        digits_value(s.take(i + 1)) == (digits_value(s.take(i)) * 10 + (s[i] as nat - 48)) as nat,
{
    assert(s.take(i + 1).drop_last() =~= s.take(i));
}

proof fn lemma_digits_value_grows(s: Seq<char>, i: int)
    requires
        all_digits(s),
        0 <= i <= s.len(),
    ensures
        digits_value(s.take(i)) <= digits_value(s),
    decreases s.len() - i,
{
    if i == s.len() {
        assert(s.take(i) =~= s);
    } else {
        lemma_digits_value_take(s, i);
        lemma_digits_value_grows(s, i + 1);
        assert(is_digit(s[i]));
    }
}

/// Reads the digits from position `from` on; `None` when there is none, when anything else
/// stands among them, or when the number exceeds `limit`.
fn read_digits(chars: &Vec<char>, from: usize, limit: u64) -> (r: Option<u64>)
    requires
        from <= chars.len(),
    ensures
        r == ({
            let digits = chars@.skip(from as int);
            if all_digits(digits) && digits_value(digits) <= limit {
                Some(digits_value(digits) as u64)
            } else {
                None::<u64>
            }
        }),
{
    let ghost digits = chars@.skip(from as int);
    if from == chars.len() {
        return None;
    }
    let mut value: u64 = 0;
    let mut i: usize = from;
    while i < chars.len()
        invariant
            from < chars.len(),
            from <= i <= chars.len(),
            digits == chars@.skip(from as int),
            value == digits_value(digits.take(i - from)),
            value <= limit,
            forall|j: int| 0 <= j < i - from ==> is_digit(#[trigger] digits[j]),
        decreases chars.len() - i,
    {
        let c = chars[i];
        assert(c == digits[i - from]);
        if !('0' <= c && c <= '9') {
            return None;
        }
        proof {
            lemma_digits_value_take(digits, i - from);
        }
        let wide: u128 = (value as u128) * 10 + ((c as u32 - 48) as u128);
        if wide > limit as u128 {
            proof {
                if all_digits(digits) {
                    lemma_digits_value_grows(digits, i - from + 1);
                }
            }
            return None;
        }
        value = wide as u64;
        i = i + 1;
    }
    assert(digits.take(digits.len() as int) =~= digits);
    Some(value)
}

/// Reads an unsigned number: an optional `+`, then digits.
pub fn parse_u64(s: &str) -> (r: Option<u64>)
    ensures
        r == parsed_u64(s@),
{
    let chars = chars_of(s);
    if chars.len() > 0 && chars[0] == '+' {
        assert(chars@.skip(1) =~= s@.drop_first());
        read_digits(&chars, 1, u64::MAX)
    } else {
        assert(chars@.skip(0) =~= s@);
        read_digits(&chars, 0, u64::MAX)
    }
}

/// Reads a signed number: an optional sign, then digits.
pub fn parse_i64(s: &str) -> (r: Option<i64>)
    ensures
        r == parsed_i64(s@),
{
    let chars = chars_of(s);
    if chars.len() > 0 && chars[0] == '-' {
        assert(chars@.skip(1) =~= s@.drop_first());
        match read_digits(&chars, 1, 9_223_372_036_854_775_808) {
            Some(magnitude) => if magnitude == 9_223_372_036_854_775_808 {
                Some(i64::MIN)
            } else {
                Some(-(magnitude as i64))
            },
            None => None,
        }
    } else {
        let from: usize = if chars.len() > 0 && chars[0] == '+' {
            1
        } else {
            0
        };
        assert(chars@.skip(from as int) =~= after_plus(s@));
        match read_digits(&chars, from, i64::MAX as u64) {
            Some(value) => Some(value as i64),
            None => None,
        }
    }
}

/// A decimal rendering consists of digits, and its digits stand for the number rendered.
pub proof fn decimal_reads_back(n: nat)
    ensures
        all_digits(decimal(n)),
        digits_value(decimal(n)) == n,
    decreases n,
{
    if n < 10 {
        assert(decimal(n).drop_last() =~= Seq::<char>::empty());
        assert(decimal(n).last() == digit(n));
        assert(digits_value(decimal(n).drop_last()) == 0);
    } else {
        decimal_reads_back(n / 10);
        let head = decimal(n / 10);
        assert(decimal(n).drop_last() =~= head);
        assert(decimal(n).last() == digit(n % 10));
        assert forall|i: int| 0 <= i < decimal(n).len() implies is_digit(
            #[trigger] decimal(n)[i],
        ) by {
            if i < head.len() {
                assert(decimal(n)[i] == head[i]);
            }
        }
    }
}

/// Reading the decimal rendering of a 64-bit number gives that number back.
pub proof fn parsing_undoes_rendering(n: u64)
    ensures
        parsed_u64(decimal(n as nat)) == Some(n),
{
    decimal_reads_back(n as nat);
    assert(is_digit(decimal(n as nat)[0]));
}

/// A text is read as a number exactly where, behind at most one sign, it has digits alone, at
/// least one, and their value fits; the number read is that value. A minus makes it negative and
/// is read only where a signed number is wanted.
pub proof fn only_digits_are_read(
    s: &str,
    unsigned: Option<u64>,
    signed: Option<i64>,
    digits: Seq<char>,
)
    requires
        call_ensures(parse_u64, (s,), unsigned),
        call_ensures(parse_i64, (s,), signed),
        all_digits(digits),
    ensures
        s@ == digits || s@ == seq!['+'] + digits ==> unsigned == (if digits_value(digits)
            <= u64::MAX {
            Some(digits_value(digits) as u64)
        } else {
            None
        }),
        s@ == digits || s@ == seq!['+'] + digits ==> signed == (if digits_value(digits)
            <= i64::MAX {
            Some(digits_value(digits) as i64)
        } else {
            None
        }),
        s@ == seq!['-'] + digits ==> unsigned is None,
        s@ == seq!['-'] + digits && digits_value(digits) <= i64::MAX + 1 ==> signed is Some
            && signed->0 == -digits_value(digits),
        unsigned is Some || signed is Some ==> s@.len() > 0 && '0' <= s@.last() <= '9' && forall|
            i: int,
        | 0 < i < s@.len() ==> '0' <= #[trigger] s@[i] <= '9',
        all_digits(s@) <==> s@.len() > 0 && forall|i: int|
            0 <= i < s@.len() ==> '0' <= #[trigger] s@[i] <= '9',
{
    assert(is_digit(digits[0]));
    assert(all_digits(s@) ==> forall|i: int| 0 <= i < s@.len() ==> is_digit(#[trigger] s@[i]));
    if s@.len() > 0 && (forall|i: int| 0 <= i < s@.len() ==> '0' <= #[trigger] s@[i] <= '9') {
        assert(forall|i: int| 0 <= i < s@.len() ==> is_digit(#[trigger] s@[i]));
    }
    assert((seq!['+'] + digits).drop_first() =~= digits);
    assert((seq!['-'] + digits).drop_first() =~= digits);
    if s@ == seq!['-'] + digits {
        assert(after_plus(s@) == s@);
        assert(!is_digit(s@[0]));
    }
    if s@.len() > 0 {
        let rest = s@.drop_first();
        if unsigned is Some || signed is Some {
            if s@[0] == '+' || s@[0] == '-' {
                assert forall|i: int| 0 < i < s@.len() implies is_digit(#[trigger] s@[i]) by {
                    if s@[0] == '-' {
                        if unsigned is Some {
                            assert(is_digit(after_plus(s@)[0]));
                        }
                    }
                    assert(rest[i - 1] == s@[i]);
                }
                assert(rest.len() > 0);
                assert(s@.last() == rest[rest.len() - 1]);
            } else {
                assert(is_digit(s@[s@.len() - 1]));
            }
        }
    }
}

/// A digit is worth its place among the ten, and a digit behind others makes them worth ten
/// times as much.
pub proof fn digits_stand_for_their_value(front: Seq<char>, d: nat)
    requires
        d < 10,
    ensures
        digit(d) as int == '0' as int + d,
        digits_value(Seq::empty()) == 0,
        digits_value(front.push(digit(d))) == digits_value(front) * 10 + d,
{
    assert(front.push(digit(d)).drop_last() =~= front);
}

/// Two numbers with the same rendering are the same number, and a rendering has no zero in front
/// unless it is that of zero.
pub proof fn renderings_tell_numbers_apart(a: u64, b: u64, left: String, right: String)
    requires
        call_ensures(decimal_text, (a,), left),
        call_ensures(decimal_text, (b,), right),
    ensures
        left@ == right@ ==> a == b,
        all_digits(left@) && digits_value(left@) == a,
        a > 0 ==> left@[0] != '0',
        a < 10 ==> left@.len() == 1,
{
    decimal_reads_back(a as nat);
    decimal_reads_back(b as nat);
    lemma_no_zero_in_front(a as nat);
}

proof fn lemma_no_zero_in_front(n: nat)
    ensures
        n > 0 ==> decimal(n)[0] != '0',
    decreases n,
{
    if n >= 10 {
        lemma_no_zero_in_front(n / 10);
        decimal_reads_back(n / 10);
        assert(decimal(n)[0] == decimal(n / 10)[0]);
    }
}

} // verus!
