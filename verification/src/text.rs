//! Text: integers in decimal, and lists of texts.
use vstd::prelude::*;

verus! {

/// The character for a decimal digit.
pub open spec fn digit_char(d: nat) -> char {
    (48 + d) as char
}

/// The value of a decimal digit character.
pub open spec fn digit_value(c: char) -> Option<nat> {
    if '0' <= c && c <= '9' {
        Some((c as int - 48) as nat)
    } else {
        None
    }
}

/// A natural number in decimal, without leading zeros.
pub open spec fn decimal_nat(n: nat) -> Seq<char>
    decreases n,
{
    if n < 10 {
        seq![digit_char(n)]
    } else {
        decimal_nat(n / 10).push(digit_char(n % 10))
    }
}

/// An integer in decimal, with a minus sign where it is negative.
pub open spec fn decimal_int(i: int) -> Seq<char> {
    if i < 0 {
        seq!['-'] + decimal_nat((-i) as nat)
    } else {
        decimal_nat(i as nat)
    }
}

/// The number that a run of digits stands for; `None` where a character is no digit.
pub open spec fn digits_value(s: Seq<char>) -> Option<nat>
    decreases s.len(),
{
    if s.len() == 0 {
        Some(0)
    } else {
        match (digits_value(s.drop_last()), digit_value(s.last())) {
            (Some(high), Some(low)) => Some(10 * high + low),
            _ => None,
        }
    }
}

/// What `text` holds behind an optional sign.
pub open spec fn unsigned_part(text: Seq<char>) -> Seq<char> {
    if text.len() > 0 && (text[0] == '-' || text[0] == '+') {
        text.drop_first()
    } else {
        text
    }
}

/// The integer that a text stands for: an optional sign and at least one digit, within the
/// range of an `i64`.
pub open spec fn parsed_int(text: Seq<char>) -> Option<int> {
    let body = unsigned_part(text);
    match digits_value(body) {
        Some(n) => {
            let i = if text.len() > 0 && text[0] == '-' {
                -(n as int)
            } else {
                n as int
            };
            if body.len() > 0 && i64::MIN <= i <= i64::MAX {
                Some(i)
            } else {
                None
            }
        },
        None => None,
    }
}

fn digit_str(d: u64) -> (r: &'static str)
    requires
        d < 10,
    ensures
        r@ == seq![digit_char(d as nat)],
{
    proof {
        reveal_strlit("0");
        reveal_strlit("1");
        reveal_strlit("2");
        reveal_strlit("3");
        reveal_strlit("4");
        reveal_strlit("5");
        reveal_strlit("6");
        reveal_strlit("7");
        reveal_strlit("8");
        reveal_strlit("9");
    }
    match d {
        0 => "0",
        1 => "1",
        2 => "2",
        3 => "3",
        4 => "4",
        5 => "5",
        6 => "6",
        7 => "7",
        8 => "8",
        _ => "9",
    }
}

fn append_decimal(out: &mut String, n: u64)
    ensures
        final(out)@ == old(out)@ + decimal_nat(n as nat),
    decreases n,
{
    if n >= 10 {
        append_decimal(out, n / 10);
    }
    out.append(digit_str(n % 10));
}

/// Writes an integer in decimal.
pub fn int_text(i: i64) -> (r: String)
    ensures
        r@ == decimal_int(i as int),
{
    let mut out = String::new();
    if i < 0 {
        proof {
            reveal_strlit("-");
        }
        out.append("-");
        let magnitude: u64 = (-(i + 1)) as u64 + 1;
        append_decimal(&mut out, magnitude);
    } else {
        append_decimal(&mut out, i as u64);
    }
    out
}

/// Reads an integer: an optional sign and at least one digit, within the range of an `i64`.
pub fn parse_int(text: &str) -> (r: Option<i64>)
    ensures
        match r {
            Some(i) => parsed_int(text@) == Some(i as int),
            None => parsed_int(text@) is None,
        },
{
    let len = text.unicode_len();
    if len == 0 {
        return None;
    }
    let first = text.get_char(0);
    let negative = first == '-';
    let start: usize = if negative || first == '+' {
        1
    } else {
        0
    };
    let ghost body = unsigned_part(text@);
    if start == len {
        return None;
    }
    let limit: u64 = 0x8000_0000_0000_0000;
    let mut value: u64 = 0;
    let mut large = false;
    let mut i: usize = start;
    assert(body.take(0) =~= Seq::<char>::empty());
    while i < len
        invariant
            start <= i <= len,
            body == unsigned_part(text@),
            len == text@.len(),
            start + body.len() == len,
            forall|j: int| 0 <= j < body.len() ==> #[trigger] body[j] == text@[start + j],
            limit == 0x8000_0000_0000_0000,
            digits_value(body.take(i - start)) matches Some(n) && if large {
                n > limit
            } else {
                n == value && n <= limit
            },
        decreases len - i,
    {
        let c = text.get_char(i);
        let ghost k = i - start;
        assert(body.take(k + 1).drop_last() =~= body.take(k));
        assert(body.take(k + 1).last() == c);
        if c < '0' || '9' < c {
            proof {
                lemma_no_digit(body, k);
            }
            return None;
        }
        let d: u64 = (c as u32 - 48) as u64;
        if !large {
            if value > limit / 10 {
                large = true;
            } else {
                let next: u64 = value * 10 + d;
                if next > limit {
                    large = true;
                } else {
                    value = next;
                }
            }
        }
        i += 1;
    }
    assert(body.take(body.len() as int) =~= body);
    if large {
        None
    } else if negative {
        if value == limit {
            Some(i64::MIN)
        } else {
            Some(-(value as i64))
        }
    } else if value == limit {
        None
    } else {
        Some(value as i64)
    }
}

/// Texts in a row, with a separator between each two.
pub open spec fn joined(parts: Seq<Seq<char>>, separator: Seq<char>) -> Seq<char>
    decreases parts.len(),
{
    if parts.len() == 0 {
        Seq::empty()
    } else if parts.len() == 1 {
        parts[0]
    } else {
        joined(parts.drop_last(), separator) + separator + parts.last()
    }
}

/// Appends one more text to texts in a row.
pub(crate) fn append_part(
    out: &mut String,
    first: bool,
    separator: &str,
    part: &str,
    Ghost(parts): Ghost<Seq<Seq<char>>>,
)
    requires
        first == (parts.len() == 0),
        old(out)@ == joined(parts, separator@),
    ensures
        final(out)@ == joined(parts.push(part@), separator@),
{
    assert(parts.push(part@).drop_last() =~= parts);
    if !first {
        out.append(separator);
    }
    out.append(part);
    assert(out@ =~= joined(parts.push(part@), separator@));
}

/// A run that holds a character that is no digit stands for no number.
proof fn lemma_no_digit(s: Seq<char>, at: int)
    requires
        0 <= at < s.len(),
        digit_value(s[at]) is None,
    ensures
        digits_value(s) is None,
    decreases s.len(),
{
    if at < s.len() - 1 {
        lemma_no_digit(s.drop_last(), at);
    }
}

/// The text of a natural number is a run of digits that stands for it.
proof fn lemma_decimal_nat(n: nat)
    ensures
        decimal_nat(n).len() > 0,
        digit_value(decimal_nat(n)[0]) is Some,
        digits_value(decimal_nat(n)) == Some(n),
    decreases n,
{
    let text = decimal_nat(n);
    if n < 10 {
        assert(text.drop_last() =~= Seq::<char>::empty());
        assert(digits_value(text.drop_last()) == Some(0nat));
        assert(digit_value(text.last()) == Some(n));
    } else {
        lemma_decimal_nat(n / 10);
        assert(text.drop_last() =~= decimal_nat(n / 10));
        assert(text[0] == decimal_nat(n / 10)[0]);
        assert(digit_value(text.last()) == Some(n % 10));
    }
}

/// The text of an integer reads back as that integer.
pub proof fn law_int_text_reads_back(i: i64)
    ensures
        parsed_int(decimal_int(i as int)) == Some(i as int),
{
    let text = decimal_int(i as int);
    if i < 0 {
        lemma_decimal_nat((-i) as nat);
        assert(text.drop_first() =~= decimal_nat((-i) as nat));
    } else {
        lemma_decimal_nat(i as nat);
    }
}

} // verus!
