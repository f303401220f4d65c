//! What numbers, trimmed texts and lower-case texts look like.

use vstd::prelude::*;
use crate::text::{
    all_digits, ascii_lowered, decimal, decimal_nat, digit_char, digits_value, has_prefix,
    parsed_unsigned, text_less, trimmed, trimmed_end, trimmed_start, white_space, without_prefix,
};

verus! {

/// The text of a number is made of digits, does not begin with a zero unless it is the zero, and
/// reads back as the number, with a plus sign before it or without.
pub proof fn written_numbers_read_back(n: nat)
    ensures
        decimal_nat(n).len() > 0,
        forall|i: int| 0 <= i < decimal_nat(n).len() ==> '0' <= #[trigger] decimal_nat(n)[i] <= '9',
        decimal_nat(n)[0] == '0' ==> n == 0,
        n == 0 ==> decimal_nat(n) == seq!['0'],
        parsed_unsigned(decimal_nat(n)) == Some(n),
        parsed_unsigned(seq!['+'] + decimal_nat(n)) == Some(n),
{
    digits_of(n);
    let digits = decimal_nat(n);
    assert(digits[0] != '+');
    let signed = seq!['+'] + digits;
    assert(signed.skip(1) =~= digits);
    assert(all_digits(digits));
    if n == 0 {
        assert(digit_char(0) == '0');
        assert(digits =~= seq!['0']);
    }
}

proof fn digits_of(n: nat)
    ensures
        decimal_nat(n).len() > 0,
        forall|i: int| 0 <= i < decimal_nat(n).len() ==> '0' <= #[trigger] decimal_nat(n)[i] <= '9',
        digits_value(decimal_nat(n)) == n,
        decimal_nat(n)[0] == '0' ==> n == 0,
    decreases n,
{
    let digits = decimal_nat(n);
    if n < 10 {
        assert(digits.drop_last() =~= Seq::<char>::empty());
        assert(digits.last() as nat == n + 48);
        assert(digits_value(Seq::<char>::empty()) == 0);
    } else {
        digits_of(n / 10);
        let head = decimal_nat(n / 10);
        assert(digits == head.push(digit_char(n % 10)));
        assert(digits.drop_last() =~= head);
        assert(digits.last() as nat == n % 10 + 48);
        assert forall|i: int| 0 <= i < digits.len() implies '0' <= #[trigger] digits[i] <= '9' by {
            if i < head.len() {
                assert(digits[i] == head[i]);
            }
        }
        assert(digits[0] == head[0]);
    }
}

/// The text of a number is that of its size, behind a minus sign exactly where it is negative; so
/// different numbers have different texts.
pub proof fn different_numbers_are_written_differently(a: int, b: int)
    ensures
        decimal(a)[0] == '-' <==> a < 0,
        a < 0 ==> decimal(a).skip(1) == decimal_nat((-a) as nat),
        a >= 0 ==> decimal(a) == decimal_nat(a as nat),
        decimal(a) == decimal(b) ==> a == b,
{
    let x = if a < 0 {
        (-a) as nat
    } else {
        a as nat
    };
    let y = if b < 0 {
        (-b) as nat
    } else {
        b as nat
    };
    digits_of(x);
    digits_of(y);
    assert(a < 0 ==> decimal(a).skip(1) =~= decimal_nat(x));
    assert(b < 0 ==> decimal(b).skip(1) =~= decimal_nat(y));
    assert(decimal(b)[0] == '-' <==> b < 0);
}

/// True iff `s` goes on behind its first `k` characters, with digits only.
pub open spec fn ends_in_digits(s: Seq<char>, k: int) -> bool {
    k < s.len() && forall|i: int| k <= i < s.len() ==> '0' <= #[trigger] s[i] <= '9'
}

/// A number is read exactly from one or more digits, behind a plus sign or not; a further digit
/// makes it ten times as great and adds that digit.
pub proof fn numbers_are_read_digit_by_digit(s: Seq<char>, c: char)
    ensures
        parsed_unsigned(s) is Some <==> if s.len() > 0 && s[0] == '+' {
            ends_in_digits(s, 1)
        } else {
            ends_in_digits(s, 0)
        },
        parsed_unsigned(s) matches Some(n) ==> {
            if '0' <= c <= '9' {
                parsed_unsigned(s.push(c)) == Some((n * 10 + (c as nat - 48)) as nat)
            } else {
                parsed_unsigned(s.push(c)) is None
            }
        },
{
    if s.len() > 0 && s[0] == '+' {
        let digits = s.skip(1);
        if all_digits(digits) {
            assert forall|i: int| 1 <= i < s.len() implies '0' <= #[trigger] s[i] <= '9' by {
                assert(digits[i - 1] == s[i]);
            }
        }
    }
    if parsed_unsigned(s) is Some {
        let digits = if s[0] == '+' {
            s.skip(1)
        } else {
            s
        };
        let longer = if s[0] == '+' {
            s.push(c).skip(1)
        } else {
            s.push(c)
        };
        assert(longer =~= digits.push(c));
        assert(longer.drop_last() =~= digits);
        assert(longer.last() == c);
        if '0' <= c <= '9' {
            assert forall|i: int| 0 <= i < longer.len() implies '0' <= #[trigger] longer[i]
                <= '9' by {
                if i < digits.len() {
                    assert(longer[i] == digits[i]);
                }
            }
            assert(all_digits(longer));
        } else {
            assert(longer[longer.len() - 1] == c);
            assert(!all_digits(longer));
        }
    }
}

// ---- trimming ----

/// True iff every character is white space.
pub open spec fn all_white(s: Seq<char>) -> bool {
    forall|i: int| 0 <= i < s.len() ==> white_space(#[trigger] s[i])
}

proof fn start_is_trimmed(s: Seq<char>) -> (head: Seq<char>)
    ensures
        all_white(head),
        s == head + trimmed_start(s),
        trimmed_start(s).len() > 0 ==> !white_space(trimmed_start(s)[0]),
    decreases s.len(),
{
    if s.len() > 0 && white_space(s[0]) {
        let rest = start_is_trimmed(s.skip(1));
        let head = seq![s[0]] + rest;
        assert(s =~= seq![s[0]] + s.skip(1));
        assert(s =~= head + trimmed_start(s));
        head
    } else {
        assert(s =~= Seq::<char>::empty() + s);
        Seq::empty()
    }
}

proof fn end_is_trimmed(s: Seq<char>) -> (tail: Seq<char>)
    ensures
        all_white(tail),
        s == trimmed_end(s) + tail,
        trimmed_end(s).len() > 0 ==> !white_space(trimmed_end(s).last()),
        trimmed_end(s).len() > 0 ==> trimmed_end(s)[0] == s[0],
    decreases s.len(),
{
    if s.len() > 0 && white_space(s.last()) {
        let rest = end_is_trimmed(s.drop_last());
        let tail = rest.push(s.last());
        assert(s =~= s.drop_last().push(s.last()));
        assert(s =~= trimmed_end(s) + tail);
        tail
    } else {
        assert(s =~= s + Seq::<char>::empty());
        Seq::empty()
    }
}

/// True iff `s` is `middle` between `head` and `tail`.
pub open spec fn stands_between(s: Seq<char>, head: Seq<char>, middle: Seq<char>, tail: Seq<char>) -> bool {
    s == head + middle + tail
}

/// Trimming takes white space away from both ends, all of it, and nothing else.
pub proof fn trimming_takes_white_space_only(s: Seq<char>)
    ensures
        exists|head: Seq<char>, tail: Seq<char>| #[trigger]
            stands_between(s, head, trimmed(s), tail) && all_white(head) && all_white(tail),
        trimmed(s).len() > 0 ==> !white_space(trimmed(s)[0]) && !white_space(trimmed(s).last()),
        trimmed(trimmed(s)) == trimmed(s),
{
    let head = start_is_trimmed(s);
    let tail = end_is_trimmed(trimmed_start(s));
    assert(s =~= head + trimmed(s) + tail);
    assert(stands_between(s, head, trimmed(s), tail));
    let t = trimmed(s);
    if t.len() > 0 {
        assert(t[0] == trimmed_start(s)[0]);
    }
}

/// The white space is the tab, the line feed, the vertical tab, the form feed, the carriage return and
/// the space, and no other character of ASCII.
pub proof fn ascii_white_space(c: char)
    requires
        (c as int) < 128,
    ensures
        white_space(c) <==> c == '\t' || c == '\n' || c == '\u{b}' || c == '\u{c}' || c == '\r' || c
            == ' ',
{
}

/// The white space of all of Unicode, by its numbers.
pub proof fn unicode_white_space(c: char)
    ensures
        white_space(c) <==> {
            let n = c as int;
            9 <= n <= 13 || n == 32 || n == 133 || n == 160 || n == 5760 || 8192 <= n <= 8202 || n
                == 8232 || n == 8233 || n == 8239 || n == 8287 || n == 12288
        },
{
}

// ---- letters and prefixes ----

/// Lower case leaves no capital letter, puts each one thirty-two further, and changes nothing else.
pub proof fn lower_case_has_no_capitals(s: Seq<char>)
    ensures
        ascii_lowered(s).len() == s.len(),
        forall|i: int|
            #![trigger ascii_lowered(s)[i]]
            0 <= i < s.len() ==> {
                let c = ascii_lowered(s)[i];
                &&& !('A' <= c <= 'Z')
                &&& 'A' <= s[i] <= 'Z' ==> 'a' <= c <= 'z' && c as int - 'a' as int == s[i] as int
                    - 'A' as int
                &&& !('A' <= s[i] <= 'Z') ==> c == s[i]
            },
        ascii_lowered(ascii_lowered(s)) == ascii_lowered(s),
{
    assert(ascii_lowered(ascii_lowered(s)) =~= ascii_lowered(s));
}

/// What stands behind a prefix is what is left without it; a text that does not begin with the prefix
/// is left as it is.
pub proof fn prefixes_are_taken_away(prefix: Seq<char>, rest: Seq<char>, s: Seq<char>)
    ensures
        has_prefix(prefix + rest, prefix),
        without_prefix(prefix + rest, prefix) == rest,
        has_prefix(s, prefix) ==> s == prefix + without_prefix(s, prefix),
        !has_prefix(s, prefix) ==> without_prefix(s, prefix) == s,
{
    assert((prefix + rest).take(prefix.len() as int) =~= prefix);
    assert((prefix + rest).skip(prefix.len() as int) =~= rest);
    if has_prefix(s, prefix) {
        assert(s =~= s.take(prefix.len() as int) + s.skip(prefix.len() as int));
    }
}

/// Of two texts the one that ends first, or has the lesser character at the first place where they
/// differ, is below the other.
pub proof fn first_difference_decides(a: Seq<char>, b: Seq<char>, k: int)
    requires
        0 <= k <= a.len(),
        k < b.len(),
        forall|i: int| 0 <= i < k ==> a[i] == b[i],
        k == a.len() || a[k] < b[k],
    ensures
        text_less(a, b),
        !text_less(b, a),
    decreases k,
{
    if k > 0 {
        first_difference_decides(a.skip(1), b.skip(1), k - 1);
    }
}

} // verus!
