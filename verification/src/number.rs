//! Numbers, held as decimal literals.

use vstd::prelude::*;
use crate::text::chars_of;

verus! {

/// Whether a character is a decimal digit.
pub open spec fn is_digit(c: char) -> bool {
    '0' <= c <= '9'
}

/// Every character of `s` is a decimal digit, and there is at least one.
pub open spec fn is_digits(s: Seq<char>) -> bool {
    s.len() > 0 && forall|i: int| 0 <= i < s.len() ==> is_digit(#[trigger] s[i])
}

/// The text without a leading minus sign.
pub open spec fn unsigned_part(s: Seq<char>) -> Seq<char> {
    if s.len() > 0 && s[0] == '-' {
        s.skip(1)
    } else {
        s
    }
}

/// What follows the leading digits of `s`.
pub open spec fn after_whole(s: Seq<char>) -> Seq<char>
    decreases s.len(),
{
    if s.len() == 0 || !is_digit(s[0]) {
        s
    } else {
        after_whole(s.skip(1))
    }
}

/// A decimal literal: an optional minus sign, digits, and optionally a
/// point followed by digits.
pub open spec fn is_decimal(s: Seq<char>) -> bool {
    let body = unsigned_part(s);
    let rest = after_whole(body);
    rest.len() < body.len() && (rest.len() == 0 || (rest[0] == '.' && is_digits(rest.skip(1))))
}

/// The value of a decimal digit.
pub open spec fn digit_value(c: char) -> nat {
    (c as u32 - 48) as nat
}

/// The number that a string of digits writes.
pub open spec fn digits_value(s: Seq<char>) -> nat
    decreases s.len(),
{
    if s.len() == 0 {
        0
    } else {
        digits_value(s.drop_last()) * 10 + digit_value(s.last())
    }
}

/// The leading digits of `s`.
pub open spec fn whole_part(s: Seq<char>) -> Seq<char> {
    s.take(s.len() - after_whole(s).len())
}

/// Whether a digit other than zero follows the whole part of `s`.
pub open spec fn has_fraction(s: Seq<char>) -> bool {
    exists|i: int| 0 <= i < after_whole(s).len() && '1' <= #[trigger] after_whole(s)[i] <= '9'
}

/// The greatest integer that is not above the number that a decimal
/// literal writes.
pub open spec fn floor_of(literal: Seq<char>) -> int {
    let body = unsigned_part(literal);
    let whole = digits_value(whole_part(body));
    if literal.len() > 0 && literal[0] == '-' {
        if has_fraction(body) {
            -whole - 1
        } else {
            -(whole as int)
        }
    } else {
        whole as int
    }
}

/// The 32-bit integer nearest to `x`.
pub open spec fn clamp_i32(x: int) -> int {
    if x < i32::MIN {
        i32::MIN as int
    } else if x > i32::MAX {
        i32::MAX as int
    } else {
        x
    }
}

/// A number of the protocol: the decimal literal by which a double is
/// written on the wire.
#[derive(Debug, PartialEq, Eq)]
pub struct Number {
    literal: String,
}

impl View for Number {
    type V = Seq<char>;

    closed spec fn view(&self) -> Seq<char> {
        self.literal@
    }
}

impl Clone for Number {
    fn clone(&self) -> (r: Self)
        ensures
            r@ == self@,
    {
        proof {
            use_type_invariant(self);
        }
        Number { literal: self.literal.clone() }
    }
}

impl Number {
    #[verifier::type_invariant]
    pub closed spec fn is_literal(&self) -> bool {
        is_decimal(self.literal@)
    }

    /// Reads a decimal literal; anything else is no number.
    pub fn parse(text: &str) -> (r: Option<Number>)
        ensures
            r is Some <==> is_decimal(text@),
            r is Some ==> r->Some_0@ == text@,
    {
        let chars = chars_of(text);
        let n: usize = chars.len();
        let start: usize = if n > 0 && chars[0] == '-' { 1 } else { 0 };
        let ghost body = unsigned_part(text@);
        assert(body =~= chars@.skip(start as int));
        let mut i: usize = start;
        while i < n && '0' <= chars[i] && chars[i] <= '9'
            invariant
                start <= i <= n,
                n == chars@.len(),
                after_whole(body) == after_whole(chars@.skip(i as int)),
            decreases n - i,
        {
            proof {
                assert(chars@.skip(i as int).skip(1) =~= chars@.skip(i + 1));
                assert(chars@.skip(i as int)[0] == chars@[i as int]);
            }
            i += 1;
        }
        let ghost rest = chars@.skip(i as int);
        proof {
            if i < n {
                assert(rest[0] == chars@[i as int]);
            }
            assert(after_whole(body) == rest);
        }
        if i == start {
            return None;
        }
        if i == n {
            return Some(Number { literal: String::from_str(text) });
        }
        if chars[i] != '.' {
            return None;
        }
        let ghost fraction = rest.skip(1);
        let mut j: usize = i + 1;
        while j < n && '0' <= chars[j] && chars[j] <= '9'
            invariant
                i < j <= n,
                n == chars@.len(),
                fraction == chars@.skip(i + 1),
                forall|m: int| 0 <= m < j - (i + 1) ==> is_digit(#[trigger] fraction[m]),
            decreases n - j,
        {
            j += 1;
        }
        proof {
            assert(fraction =~= chars@.skip(i + 1));
            if j < n {
                assert(fraction[j - (i + 1)] == chars@[j as int]);
            }
        }
        if j == n && j > i + 1 {
            Some(Number { literal: String::from_str(text) })
        } else {
            None
        }
    }

    /// The number rounded down to an integer, and to the nearest 32-bit
    /// integer where it is beyond them.
    pub fn floor(&self) -> (r: i32)
        ensures
            r == clamp_i32(floor_of(self@)),
    {
        let chars = chars_of(self.literal.as_str());
        let n: usize = chars.len();
        let negative: bool = n > 0 && chars[0] == '-';
        let start: usize = if negative { 1 } else { 0 };
        let ghost body = unsigned_part(self@);
        assert(body =~= chars@.skip(start as int));
        let mut i: usize = start;
        let mut acc: u64 = 0;
        let ghost mut exact: nat = 0;
        while i < n && '0' <= chars[i] && chars[i] <= '9'
            invariant
                start <= i <= n,
                n == chars@.len(),
                acc <= 0x8000_0000,
                acc == if exact < 0x8000_0000 { exact } else { 0x8000_0000 },
                exact == digits_value(chars@.subrange(start as int, i as int)),
                after_whole(body) == after_whole(chars@.skip(i as int)),
            decreases n - i,
        {
            let d: u64 = (chars[i] as u32 - 48) as u64;
            proof {
                assert(chars@.skip(i as int).skip(1) =~= chars@.skip(i + 1));
                assert(chars@.skip(i as int)[0] == chars@[i as int]);
                let longer = chars@.subrange(start as int, i + 1);
                assert(longer.drop_last() =~= chars@.subrange(start as int, i as int));
                assert(longer.last() == chars@[i as int]);
                exact = exact * 10 + digit_value(chars@[i as int]);
            }
            acc = if acc * 10 + d >= 0x8000_0000 { 0x8000_0000 } else { acc * 10 + d };
            i += 1;
        }
        let ghost rest = chars@.skip(i as int);
        proof {
            if i < n {
                assert(rest[0] == chars@[i as int]);
            }
            assert(after_whole(body) == rest);
            assert(whole_part(body) =~= chars@.subrange(start as int, i as int));
        }
        let mut fraction: bool = false;
        let mut j: usize = i;
        while j < n
            invariant
                i <= j <= n,
                n == chars@.len(),
                rest == chars@.skip(i as int),
                fraction == exists|k: int| 0 <= k < j - i && '1' <= #[trigger] rest[k] <= '9',
            decreases n - j,
        {
            proof {
                assert(rest[j - i] == chars@[j as int]);
            }
            if '1' <= chars[j] && chars[j] <= '9' {
                fraction = true;
            }
            j += 1;
        }
        assert(fraction == has_fraction(body));
        if negative {
            if acc == 0x8000_0000 {
                i32::MIN
            } else if fraction {
                (-(acc as i64) - 1) as i32
            } else {
                (-(acc as i64)) as i32
            }
        } else if acc > 0x7fff_ffff {
            i32::MAX
        } else {
            acc as i32
        }
    }

    /// Whether two numbers are the same literal.
    pub fn same(&self, other: &Number) -> (same: bool)
        ensures
            same == (self@ == other@),
    {
        self.literal == other.literal
    }

    /// The literal.
    pub fn as_str(&self) -> (text: &str)
        ensures
            text@ == self@,
    {
        self.literal.as_str()
    }
}

} // verus!
