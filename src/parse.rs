//! Numbers and breakpoint locations as the user types them.

use vstd::prelude::*;

verus! {

/// Value of `c` as a digit in base `radix`, or -1 where it is none.
pub open spec fn digit_value(c: char, radix: nat) -> int {
    let v: int = if '0' <= c && c <= '9' {
        c as int - '0' as int
    } else if 'a' <= c && c <= 'z' {
        c as int - 'a' as int + 10
    } else if 'A' <= c && c <= 'Z' {
        c as int - 'A' as int + 10
    } else {
        -1
    };
    if v < radix { v } else { -1 }
}

pub open spec fn all_digits(s: Seq<char>, radix: nat) -> bool {
    forall|k: int| 0 <= k < s.len() ==> digit_value(#[trigger] s[k], radix) >= 0
}

/// Value of a string of digits, most significant first.
pub open spec fn digits_value(s: Seq<char>, radix: nat) -> int
    decreases s.len(),
{
    if s.len() == 0 {
        0
    } else {
        digits_value(s.drop_last(), radix) * radix + digit_value(s.last(), radix)
    }
}

/// The digits of an unsigned number: one leading `+` is allowed.
pub open spec fn unsigned_digits(s: Seq<char>) -> Seq<char> {
    if s.len() > 0 && s[0] == '+' {
        s.drop_first()
    } else {
        s
    }
}

/// The unsigned number that `s` spells in base `radix`, where it spells one
/// no larger than `max`.
pub open spec fn parse_unsigned(s: Seq<char>, radix: nat, max: nat) -> Option<nat> {
    let d = unsigned_digits(s);
    if d.len() > 0 && all_digits(d, radix) && digits_value(d, radix) <= max {
        Some(digits_value(d, radix) as nat)
    } else {
        None
    }
}

/// `s` without a leading `0x` or `0X`.
pub open spec fn without_hex_prefix(s: Seq<char>) -> Seq<char> {
    if s.len() >= 2 && s[0] == '0' && (s[1] == 'x' || s[1] == 'X') {
        s.subrange(2, s.len() as int)
    } else {
        s
    }
}

/// The address that a hexadecimal string denotes.
pub open spec fn spec_address(s: Seq<char>) -> Option<u64> {
    match parse_unsigned(without_hex_prefix(s), 16, u64::MAX as nat) {
        Some(v) => Some(v as u64),
        None => None,
    }
}

/// Where the user asked for a breakpoint.
#[derive(Clone, Debug, PartialEq, Eq)]
pub enum BreakpointSpec {
    /// A raw address, written `*` and hexadecimal digits.
    Address(u64),
    /// `*` followed by something that is no address.
    BadAddress,
    /// A source line number.
    Line(usize),
    /// A function name.
    Function(String),
}

proof fn lemma_digits_value_nonneg(s: Seq<char>, radix: nat)
    requires
        all_digits(s, radix),
    ensures
        digits_value(s, radix) >= 0,
    decreases s.len(),
{
    if s.len() > 0 {
        lemma_digits_value_nonneg(s.drop_last(), radix);
        assert(digit_value(s[s.len() - 1], radix) >= 0);
        assert(digits_value(s.drop_last(), radix) * radix >= 0) by (nonlinear_arith)
            requires
                digits_value(s.drop_last(), radix) >= 0,
        ;
    }
}

proof fn lemma_prefix_value_le(s: Seq<char>, radix: nat, i: int)
    requires
        radix >= 1,
        all_digits(s, radix),
        0 <= i <= s.len(),
    ensures
        digits_value(s.take(i), radix) <= digits_value(s, radix),
    decreases s.len(),
{
    if i < s.len() {
        let p = s.drop_last();
        assert(s.take(i) =~= p.take(i));
        lemma_prefix_value_le(p, radix, i);
        lemma_digits_value_nonneg(p, radix);
        assert(digit_value(s[s.len() - 1], radix) >= 0);
        assert(digits_value(p, radix) <= digits_value(p, radix) * radix) by (nonlinear_arith)
            requires
                digits_value(p, radix) >= 0,
                radix >= 1,
        ;
    } else {
        assert(s.take(i) =~= s);
    }
}

/// Value of `c` as a digit in base `radix`.
fn digit(c: char, radix: u64) -> (r: Option<u64>)
    requires
        2 <= radix <= 36,
    ensures
        digit_value(c, radix as nat) >= 0 ==> r == Some(digit_value(c, radix as nat) as u64),
        digit_value(c, radix as nat) < 0 ==> r is None,
{
    let v: u64 = if '0' <= c && c <= '9' {
        (c as u32 - '0' as u32) as u64
    } else if 'a' <= c && c <= 'z' {
        (c as u32 - 'a' as u32 + 10) as u64
    } else if 'A' <= c && c <= 'Z' {
        (c as u32 - 'A' as u32 + 10) as u64
    } else {
        return None;
    };
    if v < radix {
        Some(v)
    } else {
        None
    }
}

/// Parses the unsigned number in base `radix` that `s` spells from
/// position `start` on, as `from_str_radix` does: one leading `+`, then at
/// least one digit, and nothing that exceeds `max`.
pub fn parse_unsigned_from(s: &str, start: usize, radix: u64, max: u64) -> (r: Option<u64>)
    requires
        2 <= radix <= 36,
        start <= s@.len(),
    ensures
        r is None <==> parse_unsigned(
            s@.subrange(start as int, s@.len() as int),
            radix as nat,
            max as nat,
        ) is None,
        r matches Some(v) ==> parse_unsigned(
            s@.subrange(start as int, s@.len() as int),
            radix as nat,
            max as nat,
        ) == Some(v as nat),
{
    let n = s.unicode_len();
    let ghost t = s@.subrange(start as int, n as int);
    let mut i = start;
    if i < n && s.get_char(i) == '+' {
        i = i + 1;
    }
    let first = i;
    let ghost d = s@.subrange(first as int, n as int);
    assert(d =~= unsigned_digits(t));
    if first == n {
        return None;
    }
    let mut acc: u64 = 0;
    while i < n
        invariant
            n == s@.len(),
            first <= i <= n,
            first < n,
            d == s@.subrange(first as int, n as int),
            d == unsigned_digits(s@.subrange(start as int, n as int)),
            2 <= radix <= 36,
            all_digits(d.take(i - first), radix as nat),
            acc == digits_value(d.take(i - first), radix as nat),
            acc <= max,
        decreases n - i,
    {
        let c = s.get_char(i);
        let ghost k = i - first;
        assert(d[k] == c);
        assert(d.take(k + 1).drop_last() =~= d.take(k));
        match digit(c, radix) {
            None => {
                return None;
            },
            Some(v) => {
                if v > max || acc > (max - v) / radix {
                    proof {
                        if all_digits(d, radix as nat) {
                            assert(acc * radix + v > max) by (nonlinear_arith)
                                requires
                                    v > max || acc > (max - v) / radix as int,
                                    radix >= 2,
                                    acc >= 0,
                            ;
                            lemma_prefix_value_le(d, radix as nat, k + 1);
                        }
                    }
                    return None;
                }
                assert(acc * radix + v <= max) by (nonlinear_arith)
                    requires
                        v <= max,
                        acc <= (max - v) / radix as int,
                        radix >= 2,
                ;
                acc = acc * radix + v;
                proof {
                    assert forall|j: int| 0 <= j < k + 1 implies digit_value(
                        #[trigger] d.take(k + 1)[j],
                        radix as nat,
                    ) >= 0 by {
                        if j < k {
                            assert(d.take(k + 1)[j] == d.take(k)[j]);
                        }
                    }
                }
            },
        }
        i = i + 1;
    }
    assert(d.take(n - first) =~= d);
    Some(acc)
}

/// Parses a hexadecimal address, with or without a leading `0x`.
pub fn parse_address(addr: &str) -> (r: Option<u64>)
    ensures
        r == spec_address(addr@),
{
    let n = addr.unicode_len();
    let start: usize = if n >= 2 && addr.get_char(0) == '0' && (addr.get_char(1) == 'x'
        || addr.get_char(1) == 'X') {
        2
    } else {
        0
    };
    assert(addr@.subrange(0, n as int) =~= addr@);
    parse_unsigned_from(addr, start, 16, u64::MAX)
}

/// Reads a breakpoint argument: `*` and an address; otherwise a decimal
/// line number; otherwise a function name. A `*` followed by anything else
/// is `BadAddress`.
pub fn parse_breakpoint_spec(arg: &str) -> (r: BreakpointSpec)
    ensures
        arg@.len() > 0 && arg@[0] == '*' ==> r == (match spec_address(arg@.drop_first()) {
            Some(a) => BreakpointSpec::Address(a),
            None => BreakpointSpec::BadAddress,
        }),
        !(arg@.len() > 0 && arg@[0] == '*') ==> (match parse_unsigned(arg@, 10, usize::MAX as nat) {
            Some(n) => r == BreakpointSpec::Line(n as usize),
            None => r is Function && r->Function_0@ == arg@,
        }),
{
    let n = arg.unicode_len();
    if n > 0 && arg.get_char(0) == '*' {
        let rest = arg.substring_char(1, n);
        assert(rest@ =~= arg@.drop_first());
        match parse_address(rest) {
            Some(a) => BreakpointSpec::Address(a),
            None => BreakpointSpec::BadAddress,
        }
    } else {
        assert(arg@.subrange(0, n as int) =~= arg@);
        match parse_unsigned_from(arg, 0, 10, usize::MAX as u64) {
            Some(line) => BreakpointSpec::Line(line as usize),
            None => {
                let name = String::from_str(arg);
                BreakpointSpec::Function(name)
            },
        }
    }
}

} // verus!
