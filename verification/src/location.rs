//! The grammar of operator location specs.
//!
//! `*0x<hex>` is a literal address and wins outright; a bare decimal
//! integer is tried as a source line number, then as a function name, then
//! as a hex address without the prefix; any other token is tried as a
//! function name, then as a hex address.  Resolution is total: an
//! unresolvable token yields nothing, never a panic.

use vstd::prelude::*;
use crate::symbols::{first_function_named, first_line_numbered, SymbolTable};

verus! {

/// Decimal digit, by code point.
pub open spec fn is_dec_digit(c: char) -> bool {
    48 <= c as int <= 57
}

/// Value of a decimal digit.
pub open spec fn dec_digit_val(c: char) -> int {
    c as int - 48
}

/// Hexadecimal digit, either case, by code point.
pub open spec fn is_hex_digit(c: char) -> bool {
    (48 <= c as int <= 57) || (97 <= c as int <= 102) || (65 <= c as int <= 70)
}

/// Value of a hexadecimal digit.
pub open spec fn hex_digit_val(c: char) -> int {
    if 48 <= c as int <= 57 {
        c as int - 48
    } else if 97 <= c as int <= 102 {
        c as int - 87
    } else {
        c as int - 55
    }
}

/// A non-empty string of decimal digits.
pub open spec fn all_dec_digits(s: Seq<char>) -> bool {
    s.len() > 0 && forall|i: int| 0 <= i < s.len() ==> is_dec_digit(#[trigger] s[i])
}

/// A non-empty string of hexadecimal digits.
pub open spec fn all_hex_digits(s: Seq<char>) -> bool {
    s.len() > 0 && forall|i: int| 0 <= i < s.len() ==> is_hex_digit(#[trigger] s[i])
}

/// The number a decimal digit string denotes.
pub open spec fn dec_value(s: Seq<char>) -> int
    decreases s.len(),
{
    if s.len() == 0 {
        0
    } else {
        dec_value(s.drop_last()) * 10 + dec_digit_val(s.last())
    }
}

/// The number a hexadecimal digit string denotes.
pub open spec fn hex_value(s: Seq<char>) -> int
    decreases s.len(),
{
    if s.len() == 0 {
        0
    } else {
        hex_value(s.drop_last()) * 16 + hex_digit_val(s.last())
    }
}

proof fn lemma_dec_value_nonneg(s: Seq<char>)
    requires
        forall|i: int| 0 <= i < s.len() ==> is_dec_digit(#[trigger] s[i]),
    ensures
        dec_value(s) >= 0,
    decreases s.len(),
{
    if s.len() > 0 {
        lemma_dec_value_nonneg(s.drop_last());
    }
}

proof fn lemma_dec_value_take_mono(s: Seq<char>, i: int)
    requires
        forall|j: int| 0 <= j < s.len() ==> is_dec_digit(#[trigger] s[j]),
        0 <= i <= s.len(),
    ensures
        dec_value(s.take(i)) <= dec_value(s),
    decreases s.len() - i,
{
    if i < s.len() {
        assert(s.take(i + 1).drop_last() =~= s.take(i));
        lemma_dec_value_nonneg(s.take(i));
        lemma_dec_value_take_mono(s, i + 1);
    } else {
        assert(s.take(i) =~= s);
    }
}

proof fn lemma_hex_value_nonneg(s: Seq<char>)
    requires
        forall|i: int| 0 <= i < s.len() ==> is_hex_digit(#[trigger] s[i]),
    ensures
        hex_value(s) >= 0,
    decreases s.len(),
{
    if s.len() > 0 {
        lemma_hex_value_nonneg(s.drop_last());
    }
}

proof fn lemma_hex_value_take_mono(s: Seq<char>, i: int)
    requires
        forall|j: int| 0 <= j < s.len() ==> is_hex_digit(#[trigger] s[j]),
        0 <= i <= s.len(),
    ensures
        hex_value(s.take(i)) <= hex_value(s),
    decreases s.len() - i,
{
    if i < s.len() {
        assert(s.take(i + 1).drop_last() =~= s.take(i));
        lemma_hex_value_nonneg(s.take(i));
        lemma_hex_value_take_mono(s, i + 1);
    } else {
        assert(s.take(i) =~= s);
    }
}

/// Reads a bare decimal integer.  Nothing other than a digit string that
/// fits the machine's address width counts.
pub fn parse_dec(s: &str) -> (r: Option<usize>)
    ensures
        all_dec_digits(s@) && dec_value(s@) <= usize::MAX ==> (r matches Some(u) && u as int
            == dec_value(s@)),
        !(all_dec_digits(s@) && dec_value(s@) <= usize::MAX) ==> r is None,
{
    let n = s.unicode_len();
    if n == 0 {
        return None;
    }
    let mut acc: usize = 0;
    let mut i: usize = 0;
    while i < n
        invariant
            i <= n,
            n == s@.len(),
            forall|j: int| 0 <= j < i ==> is_dec_digit(#[trigger] s@[j]),
            acc == dec_value(s@.take(i as int)),
        decreases n - i,
    {
        let c = s.get_char(i);
        let u = c as u32;
        if u < 48 || u > 57 {
            return None;
        }
        let d = (u - 48) as usize;
        proof {
            assert(s@.take(i as int + 1).drop_last() =~= s@.take(i as int));
        }
        let wide: u128 = acc as u128 * 10 + d as u128;
        if wide > usize::MAX as u128 {
            proof {
                if all_dec_digits(s@) {
                    lemma_dec_value_take_mono(s@, i as int + 1);
                }
            }
            return None;
        }
        acc = wide as usize;
        i += 1;
    }
    proof {
        assert(s@.take(n as int) =~= s@);
    }
    Some(acc)
}

/// Reads a bare hexadecimal integer, either case, without a prefix.
pub fn parse_hex(s: &str) -> (r: Option<usize>)
    ensures
        all_hex_digits(s@) && hex_value(s@) <= usize::MAX ==> (r matches Some(u) && u as int
            == hex_value(s@)),
        !(all_hex_digits(s@) && hex_value(s@) <= usize::MAX) ==> r is None,
{
    let n = s.unicode_len();
    if n == 0 {
        return None;
    }
    let mut acc: usize = 0;
    let mut i: usize = 0;
    while i < n
        invariant
            i <= n,
            n == s@.len(),
            forall|j: int| 0 <= j < i ==> is_hex_digit(#[trigger] s@[j]),
            acc == hex_value(s@.take(i as int)),
        decreases n - i,
    {
        let c = s.get_char(i);
        let u = c as u32;
        let d: usize = if u >= 48 && u <= 57 {
            (u - 48) as usize
        } else if u >= 97 && u <= 102 {
            (u - 87) as usize
        } else if u >= 65 && u <= 70 {
            (u - 55) as usize
        } else {
            return None;
        };
        proof {
            assert(s@.take(i as int + 1).drop_last() =~= s@.take(i as int));
        }
        let wide: u128 = acc as u128 * 16 + d as u128;
        if wide > usize::MAX as u128 {
            proof {
                if all_hex_digits(s@) {
                    lemma_hex_value_take_mono(s@, i as int + 1);
                }
            }
            return None;
        }
        acc = wide as usize;
        i += 1;
    }
    proof {
        assert(s@.take(n as int) =~= s@);
    }
    Some(acc)
}

/// Whether the token opens with the literal-address marker `*0x` (the
/// `x` in either case).
pub open spec fn has_addr_prefix(s: Seq<char>) -> bool {
    s.len() >= 3 && s[0] == '*' && s[1] == '0' && (s[2] == 'x' || s[2] == 'X')
}

/// Where a token resolves when it is no literal address and no known
/// source line: a function name first, a bare hex address second.
pub open spec fn fallback_location(syms: SymbolTable, s: Seq<char>) -> Option<int> {
    match first_function_named(syms.functions@, s) {
        Some(f) => Some(f.low as int),
        None => if all_hex_digits(s) && hex_value(s) <= usize::MAX {
            Some(hex_value(s))
        } else {
            None
        },
    }
}

/// Where a location token resolves.  `*0x<hex>` is the address itself and
/// nothing else; a decimal integer is a line number first and falls back;
/// everything else starts at the fallback.
pub open spec fn resolved_location(syms: SymbolTable, s: Seq<char>) -> Option<int> {
    if has_addr_prefix(s) {
        if all_hex_digits(s.skip(3)) && hex_value(s.skip(3)) <= usize::MAX {
            Some(hex_value(s.skip(3)))
        } else {
            None
        }
    } else if all_dec_digits(s) && dec_value(s) <= usize::MAX {
        match first_line_numbered(syms.lines@, dec_value(s)) {
            Some(e) => Some(e.addr as int),
            None => fallback_location(syms, s),
        }
    } else {
        fallback_location(syms, s)
    }
}

/// Resolves an operator's location token against the symbol table.
pub fn parse_address(syms: &SymbolTable, token: &str) -> (r: Option<usize>)
    ensures
        match (r, resolved_location(*syms, token@)) {
            (Some(u), Some(a)) => u as int == a,
            (None, None) => true,
            _ => false,
        },
{
    let n = token.unicode_len();
    let prefixed = n >= 3 && token.get_char(0) == '*' && token.get_char(1) == '0' && (
    token.get_char(2) == 'x' || token.get_char(2) == 'X');
    if prefixed {
        let rest = token.substring_char(3, n);
        proof {
            assert(rest@ =~= token@.skip(3));
        }
        return parse_hex(rest);
    }
    match parse_dec(token) {
        Some(line) => {
            match syms.get_addr_for_line(line) {
                Some(addr) => Some(addr),
                None => fallback_lookup(syms, token),
            }
        },
        None => fallback_lookup(syms, token),
    }
}

/// The shared tail of resolution: function name, then bare hex.
fn fallback_lookup(syms: &SymbolTable, token: &str) -> (r: Option<usize>)
    ensures
        match (r, fallback_location(*syms, token@)) {
            (Some(u), Some(a)) => u as int == a,
            (None, None) => true,
            _ => false,
        },
{
    let owned = String::from_str(token);
    match syms.get_addr_for_function(&owned) {
        Some(addr) => Some(addr),
        None => parse_hex(token),
    }
}

} // verus!
