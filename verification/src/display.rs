//! Human-readable sizes, and the layout of the prompts.
//!
//! `format_size` prints a byte count the way `format!("{:.2} {}", x, unit)`
//! prints the `f64` value `x` reached by converting the count to `f64` and
//! dividing it by 1024 while it is at least 1024 and a larger unit is left.
//! Everything here is exact integer arithmetic: the conversion to `f64` rounds
//! to 53 significant bits with ties to even, dividing by 1024 is exact, and the
//! two decimals are rounded half to even on the exact value.

use vstd::prelude::*;
use crate::text::push_char;

verus! {

/// `1024^k`.
pub open spec fn pow1024(k: nat) -> nat
    decreases k,
{
    if k == 0 {
        1
    } else {
        1024 * pow1024((k - 1) as nat)
    }
}

/// The distance between neighbouring `f64` values around `n`, searched from
/// the power of two `p` upwards: the least `p * 2^i` with `n < 2^53 * p * 2^i`.
pub open spec fn f64_spacing_from(n: nat, p: nat) -> nat
    decreases n - p,
{
    if p == 0 || n < 0x20_0000_0000_0000 * p {
        p
    } else {
        f64_spacing_from(n, 2 * p)
    }
}

/// The distance between neighbouring `f64` values around the integer `n`
/// (1 below 2^53).
pub open spec fn f64_spacing(n: nat) -> nat {
    f64_spacing_from(n, 1)
}

/// `a / d` rounded to the nearest integer, ties to the even one.
pub open spec fn div_round_half_even(a: nat, d: nat) -> nat {
    let q = a / d;
    let r = a % d;
    if 2 * r > d || (2 * r == d && q % 2 == 1) {
        q + 1
    } else {
        q
    }
}

/// The value of `n as f64`: `n` rounded to a multiple of the spacing of
/// `f64` values around it, ties to an even significand.
pub open spec fn f64_of(n: nat) -> nat {
    div_round_half_even(n, f64_spacing(n)) * f64_spacing(n)
}

/// The unit a value of `v` bytes is shown in: 0 for B, 1 for KB, up to 4 for TB.
pub open spec fn size_unit(v: nat) -> nat {
    if v < 1024 {
        0
    } else if v < 1024 * 1024 {
        1
    } else if v < 1024 * 1024 * 1024 {
        2
    } else if v < 1024 * 1024 * 1024 * 1024 {
        3
    } else {
        4
    }
}

/// The name of unit `k`.
pub open spec fn unit_name(k: nat) -> Seq<char> {
    if k == 0 {
        seq!['B']
    } else if k == 1 {
        seq!['K', 'B']
    } else if k == 2 {
        seq!['M', 'B']
    } else if k == 3 {
        seq!['G', 'B']
    } else {
        seq!['T', 'B']
    }
}

/// The decimal digit `d` (below 10) as a character.
pub open spec fn digit(d: nat) -> char {
    (d + 48) as char
}

/// The decimal representation of `n`, without leading zeros.
pub open spec fn decimal(n: nat) -> Seq<char>
    decreases n,
{
    if n < 10 {
        seq![digit(n)]
    } else {
        decimal(n / 10).push(digit(n % 10))
    }
}

/// The value `v` in its unit, in hundredths, rounded half to even.
pub open spec fn size_hundredths(v: nat) -> nat {
    div_round_half_even(v * 100, pow1024(size_unit(v)))
}

/// The text shown for a size of `bytes` bytes, such as `1.50 KB`.
pub open spec fn size_text(bytes: nat) -> Seq<char> {
    let v = f64_of(bytes);
    let h = size_hundredths(v);
    decimal(h / 100) + seq!['.', digit((h % 100) / 10), digit(h % 10), ' '] + unit_name(
        size_unit(v),
    )
}

fn div_round_half_even_exec(a: u128, d: u128) -> (r: u128)
    requires
        d > 0,
    ensures
        r == div_round_half_even(a as nat, d as nat),
{
    let q = a / d;
    let r = a % d;
    if r > d - r || (r == d - r && q % 2 == 1) {
        proof {
            vstd::arithmetic::div_mod::lemma_fundamental_div_mod(a as int, d as int);
        }
        assert(q < a) by (nonlinear_arith)
            requires
                a == d * q + r,
                r >= 1,
                d > 1,
        ;
        q + 1
    } else {
        q
    }
}

/// The value of `n as f64`, as an integer.
fn f64_value(n: u64) -> (v: u128)
    ensures
        v == f64_of(n as nat),
        v <= 2 * (n as nat) + 1,
{
    let m = n as u128;
    let mut p: u128 = 1;
    while m >= 0x20_0000_0000_0000u128 * p
        invariant
            m == n,
            1 <= p <= m + 1,
            f64_spacing_from(n as nat, p as nat) == f64_spacing(n as nat),
        decreases m - p,
    {
        p = 2 * p;
    }
    let q = div_round_half_even_exec(m, p);
    proof {
        let qq = m / p;
        vstd::arithmetic::div_mod::lemma_fundamental_div_mod(m as int, p as int);
        assert(qq * p <= m) by (nonlinear_arith)
            requires
                m == p * qq + m % p,
                m % p >= 0,
        ;
        assert(q * p <= m + p) by (nonlinear_arith)
            requires
                qq * p <= m,
                q <= qq + 1,
                p >= 1,
        ;
    }
    q * p
}

/// Appends the decimal representation of `n`.
fn push_decimal(s: &mut String, n: u128)
    ensures
        final(s)@ == old(s)@ + decimal(n as nat),
    decreases n,
{
    if n >= 10 {
        push_decimal(s, n / 10);
    }
    push_char(s, digit_char((n % 10) as u8));
}

fn digit_char(d: u8) -> (c: char)
    requires
        d < 10,
    ensures
        c == digit(d as nat),
{
    (d + 48) as char
}

/// Formats a byte size into a human-readable string (B, KB, MB, GB, TB),
/// with two decimals.
pub fn format_size(bytes: u64) -> (s: String)
    ensures
        s@ == size_text(bytes as nat),
{
    let v = f64_value(bytes);
    let ghost k = size_unit(v as nat);
    let unit: u8;
    let d: u128;
    if v < 1024 {
        unit = 0;
        d = 1;
    } else if v < 1024 * 1024 {
        unit = 1;
        d = 1024;
    } else if v < 1024 * 1024 * 1024 {
        unit = 2;
        d = 1024 * 1024;
    } else if v < 1024 * 1024 * 1024 * 1024 {
        unit = 3;
        d = 1024 * 1024 * 1024;
    } else {
        unit = 4;
        d = 1024 * 1024 * 1024 * 1024;
    }
    assert(d == pow1024(k)) by {
        reveal_with_fuel(pow1024, 5);
    }
    let h = div_round_half_even_exec(v * 100, d);
    let mut s = String::new();
    push_decimal(&mut s, h / 100);
    push_char(&mut s, '.');
    push_char(&mut s, digit_char(((h % 100) / 10) as u8));
    push_char(&mut s, digit_char((h % 10) as u8));
    push_char(&mut s, ' ');
    if unit == 1 {
        push_char(&mut s, 'K');
    } else if unit == 2 {
        push_char(&mut s, 'M');
    } else if unit == 3 {
        push_char(&mut s, 'G');
    } else if unit == 4 {
        push_char(&mut s, 'T');
    }
    push_char(&mut s, 'B');
    assert(s@ == size_text(bytes as nat));
    s
}


/// The separated concatenation of `parts`: `parts[0] + sep + parts[1] + ...`.
pub open spec fn joined(parts: Seq<Seq<char>>, sep: Seq<char>) -> Seq<char>
    decreases parts.len(),
{
    if parts.len() == 0 {
        Seq::empty()
    } else if parts.len() == 1 {
        parts[0]
    } else {
        joined(parts.drop_last(), sep) + sep + parts.last()
    }
}

/// The texts of a slice of strings.
pub open spec fn texts(parts: Seq<&str>) -> Seq<Seq<char>> {
    parts.map_values(|p: &str| p@)
}

/// Joins `parts` with `sep` between neighbours (`<[&str]>::join`).
pub fn join_texts(parts: &[&str], sep: &str) -> (s: String)
    ensures
        s@ == joined(texts(parts@), sep@),
{
    let mut s = String::new();
    let mut i: usize = 0;
    while i < parts.len()
        invariant
            i <= parts.len(),
            s@ == joined(texts(parts@.take(i as int)), sep@),
        decreases parts.len() - i,
    {
        let ghost before = texts(parts@.take(i as int));
        assert(texts(parts@.take(i + 1)).drop_last() =~= before);
        assert(texts(parts@.take(i + 1)).last() == parts@[i as int]@);
        if i > 0 {
            s.append(sep);
        }
        s.append(parts[i]);
        i += 1;
    }
    assert(parts@.take(parts.len() as int) =~= parts@);
    s
}

/// The look of the prompts: a question mark before questions, `[x] -- ` and
/// `[ ] -- ` as check boxes, and the answer after three dots.
pub struct CleanerTheme;

impl CleanerTheme {
    /// The question above a multiple choice: `❓ <prompt>`.
    pub fn format_multi_select_prompt(&self, prompt: &str) -> (s: String)
        ensures
            s@ == "❓ "@ + prompt@,
    {
        let mut s = String::from_str("❓ ");
        s.append(prompt);
        s
    }

    /// The question with the chosen items after it:
    /// `<prompt> ... Selected: <a>, <b>`.
    pub fn format_multi_select_prompt_selection(&self, prompt: &str, selections: &[&str]) -> (s:
        String)
        ensures
            s@ == prompt@ + " ... Selected: "@ + joined(texts(selections@), ", "@),
    {
        let mut s = String::from_str(prompt);
        s.append(" ... Selected: ");
        let list = join_texts(selections, ", ");
        s.append(list.as_str());
        s
    }

    /// The check box of an item.
    pub fn multi_select_marker(checked: bool) -> (m: &'static str)
        ensures
            m@ == (if checked {
                "[x] -- "@
            } else {
                "[ ] -- "@
            }),
    {
        if checked {
            "[x] -- "
        } else {
            "[ ] -- "
        }
    }

    /// An item line from its parts: under the cursor ` <pointer> <marker><text>`,
    /// elsewhere `   <marker><text>`.
    pub fn layout_multi_select_item(&self, text: &str, marker: &str, pointer: Option<&str>) -> (s:
        String)
        ensures
            s@ == match pointer {
                Some(p) => " "@ + p@ + " "@ + marker@ + text@,
                None => "   "@ + marker@ + text@,
            },
    {
        let mut s = String::new();
        match pointer {
            Some(p) => {
                s.append(" ");
                s.append(p);
                s.append(" ");
            },
            None => {
                s.append("   ");
            },
        }
        s.append(marker);
        s.append(text);
        s
    }

    /// An item line, unstyled: the cursor is `>`.
    pub fn format_multi_select_prompt_item(&self, text: &str, checked: bool, active: bool) -> (s:
        String)
        ensures
            s@ == (if active {
                " "@ + ">"@ + " "@ + (if checked {
                    "[x] -- "@
                } else {
                    "[ ] -- "@
                }) + text@
            } else {
                "   "@ + (if checked {
                    "[x] -- "@
                } else {
                    "[ ] -- "@
                }) + text@
            }),
    {
        let marker = Self::multi_select_marker(checked);
        let pointer = if active {
            Some(">")
        } else {
            None
        };
        self.layout_multi_select_item(text, marker, pointer)
    }

    /// The choices a yes/no question shows, the default in capitals.
    pub fn confirm_hint(default: Option<bool>) -> (h: &'static str)
        ensures
            h@ == match default {
                Some(true) => " [Y/n]"@,
                Some(false) => " [y/N]"@,
                None => " [y/n]"@,
            },
    {
        match default {
            Some(true) => " [Y/n]",
            Some(false) => " [y/N]",
            None => " [y/n]",
        }
    }

    /// A yes/no question: `❓ <prompt> [y/N]`.
    pub fn format_confirm_prompt(&self, prompt: &str, default: Option<bool>) -> (s: String)
        ensures
            s@ == "❓ "@ + prompt@ + match default {
                Some(true) => " [Y/n]"@,
                Some(false) => " [y/N]"@,
                None => " [y/n]"@,
            },
    {
        let mut s = String::from_str("❓ ");
        s.append(prompt);
        s.append(Self::confirm_hint(default));
        s
    }

    /// A yes/no question with its answer: `<prompt> ... yes`.
    pub fn format_confirm_prompt_selection(&self, prompt: &str, selection: Option<bool>) -> (s:
        String)
        ensures
            s@ == prompt@ + " ... "@ + match selection {
                Some(true) => "yes"@,
                Some(false) => "no"@,
                None => ""@,
            },
    {
        let answer = match selection {
            Some(true) => "yes",
            Some(false) => "no",
            None => "",
        };
        let mut s = String::from_str(prompt);
        s.append(" ... ");
        s.append(answer);
        s
    }
}


/// Every integer below 2^53 is an `f64` value: converting it loses nothing.
pub proof fn lemma_small_counts_convert_exactly(n: nat)
    requires
        n < 0x20_0000_0000_0000,
    ensures
        f64_of(n) == n,
{
    assert(f64_spacing(n) == 1);
    assert(n / 1 == n && n % 1 == 0) by (nonlinear_arith);
}

/// Below 1024 bytes a size is shown as the plain count of bytes:
/// `<n>.00 B`.
pub proof fn lemma_bytes_shown_exactly(bytes: nat)
    requires
        bytes < 1024,
    ensures
        size_text(bytes) == decimal(bytes) + seq!['.', '0', '0', ' ', 'B'],
{
    lemma_small_counts_convert_exactly(bytes);
    assert(pow1024(0) == 1);
    let h = bytes * 100;
    assert(h / 1 == h && h % 1 == 0) by (nonlinear_arith);
    assert(size_hundredths(bytes) == h);
    assert(h / 100 == bytes && h % 100 == 0) by (nonlinear_arith)
        requires
            h == bytes * 100,
    ;
    assert(digit(0) == '0');
    assert(size_text(bytes) =~= decimal(bytes) + seq!['.', '0', '0', ' ', 'B']);
}

/// An exact power of 1024 from 1 KB to 1 TB is shown as one of its unit:
/// `1.00 KB`, `1.00 MB`, `1.00 GB`, `1.00 TB`.
pub proof fn lemma_unit_powers_shown_as_one(k: nat)
    requires
        1 <= k <= 4,
    ensures
        size_text(pow1024(k)) == seq!['1', '.', '0', '0', ' '] + unit_name(k),
{
    reveal_with_fuel(pow1024, 5);
    let v = pow1024(k);
    assert(v <= 0x100_0000_0000);
    lemma_small_counts_convert_exactly(v);
    assert(size_unit(v) == k);
    assert(v * 100 / v == 100 && (v * 100) % v == 0) by (nonlinear_arith)
        requires
            v >= 1,
    ;
    assert(size_hundredths(v) == 100);
    assert(decimal(1) == seq!['1']);
    assert(digit(0) == '0');
    assert(size_text(v) =~= seq!['1', '.', '0', '0', ' '] + unit_name(k));
}

} // verus!
