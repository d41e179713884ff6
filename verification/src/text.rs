//! Character classes and decimal text for `u32` values.
//!
//! The schema grammar and the emitted source are plain text, so both the
//! parser and the emitter rest on these definitions.

use vstd::prelude::*;
use vstd::string::*;

verus! {

/// Whether `c` is a symbol character: ASCII alphanumeric or an underscore.
pub open spec fn is_symbol_char(c: char) -> bool {
    let n = c as int;
    (97 <= n && n <= 122) || (65 <= n && n <= 90) || (48 <= n && n <= 57) || n == 95
}

/// Whether every character of `s` is a symbol character.
pub open spec fn all_symbol_chars(s: Seq<char>) -> bool {
    forall|i: int| 0 <= i < s.len() ==> is_symbol_char(#[trigger] s[i])
}

/// Whether `c` is an ASCII decimal digit.
pub open spec fn is_digit_char(c: char) -> bool {
    48 <= c as int && c as int <= 57
}

/// The numeric value of the digit character `c`.
pub open spec fn digit_val(c: char) -> int {
    c as int - 48
}

/// The digit character for the value `d`.
pub open spec fn digit_char(d: int) -> char {
    if d == 0 {
        '0'
    } else if d == 1 {
        '1'
    } else if d == 2 {
        '2'
    } else if d == 3 {
        '3'
    } else if d == 4 {
        '4'
    } else if d == 5 {
        '5'
    } else if d == 6 {
        '6'
    } else if d == 7 {
        '7'
    } else if d == 8 {
        '8'
    } else {
        '9'
    }
}

/// The decimal text of `n`, without leading zeros (except for `0` itself).
pub open spec fn dec_text(n: int) -> Seq<char>
    decreases n,
{
    if n < 10 {
        seq![digit_char(n)]
    } else {
        dec_text(n / 10).push(digit_char(n % 10))
    }
}

/// The value of the digit string `s`, accumulated left to right.
pub open spec fn dec_val(s: Seq<char>) -> int
    decreases s.len(),
{
    if s.len() == 0 {
        0
    } else {
        dec_val(s.drop_last()) * 10 + digit_val(s.last())
    }
}

/// Whether every character of `s` is a decimal digit.
pub open spec fn all_digit_chars(s: Seq<char>) -> bool {
    forall|i: int| 0 <= i < s.len() ==> is_digit_char(#[trigger] s[i])
}

/// The digit character of a value in `0 ..= 9` carries that value back.
pub proof fn lemma_digit_char_val(d: int)
    requires
        0 <= d <= 9,
    ensures
        digit_val(digit_char(d)) == d,
        is_digit_char(digit_char(d)),
        is_symbol_char(digit_char(d)),
{
}

/// The decimal text of a value in `u32` range is a non-empty digit string
/// whose value is the rendered number.
pub proof fn lemma_dec_text_val(n: int)
    requires
        0 <= n <= u32::MAX,
    ensures
        dec_text(n).len() >= 1,
        all_digit_chars(dec_text(n)),
        all_symbol_chars(dec_text(n)),
        dec_val(dec_text(n)) == n,
    decreases n,
{
    if n < 10 {
        lemma_digit_char_val(n);
        let s = seq![digit_char(n)];
        assert(s.last() == digit_char(n));
        assert(s.drop_last() =~= Seq::<char>::empty());
        assert(dec_val(s) == dec_val(Seq::<char>::empty()) * 10 + digit_val(digit_char(n)));
    } else {
        lemma_dec_text_val(n / 10);
        lemma_digit_char_val(n % 10);
        let prefix = dec_text(n / 10);
        let whole = prefix.push(digit_char(n % 10));
        assert(whole.drop_last() == prefix);
        assert(dec_val(whole) == dec_val(prefix) * 10 + (n % 10));
        assert(n / 10 * 10 + n % 10 == n) by {
            vstd::arithmetic::div_mod::lemma_fundamental_div_mod(n, 10);
        }
    }
}

/// The value of a digit string is non-negative.
pub proof fn lemma_dec_val_nonneg(s: Seq<char>)
    requires
        all_digit_chars(s),
    ensures
        dec_val(s) >= 0,
    decreases s.len(),
{
    if s.len() > 0 {
        assert(all_digit_chars(s.drop_last()));
        lemma_dec_val_nonneg(s.drop_last());
        assert(is_digit_char(s.last()));
    }
}

/// The value of a digit string is at least the value of any prefix.
pub proof fn lemma_dec_val_grows(s: Seq<char>, i: int)
    requires
        all_digit_chars(s),
        0 <= i <= s.len(),
    ensures
        dec_val(s) >= dec_val(s.take(i)),
    decreases s.len() - i,
{
    if i == s.len() {
        assert(s.take(i) =~= s);
    } else {
        let shorter = s.take(i);
        let longer = s.take(i + 1);
        assert(longer.drop_last() =~= shorter);
        assert(longer.last() == s[i]);
        assert(all_digit_chars(shorter));
        lemma_dec_val_nonneg(shorter);
        assert(is_digit_char(s[i]));
        assert(dec_val(longer) == dec_val(shorter) * 10 + digit_val(s[i]));
        lemma_dec_val_grows(s, i + 1);
    }
}

/// The digit character for the value `d`.
pub fn digit_str(d: u32) -> (r: &'static str)
    requires
        d <= 9,
    ensures
        r@ == seq![digit_char(d as int)],
{
    proof {
        reveal_strlit("0");
        reveal_strlit("1");
        reveal_strlit("2");
        reveal_strlit("3");
        reveal_strlit("4");
        reveal_strlit("5");
        reveal_strlit("6");
        reveal_strlit("7");
        reveal_strlit("8");
        reveal_strlit("9");
    }
    let r: &'static str = if d == 0 {
        "0"
    } else if d == 1 {
        "1"
    } else if d == 2 {
        "2"
    } else if d == 3 {
        "3"
    } else if d == 4 {
        "4"
    } else if d == 5 {
        "5"
    } else if d == 6 {
        "6"
    } else if d == 7 {
        "7"
    } else if d == 8 {
        "8"
    } else {
        "9"
    };
    proof {
        assert(r@ =~= seq![digit_char(d as int)]);
    }
    r
}

/// Appends the decimal text of `n` to `out`.
pub fn append_dec(out: &mut String, n: u32)
    ensures
        final(out)@ == old(out)@ + dec_text(n as int),
    decreases n,
{
    if n >= 10 {
        append_dec(out, n / 10);
        out.append(digit_str(n % 10));
    } else {
        out.append(digit_str(n));
    }
}

} // verus!
