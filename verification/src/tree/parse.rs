//! The schema parser: greedy, single-pass, with one-token lookahead.
//!
//! Each executable parser is specified against a total spec-level parse
//! function over the input's character sequence, so parsing is total and
//! deterministic by construction.

use vstd::prelude::*;
use vstd::string::*;

use crate::text::{all_digit_chars, dec_val, digit_val, is_digit_char, is_symbol_char, lemma_dec_val_grows};
use crate::tree::message::{Message, MessageField};
use crate::tree::source::{SourceDec, SourceFile};
use crate::tree::var::{PrimitiveType, TypeTag, Var};

verus! {

/// A parse failure, carrying the position in the source where it arose.
#[derive(Copy, Clone, PartialEq, Eq, Structural, Hash, Debug)]
pub struct ParseError {
    /// The character offset at which parsing failed.
    pub position: usize,
}

/// The parsed shape of a message field: name, type and optional number.
pub type FieldModel = (Seq<char>, TypeTag, Option<u32>);

/// The parsed shape of a message: name and fields.
pub type MessageModel = (Seq<char>, Seq<FieldModel>);

/// Whether a schema field carries the parsed shape.
pub open spec fn field_matches(f: MessageField, fm: FieldModel) -> bool {
    &&& f.comments@.len() == 0
    &&& f.var.name@ == fm.0
    &&& f.var.tag == fm.1
    &&& f.field_number == fm.2
}

/// Whether a run of schema fields carries the parsed shapes, in order.
pub open spec fn fields_match(fs: Seq<MessageField>, fms: Seq<FieldModel>) -> bool {
    &&& fs.len() == fms.len()
    &&& forall|k: int| 0 <= k < fs.len() ==> field_matches(#[trigger] fs[k], fms[k])
}

/// Whether a message carries the parsed shape.
pub open spec fn message_matches(m: Message, mm: MessageModel) -> bool {
    &&& m.comments@.len() == 0
    &&& m.name@ == mm.0
    &&& fields_match(m.fields@, mm.1)
}

/// Whether a source file carries the parsed shapes, in order.
pub open spec fn source_matches(sf: SourceFile, mms: Seq<MessageModel>) -> bool {
    &&& sf.declarations@.len() == mms.len()
    &&& forall|k: int| 0 <= k < mms.len() ==> match #[trigger] sf.declarations@[k] {
        SourceDec::MessageDec(m) => message_matches(m, mms[k]),
    }
}

/// Whether `c` is a whitespace character.
pub open spec fn is_ws_char(c: char) -> bool {
    c == ' ' || c == '\t' || c == '\r' || c == '\n'
}

/// The end of the whitespace run starting at `pos`.
pub open spec fn ws_end(t: Seq<char>, pos: int) -> int
    decreases t.len() - pos,
{
    if pos < 0 || pos >= t.len() {
        pos
    } else if is_ws_char(t[pos]) {
        ws_end(t, pos + 1)
    } else {
        pos
    }
}

/// The whitespace run is bounded by the input, holds only whitespace, and
/// is maximal.
pub proof fn lemma_ws_end_bounds(t: Seq<char>, pos: int)
    requires
        0 <= pos <= t.len(),
    ensures
        pos <= ws_end(t, pos) <= t.len(),
        forall|k: int| pos <= k < ws_end(t, pos) ==> is_ws_char(#[trigger] t[k]),
        ws_end(t, pos) < t.len() ==> !is_ws_char(t[ws_end(t, pos)]),
    decreases t.len() - pos,
{
    if pos < t.len() && is_ws_char(t[pos]) {
        lemma_ws_end_bounds(t, pos + 1);
    }
}

/// The position just past the current line: after the next newline, or the
/// end of the input.
pub open spec fn line_end(t: Seq<char>, pos: int) -> int
    decreases t.len() - pos,
{
    if pos < 0 || pos >= t.len() {
        t.len() as int
    } else if t[pos] == '\n' {
        pos + 1
    } else {
        line_end(t, pos + 1)
    }
}

/// The line end is bounded by the position and the input.
pub proof fn lemma_line_end_bounds(t: Seq<char>, pos: int)
    requires
        0 <= pos <= t.len(),
    ensures
        pos <= line_end(t, pos) <= t.len(),
    decreases t.len() - pos,
{
    if pos < t.len() && t[pos] != '\n' {
        lemma_line_end_bounds(t, pos + 1);
    }
}

/// The position after all whitespace and `//`-to-end-of-line comments
/// starting at `pos`.
pub open spec fn skip_ws_comments(t: Seq<char>, pos: int) -> int
    decreases t.len() - pos,
    via skip_ws_comments_decreases
{
    if pos < 0 || pos >= t.len() {
        pos
    } else if is_ws_char(t[pos]) {
        skip_ws_comments(t, pos + 1)
    } else if t[pos] == '/' && pos + 1 < t.len() && t[pos + 1] == '/' {
        skip_ws_comments(t, line_end(t, pos + 2))
    } else {
        pos
    }
}

#[via_fn]
proof fn skip_ws_comments_decreases(t: Seq<char>, pos: int) {
    if 0 <= pos && pos + 1 < t.len() {
        lemma_line_end_bounds(t, pos + 2);
    }
}

/// The skipped region is bounded by the input.
pub proof fn lemma_skip_ws_comments_bounds(t: Seq<char>, pos: int)
    requires
        0 <= pos <= t.len(),
    ensures
        pos <= skip_ws_comments(t, pos) <= t.len(),
    decreases t.len() - pos,
{
    if pos < t.len() {
        if is_ws_char(t[pos]) {
            lemma_skip_ws_comments_bounds(t, pos + 1);
        } else if t[pos] == '/' && pos + 1 < t.len() && t[pos + 1] == '/' {
            lemma_line_end_bounds(t, pos + 2);
            lemma_skip_ws_comments_bounds(t, line_end(t, pos + 2));
        }
    }
}

/// The end of the symbol-character run starting at `pos`.
pub open spec fn sym_end(t: Seq<char>, pos: int) -> int
    decreases t.len() - pos,
{
    if pos < 0 || pos >= t.len() {
        pos
    } else if is_symbol_char(t[pos]) {
        sym_end(t, pos + 1)
    } else {
        pos
    }
}

/// The symbol run is bounded by the input, holds only symbol characters,
/// and is maximal.
pub proof fn lemma_sym_end_bounds(t: Seq<char>, pos: int)
    requires
        0 <= pos <= t.len(),
    ensures
        pos <= sym_end(t, pos) <= t.len(),
        forall|k: int| pos <= k < sym_end(t, pos) ==> is_symbol_char(#[trigger] t[k]),
        sym_end(t, pos) < t.len() ==> !is_symbol_char(t[sym_end(t, pos)]),
    decreases t.len() - pos,
{
    if pos < t.len() && is_symbol_char(t[pos]) {
        lemma_sym_end_bounds(t, pos + 1);
    }
}

/// The end of the digit run starting at `pos`.
pub open spec fn digit_end(t: Seq<char>, pos: int) -> int
    decreases t.len() - pos,
{
    if pos < 0 || pos >= t.len() {
        pos
    } else if is_digit_char(t[pos]) {
        digit_end(t, pos + 1)
    } else {
        pos
    }
}

/// The digit run is bounded by the input, holds only digits, and is
/// maximal.
pub proof fn lemma_digit_end_bounds(t: Seq<char>, pos: int)
    requires
        0 <= pos <= t.len(),
    ensures
        pos <= digit_end(t, pos) <= t.len(),
        forall|k: int| pos <= k < digit_end(t, pos) ==> is_digit_char(#[trigger] t[k]),
        digit_end(t, pos) < t.len() ==> !is_digit_char(t[digit_end(t, pos)]),
    decreases t.len() - pos,
{
    if pos < t.len() && is_digit_char(t[pos]) {
        lemma_digit_end_bounds(t, pos + 1);
    }
}

/// Matching the exact literal `lit` at `pos`: the position after it, when
/// the input carries it there.
pub open spec fn spec_exact(t: Seq<char>, pos: int, lit: Seq<char>) -> Option<int> {
    if 0 <= pos && pos + lit.len() <= t.len() && t.subrange(pos, pos + lit.len()) == lit {
        Some(pos + lit.len())
    } else {
        None
    }
}

/// Parsing a symbol at `pos`: the longest non-empty run of symbol
/// characters, or nothing.
pub open spec fn spec_symbol(t: Seq<char>, pos: int) -> Option<(Seq<char>, int)> {
    let e = sym_end(t, pos);
    if e == pos {
        None
    } else {
        Some((t.subrange(pos, e), e))
    }
}

/// Parsing a `u32` literal at `pos`: the longest non-empty digit run,
/// rejected when its value exceeds the `u32` range.
pub open spec fn spec_value_u32(t: Seq<char>, pos: int) -> Option<(u32, int)> {
    let e = digit_end(t, pos);
    if e == pos {
        None
    } else if dec_val(t.subrange(pos, e)) > u32::MAX {
        None
    } else {
        Some((dec_val(t.subrange(pos, e)) as u32, e))
    }
}

/// Parsing a primitive type at `pos`: a symbol drawn from the closed
/// keyword set.
pub open spec fn spec_primitive_type(t: Seq<char>, pos: int) -> Option<(PrimitiveType, int)> {
    match spec_symbol(t, pos) {
        None => None,
        Some((name, e)) => if name == "u8"@ {
            Some((PrimitiveType::UnsignedInt8, e))
        } else if name == "u16"@ {
            Some((PrimitiveType::UnsignedInt16, e))
        } else if name == "u32"@ {
            Some((PrimitiveType::UnsignedInt32, e))
        } else if name == "u64"@ {
            Some((PrimitiveType::UnsignedInt64, e))
        } else {
            None
        },
    }
}

/// Parsing a type tag at `pos`: currently a primitive type.
pub open spec fn spec_type_tag(t: Seq<char>, pos: int) -> Option<(TypeTag, int)> {
    match spec_primitive_type(t, pos) {
        None => None,
        Some((p, e)) => Some((TypeTag::Primitive(p), e)),
    }
}

/// Parsing an optional field number at `pos`: `= N` after optional
/// whitespace, or nothing consumed past the whitespace.
pub open spec fn spec_field_number(t: Seq<char>, pos: int) -> Option<(Option<u32>, int)> {
    let p1 = ws_end(t, pos);
    if p1 < t.len() && t[p1] == '=' {
        let p2 = ws_end(t, p1 + 1);
        match spec_value_u32(t, p2) {
            None => None,
            Some((v, p3)) => Some((Some(v), p3)),
        }
    } else {
        Some((None, p1))
    }
}

/// Parsing one message field at `pos`: a symbol, an optional `:`, a type
/// tag, an optional field number, then `;`.
pub open spec fn spec_message_field(t: Seq<char>, pos: int) -> Option<(FieldModel, int)> {
    match spec_symbol(t, pos) {
        None => None,
        Some((name, p1)) => {
            let p2 = ws_end(t, p1);
            let p3 = if p2 < t.len() && t[p2] == ':' {
                ws_end(t, p2 + 1)
            } else {
                p2
            };
            match spec_type_tag(t, p3) {
                None => None,
                Some((tag, p4)) => match spec_field_number(t, p4) {
                    None => None,
                    Some((num, p5)) => {
                        let p6 = ws_end(t, p5);
                        if p6 < t.len() && t[p6] == ';' {
                            Some(((name, tag, num), p6 + 1))
                        } else {
                            None
                        }
                    },
                },
            }
        },
    }
}

/// A parsed field strictly advances the position within the input.
pub proof fn lemma_message_field_advance(t: Seq<char>, pos: int)
    ensures
        match spec_message_field(t, pos) {
            Some((fm, e)) => pos < e <= t.len(),
            None => true,
        },
{
    if spec_message_field(t, pos) is Some {
        assert(sym_end(t, pos) != pos);
        assert(0 <= pos < t.len());
        let p1 = sym_end(t, pos);
        lemma_sym_end_bounds(t, pos);
        let p2 = ws_end(t, p1);
        lemma_ws_end_bounds(t, p1);
        let p3 = if p2 < t.len() && t[p2] == ':' {
            ws_end(t, p2 + 1)
        } else {
            p2
        };
        if p2 < t.len() && t[p2] == ':' {
            lemma_ws_end_bounds(t, p2 + 1);
        }
        let p4 = sym_end(t, p3);
        lemma_sym_end_bounds(t, p3);
        let p5_opt = spec_field_number(t, p4);
        lemma_ws_end_bounds(t, p4);
        let q1 = ws_end(t, p4);
        if q1 < t.len() && t[q1] == '=' {
            lemma_ws_end_bounds(t, q1 + 1);
            let q2 = ws_end(t, q1 + 1);
            lemma_digit_end_bounds(t, q2);
        }
        match p5_opt {
            Some((num, p5)) => {
                lemma_ws_end_bounds(t, p5);
            },
            None => {},
        }
    }
}

/// Parsing a message body at `pos` (after the opening `{`): fields and
/// interleaved comments until the closing `}`.
pub open spec fn spec_message_body(t: Seq<char>, pos: int) -> Option<(Seq<FieldModel>, int)>
    decreases t.len() - pos,
    via spec_message_body_decreases
{
    let p = skip_ws_comments(t, pos);
    if p < t.len() && t[p] == '}' {
        Some((Seq::<FieldModel>::empty(), p + 1))
    } else {
        match spec_message_field(t, p) {
            None => None,
            Some((fm, p2)) => match spec_message_body(t, p2) {
                None => None,
                Some((fs, p3)) => Some((seq![fm] + fs, p3)),
            },
        }
    }
}

#[via_fn]
proof fn spec_message_body_decreases(t: Seq<char>, pos: int) {
    let p = skip_ws_comments(t, pos);
    lemma_message_field_advance(t, p);
    if 0 <= pos && pos <= t.len() {
        lemma_skip_ws_comments_bounds(t, pos);
    }
    if pos < 0 {
        assert(p == pos);
    }
    if pos > t.len() {
        assert(p == pos);
    }
}

/// A parsed message body ends within the input, past its start.
pub proof fn lemma_message_body_advance(t: Seq<char>, pos: int)
    requires
        0 <= pos <= t.len(),
    ensures
        match spec_message_body(t, pos) {
            Some((fs, e)) => pos < e <= t.len(),
            None => true,
        },
    decreases t.len() - pos,
{
    let p = skip_ws_comments(t, pos);
    lemma_skip_ws_comments_bounds(t, pos);
    if p < t.len() && t[p] == '}' {
    } else {
        match spec_message_field(t, p) {
            None => {},
            Some((fm, p2)) => {
                lemma_message_field_advance(t, p);
                lemma_message_body_advance(t, p2);
            },
        }
    }
}

/// Parsing a message at `pos`: the `message` keyword, whitespace, a name,
/// optional whitespace, `{`, then the body.
pub open spec fn spec_message(t: Seq<char>, pos: int) -> Option<(MessageModel, int)> {
    match spec_exact(t, pos, "message"@) {
        None => None,
        Some(p1) => {
            let p2 = ws_end(t, p1);
            if p2 == p1 {
                None
            } else {
                match spec_symbol(t, p2) {
                    None => None,
                    Some((name, p3)) => {
                        let p4 = ws_end(t, p3);
                        if p4 < t.len() && t[p4] == '{' {
                            match spec_message_body(t, p4 + 1) {
                                None => None,
                                Some((fs, p5)) => Some(((name, fs), p5)),
                            }
                        } else {
                            None
                        }
                    },
                }
            }
        },
    }
}

/// A parsed message strictly advances the position within the input.
pub proof fn lemma_message_advance(t: Seq<char>, pos: int)
    ensures
        match spec_message(t, pos) {
            Some((mm, e)) => pos < e <= t.len(),
            None => true,
        },
{
    match spec_exact(t, pos, "message"@) {
        None => {},
        Some(p1) => {
            reveal_strlit("message");
            assert(0 <= pos && p1 == pos + 7 && p1 <= t.len());
            lemma_ws_end_bounds(t, p1);
            let p2 = ws_end(t, p1);
            lemma_sym_end_bounds(t, p2);
            let p3 = sym_end(t, p2);
            if sym_end(t, p2) != p2 {
                lemma_ws_end_bounds(t, p3);
                let p4 = ws_end(t, p3);
                if p4 < t.len() && t[p4] == '{' {
                    lemma_message_body_advance(t, p4 + 1);
                }
            }
        },
    }
}

/// Parsing a source file from `pos`: messages and interleaved comments
/// until the input is exhausted.
pub open spec fn spec_source_file(t: Seq<char>, pos: int) -> Option<Seq<MessageModel>>
    decreases t.len() - pos,
    via spec_source_file_decreases
{
    let p = skip_ws_comments(t, pos);
    if p >= t.len() {
        Some(Seq::<MessageModel>::empty())
    } else {
        match spec_message(t, p) {
            None => None,
            Some((mm, p2)) => match spec_source_file(t, p2) {
                None => None,
                Some(ms) => Some(seq![mm] + ms),
            },
        }
    }
}

#[via_fn]
proof fn spec_source_file_decreases(t: Seq<char>, pos: int) {
    let p = skip_ws_comments(t, pos);
    lemma_message_advance(t, p);
    if 0 <= pos && pos <= t.len() {
        lemma_skip_ws_comments_bounds(t, pos);
    }
}

/// Whether `c` is a whitespace character.
fn ws_char(c: char) -> (r: bool)
    ensures
        r == is_ws_char(c),
{
    c == ' ' || c == '\t' || c == '\r' || c == '\n'
}

/// Whether `c` is a symbol character.
fn symbol_char(c: char) -> (r: bool)
    ensures
        r == is_symbol_char(c),
{
    let n: u32 = c as u32;
    (97 <= n && n <= 122) || (65 <= n && n <= 90) || (48 <= n && n <= 57) || n == 95
}

/// Whether `c` is an ASCII decimal digit.
fn digit_char_test(c: char) -> (r: bool)
    ensures
        r == is_digit_char(c),
{
    let n: u32 = c as u32;
    48 <= n && n <= 57
}

/// The end of the whitespace run starting at `pos`.
fn ws_run_end(s: &str, pos: usize) -> (r: usize)
    requires
        pos as int <= s@.len(),
    ensures
        r as int == ws_end(s@, pos as int),
        pos <= r,
        r as int <= s@.len(),
    decreases s@.len() - pos,
{
    let n: usize = s.unicode_len();
    if pos >= n {
        pos
    } else if ws_char(s.get_char(pos)) {
        ws_run_end(s, pos + 1)
    } else {
        pos
    }
}

/// The position just past the current line.
fn line_run_end(s: &str, pos: usize) -> (r: usize)
    requires
        pos as int <= s@.len(),
    ensures
        r as int == line_end(s@, pos as int),
        pos <= r,
        r as int <= s@.len(),
    decreases s@.len() - pos,
{
    let n: usize = s.unicode_len();
    if pos >= n {
        n
    } else if s.get_char(pos) == '\n' {
        pos + 1
    } else {
        line_run_end(s, pos + 1)
    }
}

/// Consumes whitespace and `//`-to-end-of-line comments repeatedly.
fn skip_white_line_comments(s: &str, pos: usize) -> (r: usize)
    requires
        pos as int <= s@.len(),
    ensures
        r as int == skip_ws_comments(s@, pos as int),
        pos <= r,
        r as int <= s@.len(),
    decreases s@.len() - pos,
{
    let n: usize = s.unicode_len();
    if pos >= n {
        pos
    } else {
        let c: char = s.get_char(pos);
        if ws_char(c) {
            skip_white_line_comments(s, pos + 1)
        } else if c == '/' && pos + 1 < n && s.get_char(pos + 1) == '/' {
            let e: usize = line_run_end(s, pos + 2);
            proof {
                lemma_line_end_bounds(s@, pos as int + 2);
            }
            skip_white_line_comments(s, e)
        } else {
            pos
        }
    }
}

/// The end of the symbol run starting at `pos`.
fn sym_run_end(s: &str, pos: usize) -> (r: usize)
    requires
        pos as int <= s@.len(),
    ensures
        r as int == sym_end(s@, pos as int),
        pos <= r,
        r as int <= s@.len(),
    decreases s@.len() - pos,
{
    let n: usize = s.unicode_len();
    if pos >= n {
        pos
    } else if symbol_char(s.get_char(pos)) {
        sym_run_end(s, pos + 1)
    } else {
        pos
    }
}

/// The end of the digit run starting at `pos`.
fn digit_run_end(s: &str, pos: usize) -> (r: usize)
    requires
        pos as int <= s@.len(),
    ensures
        r as int == digit_end(s@, pos as int),
        pos <= r,
        r as int <= s@.len(),
    decreases s@.len() - pos,
{
    let n: usize = s.unicode_len();
    if pos >= n {
        pos
    } else if digit_char_test(s.get_char(pos)) {
        digit_run_end(s, pos + 1)
    } else {
        pos
    }
}

/// Matches the exact literal `lit` at `pos`.
fn exact(s: &str, pos: usize, lit: &str) -> (r: Option<usize>)
    requires
        pos as int <= s@.len(),
    ensures
        match spec_exact(s@, pos as int, lit@) {
            Some(e) => r matches Some(p) && p as int == e,
            None => r is None,
        },
{
    let n: usize = s.unicode_len();
    let l: usize = lit.unicode_len();
    if l > n - pos {
        proof {
            assert(spec_exact(s@, pos as int, lit@) is None);
        }
        return None;
    }
    let mut j: usize = 0;
    while j < l
        invariant
            j <= l,
            l == lit@.len(),
            n == s@.len(),
            pos + l <= n,
            forall|k: int| 0 <= k < j ==> s@[pos + k] == lit@[k],
        decreases l - j,
    {
        if s.get_char(pos + j) != lit.get_char(j) {
            proof {
                let sub = s@.subrange(pos as int, pos as int + l);
                if sub == lit@ {
                    assert(sub[j as int] == lit@[j as int]);
                    assert(false);
                }
            }
            return None;
        }
        j = j + 1;
    }
    proof {
        assert(s@.subrange(pos as int, pos as int + l) =~= lit@);
    }
    Some(pos + l)
}

/// Parses a non-empty symbol string.
pub fn symbol(s: &str, pos: usize) -> (r: Result<(String, usize), ParseError>)
    requires
        pos as int <= s@.len(),
    ensures
        match spec_symbol(s@, pos as int) {
            Some((name, e)) => r matches Ok((n2, p)) && n2@ == name && p as int == e,
            None => r is Err,
        },
        r matches Ok((n2, p)) ==> pos <= p && p as int <= s@.len(),
{
    let e: usize = sym_run_end(s, pos);
    if e == pos {
        Err(ParseError { position: pos })
    } else {
        let name: String = s.substring_char(pos, e).to_owned();
        Ok((name, e))
    }
}

/// Parses a `u32` literal.
fn value_u32(s: &str, pos: usize) -> (r: Result<(u32, usize), ParseError>)
    requires
        pos as int <= s@.len(),
    ensures
        match spec_value_u32(s@, pos as int) {
            Some((v, e)) => r matches Ok((v2, p)) && v2 == v && p as int == e,
            None => r is Err,
        },
        r matches Ok((v2, p)) ==> pos <= p && p as int <= s@.len(),
{
    let ghost t = s@;
    let e: usize = digit_run_end(s, pos);
    proof {
        lemma_digit_end_bounds(t, pos as int);
    }
    if e == pos {
        return Err(ParseError { position: pos });
    }
    let ghost digits = t.subrange(pos as int, e as int);
    proof {
        assert(all_digit_chars(digits));
    }
    let mut acc: u64 = 0;
    let mut i: usize = pos;
    while i < e
        invariant
            pos <= i <= e,
            e as int == digit_end(t, pos as int),
            e as int <= t.len(),
            digits == t.subrange(pos as int, e as int),
            all_digit_chars(digits),
            t == s@,
            acc <= u32::MAX,
            acc == dec_val(t.subrange(pos as int, i as int)),
        decreases e - i,
    {
        let c: char = s.get_char(i);
        proof {
            assert(digits[i - pos] == t[i as int]);
            assert(is_digit_char(c));
        }
        let d: u32 = c as u32 - 48;
        let acc2: u64 = acc * 10 + d as u64;
        proof {
            let shorter = t.subrange(pos as int, i as int);
            let longer = t.subrange(pos as int, i as int + 1);
            assert(longer.drop_last() =~= shorter);
            assert(longer.last() == t[i as int]);
            assert(dec_val(longer) == dec_val(shorter) * 10 + digit_val(t[i as int]));
        }
        i = i + 1;
        if acc2 > u32::MAX as u64 {
            proof {
                assert(digits.take(i - pos) =~= t.subrange(pos as int, i as int));
                lemma_dec_val_grows(digits, i - pos);
                assert(dec_val(digits) > u32::MAX);
            }
            return Err(ParseError { position: pos });
        }
        acc = acc2;
    }
    proof {
        assert(t.subrange(pos as int, i as int) == digits);
    }
    Ok((acc as u32, e))
}

/// Parses a primitive type.
pub fn primitive_type(s: &str, pos: usize) -> (r: Result<(PrimitiveType, usize), ParseError>)
    requires
        pos as int <= s@.len(),
    ensures
        match spec_primitive_type(s@, pos as int) {
            Some((p, e)) => r matches Ok((p2, e2)) && p2 == p && e2 as int == e,
            None => r is Err,
        },
        r matches Ok((p2, e2)) ==> pos <= e2 && e2 as int <= s@.len(),
{
    let (name, e) = match symbol(s, pos) {
        Ok(name_end) => name_end,
        Err(err) => {
            return Err(err);
        },
    };
    let primitive: PrimitiveType = if name.eq(&String::from_str("u8")) {
        PrimitiveType::UnsignedInt8
    } else if name.eq(&String::from_str("u16")) {
        PrimitiveType::UnsignedInt16
    } else if name.eq(&String::from_str("u32")) {
        PrimitiveType::UnsignedInt32
    } else if name.eq(&String::from_str("u64")) {
        PrimitiveType::UnsignedInt64
    } else {
        return Err(ParseError { position: pos });
    };
    Ok((primitive, e))
}

/// Parses a type tag.
pub fn type_tag(s: &str, pos: usize) -> (r: Result<(TypeTag, usize), ParseError>)
    requires
        pos as int <= s@.len(),
    ensures
        match spec_type_tag(s@, pos as int) {
            Some((tag, e)) => r matches Ok((t2, e2)) && t2 == tag && e2 as int == e,
            None => r is Err,
        },
        r matches Ok((t2, e2)) ==> pos <= e2 && e2 as int <= s@.len(),
{
    match primitive_type(s, pos) {
        Ok((primitive, e)) => Ok((TypeTag::Primitive(primitive), e)),
        Err(err) => Err(err),
    }
}

/// Parses the optional field number.
fn field_number(s: &str, pos: usize) -> (r: Result<(Option<u32>, usize), ParseError>)
    requires
        pos as int <= s@.len(),
    ensures
        match spec_field_number(s@, pos as int) {
            Some((num, e)) => r matches Ok((n2, e2)) && n2 == num && e2 as int == e,
            None => r is Err,
        },
        r matches Ok((n2, e2)) ==> pos <= e2 && e2 as int <= s@.len(),
{
    let n: usize = s.unicode_len();
    let p1: usize = ws_run_end(s, pos);
    if p1 < n && s.get_char(p1) == '=' {
        let p2: usize = ws_run_end(s, p1 + 1);
        match value_u32(s, p2) {
            Ok((v, p3)) => Ok((Some(v), p3)),
            Err(err) => Err(err),
        }
    } else {
        Ok((None, p1))
    }
}

/// Parses a message field.
pub fn message_field(s: &str, pos: usize) -> (r: Result<(MessageField, usize), ParseError>)
    requires
        pos as int <= s@.len(),
    ensures
        match spec_message_field(s@, pos as int) {
            Some((fm, e)) => r matches Ok((f, p)) && field_matches(f, fm) && p as int == e,
            None => r is Err,
        },
{
    let n: usize = s.unicode_len();
    let (name, p1) = match symbol(s, pos) {
        Ok(name_end) => name_end,
        Err(err) => {
            return Err(err);
        },
    };
    let p2: usize = ws_run_end(s, p1);
    let p3: usize = if p2 < n && s.get_char(p2) == ':' {
        ws_run_end(s, p2 + 1)
    } else {
        p2
    };
    let (tag, p4) = match type_tag(s, p3) {
        Ok(tag_end) => tag_end,
        Err(err) => {
            return Err(err);
        },
    };
    let (num, p5) = match field_number(s, p4) {
        Ok(num_end) => num_end,
        Err(err) => {
            return Err(err);
        },
    };
    let p6: usize = ws_run_end(s, p5);
    if p6 < n && s.get_char(p6) == ';' {
        let field: MessageField = MessageField {
            comments: Vec::new(),
            var: Var { name, tag },
            field_number: num,
        };
        Ok((field, p6 + 1))
    } else {
        Err(ParseError { position: p6 })
    }
}

/// Parses a message body, after the opening `{`, into `message`.
fn message_body(s: &str, pos: usize, message: &mut Message) -> (r: Result<usize, ParseError>)
    requires
        pos as int <= s@.len(),
    ensures
        match spec_message_body(s@, pos as int) {
            Some((fms, e)) => {
                &&& r matches Ok(p) && p as int == e
                &&& final(message).name == old(message).name
                &&& final(message).comments == old(message).comments
                &&& final(message).fields@.len() == old(message).fields@.len() + fms.len()
                &&& final(message).fields@.subrange(0, old(message).fields@.len() as int) == old(
                    message,
                ).fields@
                &&& fields_match(
                    final(message).fields@.skip(old(message).fields@.len() as int),
                    fms,
                )
            },
            None => r is Err,
        },
    decreases s@.len() - pos,
{
    let ghost t = s@;
    let n: usize = s.unicode_len();
    let p: usize = skip_white_line_comments(s, pos);
    if p < n && s.get_char(p) == '}' {
        proof {
            assert(final(message).fields@.subrange(0, old(message).fields@.len() as int)
                =~= old(message).fields@);
            assert(final(message).fields@.skip(old(message).fields@.len() as int)
                =~= Seq::<MessageField>::empty());
        }
        return Ok(p + 1);
    }
    let (field, p2) = match message_field(s, p) {
        Ok(field_end) => field_end,
        Err(err) => {
            return Err(err);
        },
    };
    proof {
        lemma_message_field_advance(t, p as int);
    }
    let ghost mid_fields = message.fields@.push(field);
    message.add_field(field);
    let r2 = message_body(s, p2, message);
    match r2 {
        Ok(p3) => {
            proof {
                let fm = spec_message_field(t, p as int).unwrap().0;
                let fs = spec_message_body(t, p2 as int).unwrap().0;
                let fms = seq![fm] + fs;
                let oldlen = old(message).fields@.len() as int;
                assert(final(message).fields@.subrange(0, oldlen + 1) == mid_fields);
                assert(final(message).fields@.subrange(0, oldlen)
                    =~= old(message).fields@);
                let tail = final(message).fields@.skip(oldlen);
                assert(fields_match(final(message).fields@.skip(oldlen + 1), fs));
                assert(tail.len() == fms.len());
                assert forall|k: int| 0 <= k < tail.len() implies field_matches(
                    #[trigger] tail[k],
                    fms[k],
                ) by {
                    if k == 0 {
                        assert(final(message).fields@[oldlen] == mid_fields[oldlen]);
                        assert(mid_fields[oldlen] == field);
                        assert(fms[0] == fm);
                    } else {
                        assert(tail[k] == final(message).fields@.skip(oldlen + 1)[k - 1]);
                        assert(fms[k] == fs[k - 1]);
                    }
                }
            }
            Ok(p3)
        },
        Err(err) => Err(err),
    }
}

/// Parses a message.
pub fn message(s: &str, pos: usize) -> (r: Result<(Message, usize), ParseError>)
    requires
        pos as int <= s@.len(),
    ensures
        match spec_message(s@, pos as int) {
            Some((mm, e)) => r matches Ok((m, p)) && message_matches(m, mm) && p as int == e,
            None => r is Err,
        },
{
    let n: usize = s.unicode_len();
    let p1: usize = match exact(s, pos, "message") {
        Some(p1) => p1,
        None => {
            return Err(ParseError { position: pos });
        },
    };
    let p2: usize = ws_run_end(s, p1);
    if p2 == p1 {
        return Err(ParseError { position: p1 });
    }
    let (name, p3) = match symbol(s, p2) {
        Ok(name_end) => name_end,
        Err(err) => {
            return Err(err);
        },
    };
    let p4: usize = ws_run_end(s, p3);
    if p4 < n && s.get_char(p4) == '{' {
        let mut msg: Message = Message::new(name);
        match message_body(s, p4 + 1, &mut msg) {
            Ok(p5) => {
                proof {
                    let fms = spec_message_body(s@, p4 as int + 1).unwrap().0;
                    assert(msg.fields@.skip(0) =~= msg.fields@);
                    assert(fields_match(msg.fields@, fms));
                }
                Ok((msg, p5))
            },
            Err(err) => Err(err),
        }
    } else {
        Err(ParseError { position: p4 })
    }
}

/// Parses an optional source declaration.
fn source_dec_optional(s: &str, pos: usize) -> (r: Result<(Option<SourceDec>, usize), ParseError>)
    requires
        pos as int <= s@.len(),
    ensures
        (pos as int) >= s@.len() ==> r == Ok::<(Option<SourceDec>, usize), ParseError>((None, pos)),
        (pos as int) < s@.len() ==> (match spec_message(s@, pos as int) {
            Some((mm, e)) => r matches Ok((dec, p)) && p as int == e && (dec matches Some(
                SourceDec::MessageDec(m),
            ) && message_matches(m, mm)),
            None => r is Err,
        }),
{
    let n: usize = s.unicode_len();
    if pos >= n {
        Ok((None, pos))
    } else {
        match message(s, pos) {
            Ok((m, p)) => Ok((Some(SourceDec::MessageDec(m)), p)),
            Err(err) => Err(err),
        }
    }
}

/// Parses the declarations of a source file from `pos` into `sf`.
fn source_file_at(s: &str, pos: usize, sf: &mut SourceFile) -> (r: Result<(), ParseError>)
    requires
        pos as int <= s@.len(),
    ensures
        match spec_source_file(s@, pos as int) {
            Some(mms) => {
                &&& r is Ok
                &&& final(sf).declarations@.len() == old(sf).declarations@.len() + mms.len()
                &&& final(sf).declarations@.subrange(0, old(sf).declarations@.len() as int) == old(
                    sf,
                ).declarations@
                &&& source_matches_from(
                    final(sf).declarations@.skip(old(sf).declarations@.len() as int),
                    mms,
                )
            },
            None => r is Err,
        },
    decreases s@.len() - pos,
{
    let ghost t = s@;
    let p: usize = skip_white_line_comments(s, pos);
    let (dec, p2) = match source_dec_optional(s, p) {
        Ok(dec_end) => dec_end,
        Err(err) => {
            return Err(err);
        },
    };
    match dec {
        None => {
            proof {
                assert(final(sf).declarations@.subrange(0, old(sf).declarations@.len() as int)
                    =~= old(sf).declarations@);
                assert(final(sf).declarations@.skip(old(sf).declarations@.len() as int)
                    =~= Seq::<SourceDec>::empty());
            }
            Ok(())
        },
        Some(dec) => {
            proof {
                lemma_message_advance(t, p as int);
            }
            let ghost mid_decs = sf.declarations@.push(dec);
            sf.add_declaration(dec);
            let r2 = source_file_at(s, p2, sf);
            match r2 {
                Ok(_) => {
                    proof {
                        let mm = spec_message(t, p as int).unwrap().0;
                        let ms = spec_source_file(t, p2 as int).unwrap();
                        let mms = seq![mm] + ms;
                        let oldlen = old(sf).declarations@.len() as int;
                        assert(final(sf).declarations@.subrange(0, oldlen + 1) == mid_decs);
                        assert(final(sf).declarations@.subrange(0, oldlen)
                            =~= old(sf).declarations@);
                        let tail = final(sf).declarations@.skip(oldlen);
                        assert(source_matches_from(final(sf).declarations@.skip(oldlen + 1), ms));
                        assert(tail.len() == mms.len());
                        assert forall|k: int| 0 <= k < tail.len() implies (match #[trigger] tail[k] {
                            SourceDec::MessageDec(m) => message_matches(m, mms[k]),
                        }) by {
                            if k == 0 {
                                assert(final(sf).declarations@[oldlen] == mid_decs[oldlen]);
                                assert(mid_decs[oldlen] == dec);
                                assert(mms[0] == mm);
                            } else {
                                assert(tail[k] == final(sf).declarations@.skip(oldlen + 1)[k - 1]);
                                assert(mms[k] == ms[k - 1]);
                            }
                        }
                    }
                    Ok(())
                },
                Err(err) => Err(err),
            }
        },
    }
}

/// Whether a run of declarations carries the parsed shapes, in order.
pub open spec fn source_matches_from(decs: Seq<SourceDec>, mms: Seq<MessageModel>) -> bool {
    &&& decs.len() == mms.len()
    &&& forall|k: int| 0 <= k < mms.len() ==> match #[trigger] decs[k] {
        SourceDec::MessageDec(m) => message_matches(m, mms[k]),
    }
}

/// Parses a source file.
pub fn source_file(s: &str) -> (r: Result<SourceFile, ParseError>)
    ensures
        match spec_source_file(s@, 0) {
            Some(mms) => r matches Ok(sf) && source_matches(sf, mms),
            None => r is Err,
        },
{
    let mut sf: SourceFile = SourceFile { declarations: Vec::new() };
    match source_file_at(s, 0, &mut sf) {
        Ok(_) => {
            proof {
                if spec_source_file(s@, 0) is Some {
                    assert(sf.declarations@.skip(0) =~= sf.declarations@);
                }
            }
            Ok(sf)
        },
        Err(err) => Err(err),
    }
}


} // verus!
