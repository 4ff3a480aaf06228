//! The language of test scripts, stated as functions from text to what it
//! means. Each reads the characters `c` from a position and gives what it
//! read and the position after it, or nothing when the text does not fit
//! there. Symbol names are resolved in an optional table.
use crate::commands::{
    AssertCommand, CliCommand, ControllableFunction, LoadTarget, MemoryCommand, RegisterCommand, RunAddress, RunCommand,
};
use crate::error::AppResult;
use crate::lexer::{all_hex, bin_run_value, dec_run_value, even_digits, hex_pairs, hex_run_value, is_blank, is_name_char, lower, unescape};
use crate::parser::{items, trim};
use crate::symbols::{lookup, SymbolEntry, SymbolTable};
use crate::text::hex_value;
use crate::until_condition::{BooleanExpression, RegisterSource, Source};
use vstd::prelude::*;

verus! {

/// What a reading function returned, as the value read and the position
/// after it, or nothing on an error.
pub open spec fn read<T>(r: AppResult<(T, usize)>) -> Option<(T, int)> {
    match r {
        Ok((v, e)) => Some((v, e as int)),
        Err(_) => None,
    }
}

/// Whether `c` holds `ch` at `i`.
pub open spec fn at(c: Seq<char>, i: int, ch: char) -> bool {
    0 <= i < c.len() && c[i] == ch
}

/// The first position at or after `i` that is not blank.
pub open spec fn blank_end(c: Seq<char>, i: int) -> int
    decreases c.len() - i,
{
    if 0 <= i < c.len() && is_blank(c[i]) {
        blank_end(c, i + 1)
    } else {
        i
    }
}

/// The end of the run of name characters from `i`.
pub open spec fn name_run(c: Seq<char>, i: int) -> int
    decreases c.len() - i,
{
    if 0 <= i < c.len() && is_name_char(c[i]) {
        name_run(c, i + 1)
    } else {
        i
    }
}

/// The end of the run of hexadecimal digits from `i`.
pub open spec fn hex_run(c: Seq<char>, i: int) -> int
    decreases c.len() - i,
{
    if 0 <= i < c.len() && hex_value(c[i]) is Some {
        hex_run(c, i + 1)
    } else {
        i
    }
}

/// The end of the run of decimal digits from `i`.
pub open spec fn dec_run(c: Seq<char>, i: int) -> int
    decreases c.len() - i,
{
    if 0 <= i < c.len() && '0' <= c[i] <= '9' {
        dec_run(c, i + 1)
    } else {
        i
    }
}

/// The end of the run of binary digits from `i`.
pub open spec fn bin_run(c: Seq<char>, i: int) -> int
    decreases c.len() - i,
{
    if 0 <= i < c.len() && (c[i] == '0' || c[i] == '1') {
        bin_run(c, i + 1)
    } else {
        i
    }
}

/// The keyword `kw` (lower case) at `i`, in any case, not followed by a
/// name character: the position after it.
pub open spec fn keyword_at(c: Seq<char>, i: int, kw: Seq<char>) -> Option<int> {
    if 0 <= i && i + kw.len() <= c.len() && (forall|k: int| 0 <= k < kw.len() ==> lower(#[trigger] c[i + k]) == kw[k])
        && !(i + kw.len() < c.len() && is_name_char(c[i + kw.len()])) {
        Some(i + kw.len())
    } else {
        None
    }
}

/// A number: `0x` (or `0X`) and one to four hexadecimal digits, `0b` (or
/// `0B`) and binary digits, or decimal digits, read as far as its digits
/// go; nothing when it is over `max`.
pub open spec fn number_at(c: Seq<char>, pos: int, max: nat) -> Option<(usize, int)> {
    if at(c, pos, '0') && (at(c, pos + 1, 'x') || at(c, pos + 1, 'X')) {
        let e = hex_run(c, pos + 2);
        let v = hex_run_value(c.subrange(pos + 2, e));
        if e == pos + 2 || e - (pos + 2) > 4 || v > max {
            None
        } else {
            Some((v as usize, e))
        }
    } else if at(c, pos, '0') && (at(c, pos + 1, 'b') || at(c, pos + 1, 'B')) {
        let e = bin_run(c, pos + 2);
        let v = bin_run_value(c.subrange(pos + 2, e));
        if e == pos + 2 || v > max {
            None
        } else {
            Some((v as usize, e))
        }
    } else {
        let e = dec_run(c, pos);
        let v = dec_run_value(c.subrange(pos, e));
        if e == pos || v > max {
            None
        } else {
            Some((v as usize, e))
        }
    }
}

/// The address of the symbol `name`; nothing without a table or for an
/// unknown name.
pub open spec fn symbol_value(symbols: Option<Seq<SymbolEntry>>, name: Seq<char>) -> Option<u16> {
    match symbols {
        Some(t) => lookup(t, name),
        None => None,
    }
}

/// The entries of an optional symbol table.
pub open spec fn entries(symbols: Option<&SymbolTable>) -> Option<Seq<SymbolEntry>> {
    match symbols {
        Some(t) => Some(t@),
        None => None,
    }
}

/// The entries of an optional symbol table held by value.
pub open spec fn entries_of(symbols: Option<SymbolTable>) -> Option<Seq<SymbolEntry>> {
    match symbols {
        Some(t) => Some(t@),
        None => None,
    }
}

/// An address: `#0x` and one to four hexadecimal digits, or `$` and a
/// symbol name.
pub open spec fn address_at(symbols: Option<Seq<SymbolEntry>>, c: Seq<char>, pos: int) -> Option<(usize, int)> {
    if at(c, pos, '#') && at(c, pos + 1, '0') && at(c, pos + 2, 'x') {
        let e = hex_run(c, pos + 3);
        if e == pos + 3 || e - (pos + 3) > 4 {
            None
        } else {
            Some((hex_run_value(c.subrange(pos + 3, e)) as usize, e))
        }
    } else if at(c, pos, '$') {
        let e = name_run(c, pos + 1);
        if e == pos + 1 {
            None
        } else {
            match symbol_value(symbols, c.subrange(pos + 1, e)) {
                Some(a) => Some((a as usize, e)),
                None => None,
            }
        }
    } else {
        None
    }
}

/// A location: an address, maybe followed by `+` or `-` (not starting
/// `->`) and a number of at most 16 bits; the sum wraps around the 64 KiB
/// address space.
pub open spec fn location_at(symbols: Option<Seq<SymbolEntry>>, c: Seq<char>, pos: int) -> Option<(usize, int)> {
    match address_at(symbols, c, pos) {
        None => None,
        Some((a, e)) => {
            let p = blank_end(c, e);
            if at(c, p, '+') || (at(c, p, '-') && !at(c, p + 1, '>')) {
                match number_at(c, blank_end(c, p + 1), 0xffff) {
                    None => None,
                    Some((off, e2)) => Some(
                        (
                            (if at(c, p, '+') {
                                (a + off) % 0x10000
                            } else {
                                (a + 0x10000 - off) % 0x10000
                            }) as usize,
                            e2,
                        ),
                    ),
                }
            } else {
                Some((a, e))
            }
        },
    }
}

/// The register a name stands for.
pub open spec fn register_named(t: Seq<char>) -> Option<RegisterSource> {
    if t == seq!['A'] {
        Some(RegisterSource::Accumulator)
    } else if t == seq!['X'] {
        Some(RegisterSource::RegisterX)
    } else if t == seq!['Y'] {
        Some(RegisterSource::RegisterY)
    } else if t == seq!['S'] {
        Some(RegisterSource::Status)
    } else if t == seq!['S', 'P'] {
        Some(RegisterSource::StackPointer)
    } else if t == seq!['C', 'P'] {
        Some(RegisterSource::CommandPointer)
    } else if t == seq!['c', 'y', 'c', 'l', 'e', '_', 'c', 'o', 'u', 'n', 't'] {
        Some(RegisterSource::CycleCount)
    } else {
        None
    }
}

/// A register name: `A`, `X`, `Y`, `S`, `SP`, `CP` or `cycle_count`.
pub open spec fn register_at(c: Seq<char>, pos: int) -> Option<(RegisterSource, int)> {
    let e = name_run(c, pos);
    match register_named(c.subrange(pos, e)) {
        Some(r) => Some((r, e)),
        None => None,
    }
}

/// An operand of a comparison: a register, a memory location, or a
/// number; on the right side also `$name` (the symbol's address as a
/// value), `<$name` and `>$name` (its low and high byte).
pub open spec fn operand_at(symbols: Option<Seq<SymbolEntry>>, c: Seq<char>, pos: int, right: bool) -> Option<(Source, int)> {
    match register_at(c, pos) {
        Some((r, e)) => Some((Source::Register(r), e)),
        None => if right && (at(c, pos, '<') || at(c, pos, '>')) && at(c, pos + 1, '$') {
            match address_at(symbols, c, pos + 1) {
                None => None,
                Some((a, e)) => Some(
                    (
                        Source::Value(
                            if at(c, pos, '<') {
                                a % 256
                            } else {
                                a / 256
                            },
                        ),
                        e,
                    ),
                ),
            }
        } else if right && at(c, pos, '$') {
            match address_at(symbols, c, pos) {
                None => None,
                Some((a, e)) => Some((Source::Value(a), e)),
            }
        } else if at(c, pos, '#') || at(c, pos, '$') {
            match location_at(symbols, c, pos) {
                None => None,
                Some((a, e)) => Some((Source::Memory(a), e)),
            }
        } else {
            match number_at(c, pos, 0xffff) {
                None => None,
                Some((v, e)) => Some((Source::Value(v), e)),
            }
        },
    }
}

/// The first position at or after `i` holding `ch`, or the length.
pub open spec fn char_end(c: Seq<char>, i: int, ch: char) -> int
    decreases c.len() - i,
{
    if 0 <= i < c.len() && c[i] != ch {
        char_end(c, i + 1, ch)
    } else {
        i
    }
}

/// The bytes of comma separated hexadecimal numbers: each item, blanks
/// around it removed, must be hexadecimal digits, and gives the first
/// byte it is written with.
pub open spec fn hex_sequence(s: Seq<char>) -> Option<Seq<u8>> {
    if forall|k: int| 0 <= k < items(s).len() ==> #[trigger] trim(items(s)[k]).len() > 0 && all_hex(trim(items(s)[k])) {
        Some(items(s).map_values(|t: Seq<char>| hex_pairs(even_digits(trim(t)))[0]))
    } else {
        None
    }
}

/// A byte list: `0x(`, hexadecimal bytes separated by commas, `)`.
pub open spec fn byte_list_at(c: Seq<char>, pos: int) -> Option<(Seq<u8>, int)> {
    if at(c, pos, '0') && at(c, pos + 1, 'x') && at(c, pos + 2, '(') {
        let e = char_end(c, pos + 3, ')');
        if e >= c.len() {
            None
        } else {
            match hex_sequence(c.subrange(pos + 3, e)) {
                None => None,
                Some(b) => Some((b, e + 1)),
            }
        }
    } else {
        None
    }
}

/// The inside of a string from `i` up to its closing quote (a backslash
/// keeps the next character inside, unless `raw`), and the position after
/// the quote.
pub open spec fn quote_scan(c: Seq<char>, i: int, raw: bool) -> Option<(Seq<char>, int)>
    decreases c.len() - i,
{
    if i < 0 || i >= c.len() {
        None
    } else if c[i] == '"' {
        Some((seq![], i + 1))
    } else if c[i] == '\\' && !raw && i + 1 < c.len() {
        match quote_scan(c, i + 2, raw) {
            None => None,
            Some((s, e)) => Some((seq![c[i], c[i + 1]] + s, e)),
        }
    } else {
        match quote_scan(c, i + 1, raw) {
            None => None,
            Some((s, e)) => Some((seq![c[i]] + s, e)),
        }
    }
}

/// A string between double quotes: its inside, unchanged.
pub open spec fn quoted_at(c: Seq<char>, pos: int, raw: bool) -> Option<(Seq<char>, int)> {
    if at(c, pos, '"') {
        quote_scan(c, pos + 1, raw)
    } else {
        None
    }
}

/// A string literal as bytes, its escapes resolved (see `unescape`).
pub open spec fn string_bytes_at(c: Seq<char>, pos: int) -> Option<(Seq<u8>, int)> {
    match quoted_at(c, pos, false) {
        None => None,
        Some((s, e)) => match unescape(s) {
            None => None,
            Some(b) => Some((b, e)),
        },
    }
}

/// The first position at or after `i` starting `$$`, or the length.
pub open spec fn description_end(c: Seq<char>, i: int) -> int
    decreases c.len() - i,
{
    if 0 <= i < c.len() && !(c[i] == '$' && i + 1 < c.len() && c[i + 1] == '$') {
        description_end(c, i + 1)
    } else {
        i
    }
}

/// A description: the text between `$$` and `$$`.
pub open spec fn description_at(c: Seq<char>, pos: int) -> Option<(Seq<char>, int)> {
    if at(c, pos, '$') && at(c, pos + 1, '$') {
        let e = description_end(c, pos + 2);
        if e >= c.len() {
            None
        } else {
            Some((c.subrange(pos + 2, e), e + 2))
        }
    } else {
        None
    }
}

/// A condition as text gives it, with the bytes of a memory sequence as a
/// sequence.
pub enum ConditionView {
    Equal(Source, Source),
    GreaterOrEqual(Source, Source),
    StrictlyGreater(Source, Source),
    LesserOrEqual(Source, Source),
    StrictlyLesser(Source, Source),
    Different(Source, Source),
    Value(bool),
    And(Box<ConditionView>, Box<ConditionView>),
    Or(Box<ConditionView>, Box<ConditionView>),
    Not(Box<ConditionView>),
    MemorySequence(Source, Seq<u8>),
}

/// The view of a condition.
pub open spec fn condition_view(b: BooleanExpression) -> ConditionView
    decreases b,
{
    match b {
        BooleanExpression::Equal(x, y) => ConditionView::Equal(x, y),
        BooleanExpression::GreaterOrEqual(x, y) => ConditionView::GreaterOrEqual(x, y),
        BooleanExpression::StrictlyGreater(x, y) => ConditionView::StrictlyGreater(x, y),
        BooleanExpression::LesserOrEqual(x, y) => ConditionView::LesserOrEqual(x, y),
        BooleanExpression::StrictlyLesser(x, y) => ConditionView::StrictlyLesser(x, y),
        BooleanExpression::Different(x, y) => ConditionView::Different(x, y),
        BooleanExpression::Value(v) => ConditionView::Value(v),
        BooleanExpression::And(x, y) => ConditionView::And(
            Box::new(condition_view(*x)),
            Box::new(condition_view(*y)),
        ),
        BooleanExpression::Or(x, y) => ConditionView::Or(Box::new(condition_view(*x)), Box::new(condition_view(*y))),
        BooleanExpression::Not(x) => ConditionView::Not(Box::new(condition_view(*x))),
        BooleanExpression::MemorySequence(s, b) => ConditionView::MemorySequence(s, b@),
    }
}

/// What a condition reader returned, as a view.
pub open spec fn read_condition(r: AppResult<(BooleanExpression, usize)>) -> Option<(ConditionView, int)> {
    match r {
        Ok((x, e)) => Some((condition_view(x), e as int)),
        Err(_) => None,
    }
}

/// A comparison operator at `q`: `<=`, `>=`, `!=`, `=`, `<` or `>`.
pub open spec fn comparison_at(c: Seq<char>, q: int) -> Option<(u8, int)> {
    if at(c, q, '<') && at(c, q + 1, '=') {
        Some((4u8, q + 2))
    } else if at(c, q, '>') && at(c, q + 1, '=') {
        Some((1u8, q + 2))
    } else if at(c, q, '!') && at(c, q + 1, '=') {
        Some((5u8, q + 2))
    } else if at(c, q, '=') {
        Some((0u8, q + 1))
    } else if at(c, q, '<') {
        Some((3u8, q + 1))
    } else if at(c, q, '>') {
        Some((2u8, q + 1))
    } else {
        None
    }
}

/// The comparison of `l` and `r` by the operator numbered `op` (in the
/// order of `comparison_at`'s results).
pub open spec fn compared(op: u8, l: Source, r: Source) -> ConditionView {
    if op == 0 {
        ConditionView::Equal(l, r)
    } else if op == 1 {
        ConditionView::GreaterOrEqual(l, r)
    } else if op == 2 {
        ConditionView::StrictlyGreater(l, r)
    } else if op == 3 {
        ConditionView::StrictlyLesser(l, r)
    } else if op == 4 {
        ConditionView::LesserOrEqual(l, r)
    } else {
        ConditionView::Different(l, r)
    }
}

/// That the two bytes at `p` and `p + 1` hold `v`, low byte first.
pub open spec fn points_to_view(p: usize, v: usize) -> ConditionView {
    ConditionView::And(
        Box::new(ConditionView::Equal(Source::Memory(p), Source::Value(v % 256))),
        Box::new(ConditionView::Equal(Source::Memory((p + 1) as usize), Source::Value((v / 256) % 256))),
    )
}

pub proof fn lemma_blank_end(c: Seq<char>, i: int)
    requires
        0 <= i <= c.len(),
    ensures
        i <= blank_end(c, i) <= c.len(),
    decreases c.len() - i,
{
    if i < c.len() && is_blank(c[i]) {
        lemma_blank_end(c, i + 1);
    }
}

/// A factor that starts with an operand: a memory sequence (`location ~
/// 0x(..)` or `location ~ "..."`), a pointer (`location -> location`: the
/// two bytes at the first location hold the second, low byte first; the
/// first must be below the last address), or a comparison of two
/// operands.
pub open spec fn operand_factor_at(symbols: Option<Seq<SymbolEntry>>, c: Seq<char>, p: int) -> Option<(ConditionView, int)> {
    match operand_at(symbols, c, p, false) {
        None => None,
        Some((lhs, e)) => {
            let q = blank_end(c, e);
            if lhs is Memory && at(c, q, '~') {
                let r = blank_end(c, q + 1);
                match (if at(c, r, '"') {
                    string_bytes_at(c, r)
                } else {
                    byte_list_at(c, r)
                }) {
                    None => None,
                    Some((b, e2)) => Some((ConditionView::MemorySequence(lhs, b), e2)),
                }
            } else if lhs is Memory && at(c, q, '-') && at(c, q + 1, '>') {
                match location_at(symbols, c, blank_end(c, q + 2)) {
                    None => None,
                    Some((t, e2)) => if lhs->Memory_0 >= 0xffff {
                        None
                    } else {
                        Some((points_to_view(lhs->Memory_0, t), e2))
                    },
                }
            } else {
                match comparison_at(c, q) {
                    None => None,
                    Some((op, r)) => match operand_at(symbols, c, blank_end(c, r), true) {
                        None => None,
                        Some((rhs, e2)) => Some((compared(op, lhs, rhs), e2)),
                    },
                }
            }
        },
    }
}

/// A factor: `NOT` and a factor, a condition in brackets, `true`,
/// `false`, or a factor that starts with an operand. Keywords are read in
/// any case.
pub open spec fn factor_at(symbols: Option<Seq<SymbolEntry>>, c: Seq<char>, pos: int) -> Option<(ConditionView, int)>
    decreases c.len() - pos, 0int,
{
    if pos < 0 || pos > c.len() {
        None
    } else {
        let p = blank_end(c, pos);
        proof {
            lemma_blank_end(c, pos);
        }
        match keyword_at(c, p, seq!['n', 'o', 't']) {
            Some(q) => match factor_at(symbols, c, q) {
                Some((x, e)) => Some((ConditionView::Not(Box::new(x)), e)),
                None => None,
            },
            None => if at(c, p, '(') {
                match condition_at(symbols, c, p + 1) {
                    None => None,
                    Some((x, e)) => if at(c, blank_end(c, e), ')') {
                        Some((x, blank_end(c, e) + 1))
                    } else {
                        None
                    },
                }
            } else if keyword_at(c, p, seq!['t', 'r', 'u', 'e']) is Some {
                Some((ConditionView::Value(true), keyword_at(c, p, seq!['t', 'r', 'u', 'e'])->Some_0))
            } else if keyword_at(c, p, seq!['f', 'a', 'l', 's', 'e']) is Some {
                Some((ConditionView::Value(false), keyword_at(c, p, seq!['f', 'a', 'l', 's', 'e'])->Some_0))
            } else {
                operand_factor_at(symbols, c, p)
            },
        }
    }
}

/// Factors joined by `AND` after `acc`, which ends at `e`; left to right.
pub open spec fn and_chain(
    symbols: Option<Seq<SymbolEntry>>,
    c: Seq<char>,
    acc: ConditionView,
    e: int,
) -> Option<(ConditionView, int)>
    decreases c.len() - e, 1int,
{
    if e < 0 || e > c.len() {
        None
    } else {
        let p = blank_end(c, e);
        proof {
            lemma_blank_end(c, e);
        }
        match keyword_at(c, p, seq!['a', 'n', 'd']) {
            None => Some((acc, e)),
            Some(q) => match factor_at(symbols, c, q) {
                None => None,
                Some((right, e2)) => if e2 <= e || e2 > c.len() {
                    None
                } else {
                    and_chain(symbols, c, ConditionView::And(Box::new(acc), Box::new(right)), e2)
                },
            },
        }
    }
}

/// A term: factors joined by `AND`.
pub open spec fn conjunction_at(symbols: Option<Seq<SymbolEntry>>, c: Seq<char>, pos: int) -> Option<(ConditionView, int)>
    decreases c.len() - pos, 2int,
{
    match factor_at(symbols, c, pos) {
        None => None,
        Some((first, e)) => if e <= pos || e > c.len() {
            None
        } else {
            and_chain(symbols, c, first, e)
        },
    }
}

/// Terms joined by `OR` after `acc`, which ends at `e`; left to right.
pub open spec fn or_chain(
    symbols: Option<Seq<SymbolEntry>>,
    c: Seq<char>,
    acc: ConditionView,
    e: int,
) -> Option<(ConditionView, int)>
    decreases c.len() - e, 3int,
{
    if e < 0 || e > c.len() {
        None
    } else {
        let p = blank_end(c, e);
        proof {
            lemma_blank_end(c, e);
        }
        match keyword_at(c, p, seq!['o', 'r']) {
            None => Some((acc, e)),
            Some(q) => match conjunction_at(symbols, c, q) {
                None => None,
                Some((right, e2)) => if e2 <= e || e2 > c.len() {
                    None
                } else {
                    or_chain(symbols, c, ConditionView::Or(Box::new(acc), Box::new(right)), e2)
                },
            },
        }
    }
}

/// A condition: terms joined by `OR` (`AND` binds tighter, `NOT` tighter
/// still).
pub open spec fn condition_at(symbols: Option<Seq<SymbolEntry>>, c: Seq<char>, pos: int) -> Option<(ConditionView, int)>
    decreases c.len() - pos, 4int,
{
    match conjunction_at(symbols, c, pos) {
        None => None,
        Some((first, e)) => if e <= pos || e > c.len() {
            None
        } else {
            or_chain(symbols, c, first, e)
        },
    }
}

/// A whole condition given as text, blanks allowed around it.
pub open spec fn boolean_condition(symbols: Option<Seq<SymbolEntry>>, t: Seq<char>) -> Option<ConditionView> {
    if t.len() >= usize::MAX / 4 {
        None
    } else {
        match condition_at(symbols, t, 0) {
            Some((x, e)) => if blank_end(t, e) == t.len() {
                Some(x)
            } else {
                None
            },
            None => None,
        }
    }
}

/// A command as text gives it, with strings and byte lists as sequences.
pub enum CommandView {
    Nothing,
    Marker(Seq<char>),
    Assert { condition: ConditionView, comment: Seq<char> },
    Run { stop: ConditionView, go_on: ConditionView, start: Option<RunAddress> },
    RegistersFlush,
    RegistersAssign { source: Source, destination: RegisterSource },
    RegistersShow(Option<RegisterSource>),
    MemoryFlush,
    MemoryLoad { address: usize, filepath: Seq<char> },
    MemoryLoadTarget { target: LoadTarget, filepath: Seq<char> },
    MemoryWrite { address: usize, bytes: Seq<u8> },
    MemoryFill { start: usize, end: usize, value: u8 },
    MemoryShow { address: usize, length: usize, width: Option<usize>, description: Option<Seq<char>> },
    SymbolsLoadFile(Seq<char>),
    SymbolsAdd { name: Seq<char>, value: u16 },
    SymbolsRemove(Seq<char>),
    Disassemble { start: usize, end: usize },
    Enable(ControllableFunction),
    Disable(ControllableFunction),
    /// A command holding what was read from files; text never gives one.
    Loaded,
}

/// The view of a memory or symbol command.
pub open spec fn memory_view(m: MemoryCommand) -> CommandView {
    match m {
        MemoryCommand::Flush => CommandView::MemoryFlush,
        MemoryCommand::Load { address, filepath } => CommandView::MemoryLoad { address, filepath: filepath@ },
        MemoryCommand::LoadTarget { target, filepath } => CommandView::MemoryLoadTarget { target, filepath: filepath@ },
        MemoryCommand::Write { address, bytes } => CommandView::MemoryWrite { address, bytes: bytes@ },
        MemoryCommand::Fill { start, end, value } => CommandView::MemoryFill { start, end, value },
        MemoryCommand::Show { address, length, width, description } => CommandView::MemoryShow {
            address,
            length,
            width,
            description: match description {
                Some(d) => Some(d@),
                None => None,
            },
        },
        MemoryCommand::LoadSymbolsFile { filepath } => CommandView::SymbolsLoadFile(filepath@),
        MemoryCommand::AddSymbol { name, value } => CommandView::SymbolsAdd { name: name@, value },
        MemoryCommand::RemoveSymbol { name } => CommandView::SymbolsRemove(name@),
        MemoryCommand::LoadSegments { .. } | MemoryCommand::LoadSymbols { .. } => CommandView::Loaded,
    }
}

/// The view of a register command.
pub open spec fn registers_view(m: RegisterCommand) -> CommandView {
    match m {
        RegisterCommand::Flush => CommandView::RegistersFlush,
        RegisterCommand::Assign { assignment } => CommandView::RegistersAssign {
            source: assignment.source,
            destination: assignment.destination,
        },
        RegisterCommand::Show { register } => CommandView::RegistersShow(register),
    }
}

/// The view of a run command.
pub open spec fn run_view(r: RunCommand) -> CommandView {
    CommandView::Run {
        stop: condition_view(r.stop_condition),
        go_on: condition_view(r.continue_condition),
        start: r.start_address,
    }
}

/// The view of an assert command.
pub open spec fn assert_view(a: AssertCommand) -> CommandView {
    CommandView::Assert { condition: condition_view(a.condition), comment: a.comment@ }
}

/// The view of a command.
pub open spec fn command_view(cmd: CliCommand) -> CommandView {
    match cmd {
        CliCommand::Assert(a) => assert_view(a),
        CliCommand::Marker(d) => CommandView::Marker(d@),
        CliCommand::Memory(m) => memory_view(m),
        CliCommand::Nothing => CommandView::Nothing,
        CliCommand::Registers(m) => registers_view(m),
        CliCommand::Run(r) => run_view(r),
        CliCommand::Disassemble { start, end } => CommandView::Disassemble { start, end },
        CliCommand::Enable(f) => CommandView::Enable(f),
        CliCommand::Disable(f) => CommandView::Disable(f),
    }
}

/// Whether a comment starts at `i`: `;` or `//`.
pub open spec fn comment_at(c: Seq<char>, i: int) -> bool {
    at(c, i, ';') || (at(c, i, '/') && at(c, i + 1, '/'))
}

/// A file path between double quotes, after blanks; backslashes are kept.
pub open spec fn path_at(c: Seq<char>, pos: int) -> Option<(Seq<char>, int)> {
    quoted_at(c, blank_end(c, pos), true)
}

/// After `memory write ADDRESS`: the bytes of a string, the two bytes of
/// a location (low byte first), or a byte list.
pub open spec fn write_at(symbols: Option<Seq<SymbolEntry>>, c: Seq<char>, address: usize, e: int) -> Option<(CommandView, int)> {
    let r = blank_end(c, e);
    if at(c, r, '"') {
        match string_bytes_at(c, r) {
            None => None,
            Some((b, e2)) => Some((CommandView::MemoryWrite { address, bytes: b }, e2)),
        }
    } else if at(c, r, '#') || at(c, r, '$') {
        match location_at(symbols, c, r) {
            None => None,
            Some((t, e2)) => Some(
                (CommandView::MemoryWrite { address, bytes: seq![(t % 256) as u8, (t / 256) as u8] }, e2),
            ),
        }
    } else {
        match byte_list_at(c, r) {
            None => None,
            Some((b, e2)) => Some((CommandView::MemoryWrite { address, bytes: b }, e2)),
        }
    }
}

/// After `memory load`: `atari` or `apple` and a path, or an address and
/// a path.
pub open spec fn load_at(symbols: Option<Seq<SymbolEntry>>, c: Seq<char>, pos: int) -> Option<(CommandView, int)> {
    let q = blank_end(c, pos);
    if keyword_at(c, q, "atari"@) is Some {
        match path_at(c, keyword_at(c, q, "atari"@)->Some_0) {
            None => None,
            Some((f, e)) => Some((CommandView::MemoryLoadTarget { target: LoadTarget::Atari, filepath: f }, e)),
        }
    } else if keyword_at(c, q, "apple"@) is Some {
        match path_at(c, keyword_at(c, q, "apple"@)->Some_0) {
            None => None,
            Some((f, e)) => Some((CommandView::MemoryLoadTarget { target: LoadTarget::Apple, filepath: f }, e)),
        }
    } else {
        match address_at(symbols, c, q) {
            None => None,
            Some((a, e)) => match path_at(c, e) {
                None => None,
                Some((f, e2)) => Some((CommandView::MemoryLoad { address: a, filepath: f }, e2)),
            },
        }
    }
}

/// After `memory fill`: two locations around `~`, then an optional byte
/// value (zero when left out).
pub open spec fn fill_at(symbols: Option<Seq<SymbolEntry>>, c: Seq<char>, pos: int) -> Option<(CommandView, int)> {
    match location_at(symbols, c, blank_end(c, pos)) {
        None => None,
        Some((start, e)) => {
            let r = blank_end(c, e);
            if !at(c, r, '~') {
                None
            } else {
                match location_at(symbols, c, blank_end(c, r + 1)) {
                    None => None,
                    Some((end, e2)) => {
                        let r3 = blank_end(c, e2);
                        if r3 < c.len() && !comment_at(c, r3) {
                            match number_at(c, r3, 0xff) {
                                None => None,
                                Some((v, e3)) => Some((CommandView::MemoryFill { start, end, value: v as u8 }, e3)),
                            }
                        } else {
                            Some((CommandView::MemoryFill { start, end, value: 0 }, e2))
                        }
                    },
                }
            }
        },
    }
}

/// An optional description after blanks from `end`.
pub open spec fn optional_description(c: Seq<char>, end: int) -> Option<(Option<Seq<char>>, int)> {
    if at(c, blank_end(c, end), '$') {
        match description_at(c, blank_end(c, end)) {
            None => None,
            Some((d, e)) => Some((Some(d), e)),
        }
    } else {
        Some((None, end))
    }
}

/// After `memory show`: a location, a length, an optional width and an
/// optional description.
pub open spec fn show_at(symbols: Option<Seq<SymbolEntry>>, c: Seq<char>, pos: int) -> Option<(CommandView, int)> {
    match location_at(symbols, c, blank_end(c, pos)) {
        None => None,
        Some((address, e)) => match number_at(c, blank_end(c, e), 0xffff) {
            None => None,
            Some((length, e2)) => {
                let r2 = blank_end(c, e2);
                let width = if r2 < c.len() && c[r2] != '$' && !comment_at(c, r2) {
                    match number_at(c, r2, 0xff) {
                        None => None,
                        Some((w, e3)) => Some((Some(w), e3)),
                    }
                } else {
                    Some((None, e2))
                };
                match width {
                    None => None,
                    Some((w, end)) => match optional_description(c, end) {
                        None => None,
                        Some((d, e4)) => Some(
                            (CommandView::MemoryShow { address, length, width: w, description: d }, e4),
                        ),
                    },
                }
            },
        },
    }
}

/// What follows `memory`: `flush`, `write`, `load`, `fill` or `show`.
pub open spec fn memory_at(symbols: Option<Seq<SymbolEntry>>, c: Seq<char>, pos: int) -> Option<(CommandView, int)> {
    let p = blank_end(c, pos);
    if keyword_at(c, p, "flush"@) is Some {
        Some((CommandView::MemoryFlush, keyword_at(c, p, "flush"@)->Some_0))
    } else if keyword_at(c, p, "write"@) is Some {
        match address_at(symbols, c, blank_end(c, keyword_at(c, p, "write"@)->Some_0)) {
            None => None,
            Some((address, e)) => write_at(symbols, c, address, e),
        }
    } else if keyword_at(c, p, "load"@) is Some {
        load_at(symbols, c, keyword_at(c, p, "load"@)->Some_0)
    } else if keyword_at(c, p, "fill"@) is Some {
        fill_at(symbols, c, keyword_at(c, p, "fill"@)->Some_0)
    } else if keyword_at(c, p, "show"@) is Some {
        show_at(symbols, c, keyword_at(c, p, "show"@)->Some_0)
    } else {
        None
    }
}

/// What follows `symbols`: `load` and a path, `add name=value` (a number
/// or `$name`), or `remove name`.
pub open spec fn symbols_at(symbols: Option<Seq<SymbolEntry>>, c: Seq<char>, pos: int) -> Option<(CommandView, int)> {
    let p = blank_end(c, pos);
    if keyword_at(c, p, "load"@) is Some {
        match path_at(c, keyword_at(c, p, "load"@)->Some_0) {
            None => None,
            Some((f, e)) => Some((CommandView::SymbolsLoadFile(f), e)),
        }
    } else if keyword_at(c, p, "add"@) is Some {
        let q = blank_end(c, keyword_at(c, p, "add"@)->Some_0);
        let n = name_run(c, q);
        let r = blank_end(c, n);
        if n == q || !at(c, r, '=') {
            None
        } else {
            let r2 = blank_end(c, r + 1);
            match (if at(c, r2, '$') {
                address_at(symbols, c, r2)
            } else {
                number_at(c, r2, 0xffff)
            }) {
                None => None,
                Some((v, e)) => Some((CommandView::SymbolsAdd { name: c.subrange(q, n), value: v as u16 }, e)),
            }
        }
    } else if keyword_at(c, p, "remove"@) is Some {
        let q = blank_end(c, keyword_at(c, p, "remove"@)->Some_0);
        let n = name_run(c, q);
        if n == q {
            None
        } else {
            Some((CommandView::SymbolsRemove(c.subrange(q, n)), n))
        }
    } else {
        None
    }
}

/// After `registers set`: a register, `=`, and a register or a value; a
/// value over 255 for an 8 bit register does not fit.
pub open spec fn assign_at(symbols: Option<Seq<SymbolEntry>>, c: Seq<char>, pos: int) -> Option<(CommandView, int)> {
    match register_at(c, blank_end(c, pos)) {
        None => None,
        Some((destination, e)) => {
            let max: nat = if destination is CommandPointer || destination is CycleCount {
                0xffff
            } else {
                0xff
            };
            let r = blank_end(c, e);
            if !at(c, r, '=') {
                None
            } else {
                let r2 = blank_end(c, r + 1);
                match register_at(c, r2) {
                    Some((rs, e2)) => Some(
                        (CommandView::RegistersAssign { source: Source::Register(rs), destination }, e2),
                    ),
                    None => match (if at(c, r2, '$') || at(c, r2, '#') {
                        match address_at(symbols, c, r2) {
                            Some((v, e2)) => if v > max {
                                None
                            } else {
                                Some((v, e2))
                            },
                            None => None,
                        }
                    } else {
                        number_at(c, r2, max)
                    }) {
                        None => None,
                        Some((v, e2)) => Some(
                            (CommandView::RegistersAssign { source: Source::Value(v), destination }, e2),
                        ),
                    },
                }
            }
        },
    }
}

/// What follows `registers`: `flush`, `show` and an optional register, or
/// `set`.
pub open spec fn registers_at(symbols: Option<Seq<SymbolEntry>>, c: Seq<char>, pos: int) -> Option<(CommandView, int)> {
    let p = blank_end(c, pos);
    if keyword_at(c, p, "flush"@) is Some {
        Some((CommandView::RegistersFlush, keyword_at(c, p, "flush"@)->Some_0))
    } else if keyword_at(c, p, "show"@) is Some {
        let q = keyword_at(c, p, "show"@)->Some_0;
        match register_at(c, blank_end(c, q)) {
            Some((rs, e)) => Some((CommandView::RegistersShow(Some(rs)), e)),
            None => Some((CommandView::RegistersShow(None), q)),
        }
    } else if keyword_at(c, p, "set"@) is Some {
        assign_at(symbols, c, keyword_at(c, p, "set"@)->Some_0)
    } else {
        None
    }
}

/// The optional start of a run: `init` or an address.
pub open spec fn run_start_at(symbols: Option<Seq<SymbolEntry>>, c: Seq<char>, pos: int) -> Option<(Option<RunAddress>, int)> {
    let p = blank_end(c, pos);
    if keyword_at(c, p, "init"@) is Some {
        Some((Some(RunAddress::InitVector), keyword_at(c, p, "init"@)->Some_0))
    } else if at(c, p, '#') || at(c, p, '$') {
        match address_at(symbols, c, p) {
            None => None,
            Some((a, e)) => Some((Some(RunAddress::Memory(a)), e)),
        }
    } else {
        Some((None, pos))
    }
}

/// What follows `run`: an optional start, then `until` and a condition to
/// stop at, `while` and a condition to go on with, or neither (one
/// instruction).
pub open spec fn run_at(symbols: Option<Seq<SymbolEntry>>, c: Seq<char>, pos: int) -> Option<(CommandView, int)> {
    match run_start_at(symbols, c, pos) {
        None => None,
        Some((start, e)) => {
            let p = blank_end(c, e);
            if keyword_at(c, p, "until"@) is Some {
                match condition_at(symbols, c, keyword_at(c, p, "until"@)->Some_0) {
                    None => None,
                    Some((x, e2)) => Some(
                        (CommandView::Run { stop: x, go_on: ConditionView::Value(true), start }, e2),
                    ),
                }
            } else if keyword_at(c, p, "while"@) is Some {
                match condition_at(symbols, c, keyword_at(c, p, "while"@)->Some_0) {
                    None => None,
                    Some((x, e2)) => Some(
                        (CommandView::Run { stop: ConditionView::Value(false), go_on: x, start }, e2),
                    ),
                }
            } else {
                Some(
                    (
                        CommandView::Run {
                            stop: ConditionView::Value(true),
                            go_on: ConditionView::Value(true),
                            start,
                        },
                        e,
                    ),
                )
            }
        },
    }
}

/// What follows `assert`: a condition, then its description.
pub open spec fn assert_at(symbols: Option<Seq<SymbolEntry>>, c: Seq<char>, pos: int) -> Option<(CommandView, int)> {
    match condition_at(symbols, c, pos) {
        None => None,
        Some((x, e)) => match description_at(c, blank_end(c, e)) {
            None => None,
            Some((d, e2)) => Some((CommandView::Assert { condition: x, comment: d }, e2)),
        },
    }
}

/// A feature name after blanks: `trace_logging`.
pub open spec fn function_at(c: Seq<char>, pos: int) -> Option<(ControllableFunction, int)> {
    let q = blank_end(c, pos);
    if c.subrange(q, name_run(c, q)) == "trace_logging"@ {
        Some((ControllableFunction::TraceLogging, name_run(c, q)))
    } else {
        None
    }
}

/// After `disassemble`: an address and a hexadecimal length, not zero; the
/// instructions from the address to the address plus the length minus one.
pub open spec fn disassemble_at(symbols: Option<Seq<SymbolEntry>>, c: Seq<char>, pos: int) -> Option<(CommandView, int)> {
    match address_at(symbols, c, blank_end(c, pos)) {
        None => None,
        Some((start, e)) => {
            let r = blank_end(c, e);
            if !(at(c, r, '0') && (at(c, r + 1, 'x') || at(c, r + 1, 'X'))) {
                None
            } else {
                match number_at(c, r, 0xffff) {
                    None => None,
                    Some((length, e2)) => if length == 0 {
                        None
                    } else {
                        Some((CommandView::Disassemble { start, end: (start + length - 1) as usize }, e2))
                    },
                }
            }
        },
    }
}

/// Whether what follows `disassemble` at `pos` is a start address and a
/// hexadecimal length of zero.
pub open spec fn zero_length_after(symbols: Option<Seq<SymbolEntry>>, c: Seq<char>, pos: int) -> bool {
    match address_at(symbols, c, blank_end(c, pos)) {
        None => false,
        Some((_, e)) => {
            let r = blank_end(c, e);
            &&& at(c, r, '0')
            &&& (at(c, r + 1, 'x') || at(c, r + 1, 'X'))
            &&& number_at(c, r, 0xffff) matches Some((length, _))
            &&& length == 0
        },
    }
}

/// Whether the command at `p` is a disassembly of length zero.
pub open spec fn zero_length_command(symbols: Option<Seq<SymbolEntry>>, c: Seq<char>, p: int) -> bool {
    &&& keyword_at(c, p, "marker"@) is None
    &&& keyword_at(c, p, "assert"@) is None
    &&& keyword_at(c, p, "run"@) is None
    &&& keyword_at(c, p, "registers"@) is None
    &&& keyword_at(c, p, "memory"@) is None
    &&& keyword_at(c, p, "symbols"@) is None
    &&& keyword_at(c, p, "disassemble"@) matches Some(q)
    &&& zero_length_after(symbols, c, q)
}

/// Whether `line` asks to disassemble zero bytes.
pub open spec fn zero_length_line(symbols: Option<Seq<SymbolEntry>>, line: Seq<char>) -> bool {
    let p = blank_end(line, 0);
    &&& !(p == line.len() || comment_at(line, p))
    &&& line.len() < usize::MAX / 4
    &&& zero_length_command(symbols, line, p)
}

/// The message for text that does not fit the grammar: it quotes the text
/// and says what was expected.
pub open spec fn syntax_message(text: Seq<char>, what: Seq<char>) -> Seq<char> {
    "cannot parse '"@ + text + "': syntax error: expected "@ + what
}

/// Whether `line` holds something other than a command: it is neither
/// blank nor a comment, and its first word is no command keyword.
pub open spec fn unknown_command_line(line: Seq<char>) -> bool {
    let p = blank_end(line, 0);
    &&& !(p == line.len() || comment_at(line, p))
    &&& line.len() < usize::MAX / 4
    &&& keyword_at(line, p, "marker"@) is None
    &&& keyword_at(line, p, "assert"@) is None
    &&& keyword_at(line, p, "run"@) is None
    &&& keyword_at(line, p, "registers"@) is None
    &&& keyword_at(line, p, "memory"@) is None
    &&& keyword_at(line, p, "symbols"@) is None
    &&& keyword_at(line, p, "disassemble"@) is None
    &&& keyword_at(line, p, "enable"@) is None
    &&& keyword_at(line, p, "disable"@) is None
}

/// Whether `line` holds a command but is too long to be read.
pub open spec fn overlong_line(line: Seq<char>) -> bool {
    let p = blank_end(line, 0);
    !(p == line.len() || comment_at(line, p)) && line.len() >= usize::MAX / 4
}

/// Whether `line` holds a command followed by more than a comment.
pub open spec fn trailing_text_line(symbols: Option<Seq<SymbolEntry>>, line: Seq<char>) -> bool {
    let p = blank_end(line, 0);
    &&& !(p == line.len() || comment_at(line, p))
    &&& line.len() < usize::MAX / 4
    &&& command_at(symbols, line, p) matches Some((_, e))
    &&& blank_end(line, e) < line.len()
    &&& !comment_at(line, blank_end(line, e))
}

/// The message a line that cannot be read is refused with, where it is
/// settled by the line alone: a line too long, one whose first word is no
/// command, a disassembly of zero bytes, or a command followed by more
/// than a comment.
pub open spec fn line_error(symbols: Option<Seq<SymbolEntry>>, line: Seq<char>) -> Option<Seq<char>> {
    if overlong_line(line) {
        Some(syntax_message(line, "a shorter line"@))
    } else if unknown_command_line(line) {
        Some(syntax_message(line, "a command"@))
    } else if zero_length_line(symbols, line) {
        Some(zero_length_message())
    } else if trailing_text_line(symbols, line) {
        Some(syntax_message(line, "the end of the line"@))
    } else {
        None
    }
}

/// The message for a disassembly of length zero.
pub open spec fn zero_length_message() -> Seq<char> {
    "Length must be greater than 0"@
}

/// A command at `p`, named by its first keyword (in any case).
pub open spec fn command_at(symbols: Option<Seq<SymbolEntry>>, c: Seq<char>, p: int) -> Option<(CommandView, int)> {
    if keyword_at(c, p, "marker"@) is Some {
        match description_at(c, blank_end(c, keyword_at(c, p, "marker"@)->Some_0)) {
            None => None,
            Some((d, e)) => Some((CommandView::Marker(d), e)),
        }
    } else if keyword_at(c, p, "assert"@) is Some {
        assert_at(symbols, c, keyword_at(c, p, "assert"@)->Some_0)
    } else if keyword_at(c, p, "run"@) is Some {
        run_at(symbols, c, keyword_at(c, p, "run"@)->Some_0)
    } else if keyword_at(c, p, "registers"@) is Some {
        registers_at(symbols, c, keyword_at(c, p, "registers"@)->Some_0)
    } else if keyword_at(c, p, "memory"@) is Some {
        memory_at(symbols, c, keyword_at(c, p, "memory"@)->Some_0)
    } else if keyword_at(c, p, "symbols"@) is Some {
        symbols_at(symbols, c, keyword_at(c, p, "symbols"@)->Some_0)
    } else if keyword_at(c, p, "disassemble"@) is Some {
        disassemble_at(symbols, c, keyword_at(c, p, "disassemble"@)->Some_0)
    } else if keyword_at(c, p, "enable"@) is Some {
        match function_at(c, keyword_at(c, p, "enable"@)->Some_0) {
            None => None,
            Some((f, e)) => Some((CommandView::Enable(f), e)),
        }
    } else if keyword_at(c, p, "disable"@) is Some {
        match function_at(c, keyword_at(c, p, "disable"@)->Some_0) {
            None => None,
            Some((f, e)) => Some((CommandView::Disable(f), e)),
        }
    } else {
        None
    }
}

/// The command of a line: nothing for a blank line or a comment, else a
/// command followed only by blanks and maybe a comment.
pub open spec fn line_command(symbols: Option<Seq<SymbolEntry>>, line: Seq<char>) -> Option<CommandView> {
    let p = blank_end(line, 0);
    if p == line.len() || comment_at(line, p) {
        Some(CommandView::Nothing)
    } else if line.len() >= usize::MAX / 4 {
        None
    } else {
        match command_at(symbols, line, p) {
            None => None,
            Some((cmd, e)) => if blank_end(line, e) < line.len() && !comment_at(line, blank_end(line, e)) {
                None
            } else {
                Some(cmd)
            },
        }
    }
}

/// What a memory or symbol command reader returned, as a view.
pub open spec fn read_memory(r: AppResult<(MemoryCommand, usize)>) -> Option<(CommandView, int)> {
    match r {
        Ok((m, e)) => Some((memory_view(m), e as int)),
        Err(_) => None,
    }
}

/// What a register command reader returned, as a view.
pub open spec fn read_registers(r: AppResult<(RegisterCommand, usize)>) -> Option<(CommandView, int)> {
    match r {
        Ok((m, e)) => Some((registers_view(m), e as int)),
        Err(_) => None,
    }
}

/// What a run command reader returned, as a view.
pub open spec fn read_run(r: AppResult<(RunCommand, usize)>) -> Option<(CommandView, int)> {
    match r {
        Ok((m, e)) => Some((run_view(m), e as int)),
        Err(_) => None,
    }
}

/// What an assert command reader returned, as a view.
pub open spec fn read_assert(r: AppResult<(AssertCommand, usize)>) -> Option<(CommandView, int)> {
    match r {
        Ok((m, e)) => Some((assert_view(m), e as int)),
        Err(_) => None,
    }
}

/// What a command reader returned, as a view.
pub open spec fn read_command(r: AppResult<(CliCommand, usize)>) -> Option<(CommandView, int)> {
    match r {
        Ok((m, e)) => Some((command_view(m), e as int)),
        Err(_) => None,
    }
}

} // verus!
