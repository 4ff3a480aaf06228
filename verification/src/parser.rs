//! Reading the lines of a test script into commands.
use crate::commands::{
    AssertCommand, CliCommand, ControllableFunction, LoadTarget, MemoryCommand, RegisterCommand, RunAddress,
    RunCommand,
};
use crate::error::{AppError, AppResult};
use crate::lexer::{
    all_hex, ascii_chars, be_value, bin_run_value, dec_run_value, char_at, chars_of_str, even_digits, hex_pairs, hex_run_end, hex_run_value, is_blank,
    hex_failure_text, keyword, name_end, parse_hex, parse_hex_to_bytes, parse_string_literal, skip_blank,
    slice_string, };
use crate::grammar::{
    entries, zero_length_after, zero_length_command, zero_length_line, zero_length_message, syntax_message,
    unknown_command_line, trailing_text_line, keyword_at, overlong_line, line_error,
    ConditionView,
    address_at, bin_run, byte_list_at, char_end, dec_run, description_at, description_end, hex_sequence, location_at,
    number_at, operand_at, quote_scan, quoted_at, read, register_at, string_bytes_at, and_chain, condition_at,
    condition_view, conjunction_at, factor_at, operand_factor_at, or_chain, read_condition, fill_at, load_at,
    memory_at, optional_description, read_memory, show_at, write_at, path_at, comment_at, symbols_at,
    assign_at, read_registers, registers_at, read_run, run_at, run_start_at, read_assert, assert_at, boolean_condition,
    command_at, command_view, disassemble_at, function_at, line_command, read_command,
};
use crate::symbols::{lookup, SymbolTable};
use crate::text::{push_chars, push_str, string_of};
use crate::until_condition::{Assignment, BooleanExpression, RegisterSource, Source};
use vstd::prelude::*;

verus! {

/// Whether a source reads memory only inside the 64 KiB address space.
pub open spec fn source_ok(s: Source) -> bool {
    match s {
        Source::Memory(a) => a < 0x10000,
        _ => true,
    }
}

/// Whether every memory address in a condition is inside the address
/// space.
pub open spec fn expr_ok(e: BooleanExpression) -> bool
    decreases e,
{
    match e {
        BooleanExpression::Equal(a, b) | BooleanExpression::GreaterOrEqual(a, b)
        | BooleanExpression::StrictlyGreater(a, b) | BooleanExpression::LesserOrEqual(a, b)
        | BooleanExpression::StrictlyLesser(a, b) | BooleanExpression::Different(a, b) => source_ok(a) && source_ok(b),
        BooleanExpression::Value(_) => true,
        BooleanExpression::MemorySequence(s, _) => s matches Source::Memory(a) && a < 0x10000,
        BooleanExpression::And(x, y) | BooleanExpression::Or(x, y) => expr_ok(*x) && expr_ok(*y),
        BooleanExpression::Not(x) => expr_ok(*x),
    }
}

/// The symbols a parser resolves names with.
pub struct ParserContext<'a> {
    symbols: Option<&'a SymbolTable>,
}

impl<'a> ParserContext<'a> {
    /// A context resolving names with `symbols`, if given.
    pub fn new(symbols: Option<&'a SymbolTable>) -> (c: ParserContext<'a>)
        ensures
            c.symbols() == symbols,
    {
        ParserContext { symbols }
    }

    /// The symbols of the context.
    pub closed spec fn symbols(&self) -> Option<&'a SymbolTable> {
        self.symbols
    }

    /// The address of symbol `name`; an error when the name is unknown or
    /// there is no table.
    pub fn symbol_address(&self, name: &str) -> (r: AppResult<usize>)
        ensures
            match self.symbols() {
                Some(t) => match lookup(t@, name@) {
                    Some(a) => r == Ok::<usize, AppError>(a as usize),
                    None => r is Err,
                },
                None => r is Err,
            },
    {
        match self.symbols {
            Some(t) => match t.get_address(name) {
                Some(a) => Ok(a as usize),
                None => {
                    let mut s = String::new();
                    push_str(&mut s, "Symbol '");
                    push_str(&mut s, name);
                    push_str(&mut s, "' not found");
                    Err(AppError::new(s))
                },
            },
            None => {
                let mut s = String::new();
                push_str(&mut s, "Symbol table not available for resolving '");
                push_str(&mut s, name);
                push_str(&mut s, "'");
                Err(AppError::new(s))
            },
        }
    }

    /// The number written in hexadecimal in `hex_str`.
    pub fn parse_hex(&self, hex_str: &str) -> (r: AppResult<usize>)
        ensures
            r is Ok <==> (hex_str@.len() > 0 && all_hex(hex_str@)),
            r matches Ok(v) ==> be_value(hex_pairs(even_digits(hex_str@))) <= usize::MAX ==> v == be_value(
                hex_pairs(even_digits(hex_str@)),
            ),
            r matches Ok(v) ==> hex_str@.len() <= 4 ==> v == hex_run_value(hex_str@),
    {
        parse_hex(hex_str)
    }

    /// The bytes written in hexadecimal in `hex_str`.
    pub fn parse_hex_to_bytes(&self, hex_str: &str) -> (r: AppResult<Vec<u8>>)
        ensures
            r is Ok <==> (hex_str@.len() > 0 && all_hex(hex_str@)),
            r matches Ok(v) ==> v@ == hex_pairs(even_digits(hex_str@)),
            hex_str@.len() == 0 ==> (r matches Err(e) && e.message@ == "Empty string is not a valid Hexadecimal."@),
            hex_str@.len() > 0 && ascii_chars(hex_str@) ==> (r matches Err(e) ==> e.message@
                == "Failed to parse hex value '"@ + even_digits(hex_str@) + "': "@ + hex_failure_text(
                even_digits(hex_str@),
            )),
    {
        parse_hex_to_bytes(hex_str)
    }

    /// The bytes of a comma separated list of hexadecimal numbers (see
    /// `hex_sequence`).
    pub fn parse_hex_sequence(&self, sequence: &str) -> (r: AppResult<Vec<u8>>)
        ensures
            match hex_sequence(sequence@) {
                Some(b) => r matches Ok(v) && v@ == b,
                None => r is Err,
            },
    {
        let c = chars_of_str(sequence);
        let mut out: Vec<u8> = Vec::new();
        let mut start: usize = 0;
        let mut i: usize = 0;
        let ghost mut done: Seq<Seq<char>> = seq![];
        while i <= c.len()
            invariant
                c@ == sequence@,
                start <= i,
                i <= c@.len(),
                start <= c@.len(),
                out@.len() == done.len(),
                items(sequence@) == done + items_from(c@, start as nat),
                forall|k: int| start <= k < i && k < c@.len() ==> c@[k] != ',',
                forall|k: int|
                    0 <= k < out@.len() ==> #[trigger] out@[k] == hex_pairs(even_digits(trim(done[k])))[0],
                forall|k: int| 0 <= k < done.len() ==> #[trigger] trim(done[k]).len() > 0 && all_hex(trim(done[k])),
            decreases c@.len() + 1 - i,
        {
            if i == c.len() || c[i] == ',' {
                proof {
                    lemma_items_from_split(c@, start as nat, i as nat);
                }
                let (a, b) = trim_bounds(&c, start, i);
                let item = slice_string(&c, a, b);
                let ghost w = c@.subrange(start as int, i as int);
                let bytes = match parse_hex_to_bytes(item.as_str()) {
                    Ok(bytes) => bytes,
                    Err(e) => {
                        proof {
                            let all = items(sequence@);
                            assert(all[done.len() as int] == w);
                            assert(!(trim(all[done.len() as int]).len() > 0 && all_hex(trim(all[done.len() as int]))));
                        }
                        return Err(e);
                    },
                };
                proof {
                    assert(item@ == trim(w));
                    lemma_hex_pairs_nonempty(item@);
                }
                out.push(bytes[0]);
                proof {
                    if i < c@.len() {
                        assert(done + items_from(c@, start as nat) =~= done.push(w) + items_from(c@, (i + 1) as nat));
                    } else {
                        assert(done + items_from(c@, start as nat) =~= done.push(w));
                        assert(items_from(c@, (i + 1) as nat) =~= Seq::<Seq<char>>::empty());
                    }
                    done = done.push(w);
                }
                if i == c.len() {
                    proof {
                        let all = items(sequence@);
                        assert(all =~= done);
                        assert(out@ =~= all.map_values(|t: Seq<char>| hex_pairs(even_digits(trim(t)))[0]));
                    }
                    return Ok(out);
                }
                start = i + 1;
            }
            i = i + 1;
        }
        Ok(out)
    }
}

/// `s` without the blanks at its two ends.
pub open spec fn trim(s: Seq<char>) -> Seq<char>
    decreases s.len(),
{
    if s.len() > 0 && is_blank(s[0]) {
        trim(s.drop_first())
    } else if s.len() > 0 && is_blank(s.last()) {
        trim(s.drop_last())
    } else {
        s
    }
}

/// The comma separated items of `s` from `start` on.
pub open spec fn items_from(s: Seq<char>, start: nat) -> Seq<Seq<char>>
    decreases s.len() + 1 - start,
{
    if start > s.len() {
        seq![]
    } else {
        let e = comma_end(s, start);
        proof {
            lemma_comma_end(s, start);
        }
        seq![s.subrange(start as int, e as int)] + items_from(s, e + 1)
    }
}

/// The comma separated items of `s` (one for the empty string).
pub open spec fn items(s: Seq<char>) -> Seq<Seq<char>> {
    items_from(s, 0)
}

/// First position at or after `i` holding a comma, or the length of `s`.
pub open spec fn comma_end(s: Seq<char>, i: nat) -> nat
    decreases s.len() - i,
{
    if i >= s.len() || s[i as int] == ',' {
        i
    } else {
        comma_end(s, i + 1)
    }
}

pub proof fn lemma_comma_end(s: Seq<char>, i: nat)
    requires
        i <= s.len(),
    ensures
        i <= comma_end(s, i) <= s.len(),
    decreases s.len() - i,
{
    if !(i >= s.len() || s[i as int] == ',') {
        lemma_comma_end(s, i + 1);
    }
}

proof fn lemma_comma_end_at(s: Seq<char>, i: nat, j: nat)
    requires
        i <= j <= s.len(),
        forall|k: int| i <= k < j ==> s[k] != ',',
        j == s.len() || s[j as int] == ',',
    ensures
        comma_end(s, i) == j,
    decreases j - i,
{
    if i < j {
        lemma_comma_end_at(s, i + 1, j);
    }
}

proof fn lemma_items_from_split(s: Seq<char>, start: nat, i: nat)
    requires
        start <= i <= s.len(),
        forall|k: int| start <= k < i ==> s[k] != ',',
        i == s.len() || s[i as int] == ',',
    ensures
        items_from(s, start) == seq![s.subrange(start as int, i as int)] + items_from(s, i + 1),
{
    lemma_comma_end_at(s, start, i);
}

proof fn lemma_hex_pairs_nonempty(s: Seq<char>)
    requires
        s.len() > 0,
    ensures
        hex_pairs(even_digits(s)).len() > 0,
{
}

/// Bounds of `c[a..b]` without its blanks at both ends.
fn trim_bounds(c: &Vec<char>, a: usize, b: usize) -> (r: (usize, usize))
    requires
        a <= b <= c@.len(),
    ensures
        a <= r.0 <= r.1 <= b,
        c@.subrange(r.0 as int, r.1 as int) == trim(c@.subrange(a as int, b as int)),
{
    let mut x = a;
    let mut y = b;
    while x < y && (c[x] == ' ' || c[x] == '\t' || c[x] == '\r' || c[x] == '\n')
        invariant
            a <= x <= y <= b <= c@.len(),
            trim(c@.subrange(x as int, y as int)) == trim(c@.subrange(a as int, b as int)),
        decreases y - x,
    {
        assert(c@.subrange(x as int, y as int).drop_first() =~= c@.subrange(x + 1, y as int));
        x = x + 1;
    }
    while x < y && (c[y - 1] == ' ' || c[y - 1] == '\t' || c[y - 1] == '\r' || c[y - 1] == '\n')
        invariant
            a <= x <= y <= b <= c@.len(),
            x < y ==> !is_blank(c@[x as int]),
            trim(c@.subrange(x as int, y as int)) == trim(c@.subrange(a as int, b as int)),
        decreases y - x,
    {
        assert(c@.subrange(x as int, y as int).drop_last() =~= c@.subrange(x as int, y - 1));
        y = y - 1;
    }
    proof {
        let t = c@.subrange(x as int, y as int);
        if t.len() > 0 {
            assert(!is_blank(t[0]));
            assert(!is_blank(t.last()));
        }
    }
    (x, y)
}

/// The error for the text `c` where it does not fit the grammar: it
/// quotes the text and says what was expected.
fn syntax_error(c: &Vec<char>, what: &str) -> (e: AppError)
    ensures
        e.message@ == syntax_message(c@, what@),
{
    let mut s = String::new();
    push_str(&mut s, "cannot parse '");
    push_chars(&mut s, c);
    push_str(&mut s, "': syntax error: expected ");
    push_str(&mut s, what);
    AppError::new(s)
}

/// End of the run of decimal digits from `pos`.
fn dec_run_end(c: &Vec<char>, pos: usize) -> (e: usize)
    requires
        pos <= c@.len(),
    ensures
        pos <= e <= c@.len(),
        forall|k: int| pos <= k < e ==> '0' <= #[trigger] c@[k] <= '9',
        e < c@.len() ==> !('0' <= c@[e as int] <= '9'),
        e == dec_run(c@, pos as int),
{
    let mut e = pos;
    while e < c.len() && '0' <= c[e] && c[e] <= '9'
        invariant
            pos <= e <= c@.len(),
            forall|k: int| pos <= k < e ==> '0' <= #[trigger] c@[k] <= '9',
            dec_run(c@, pos as int) == dec_run(c@, e as int),
        decreases c@.len() - e,
    {
        e = e + 1;
    }
    e
}

/// End of the run of binary digits from `pos`.
fn bin_run_end(c: &Vec<char>, pos: usize) -> (e: usize)
    requires
        pos <= c@.len(),
    ensures
        pos <= e <= c@.len(),
        forall|k: int| pos <= k < e ==> (#[trigger] c@[k] == '0' || c@[k] == '1'),
        e == bin_run(c@, pos as int),
{
    let mut e = pos;
    while e < c.len() && (c[e] == '0' || c[e] == '1')
        invariant
            pos <= e <= c@.len(),
            forall|k: int| pos <= k < e ==> (#[trigger] c@[k] == '0' || c@[k] == '1'),
            bin_run(c@, pos as int) == bin_run(c@, e as int),
        decreases c@.len() - e,
    {
        e = e + 1;
    }
    e
}

/// The error for a number over the largest value where it stands
/// (`0xff` for a byte, else 16 bits).
fn value_too_large(value: String, max: usize) -> (e: AppError)
    ensures
        e.message@ == "Value "@ + value@ + if max <= 0xff {
            " is too large for 8-bit value"@
        } else {
            " is too large for 16-bit value"@
        },
{
    let mut s = String::new();
    push_str(&mut s, "Value ");
    push_str(&mut s, value.as_str());
    if max <= 0xff {
        push_str(&mut s, " is too large for 8-bit value");
    } else {
        push_str(&mut s, " is too large for 16-bit value");
    }
    AppError::new(s)
}

/// A prefix of a run of decimal digits is worth no more than the run.
proof fn lemma_dec_prefix(s: Seq<char>, k: int)
    requires
        0 <= k <= s.len(),
    ensures
        dec_run_value(s.subrange(0, k)) <= dec_run_value(s),
    decreases s.len(),
{
    if k < s.len() {
        lemma_dec_prefix(s.drop_last(), k);
        assert(s.drop_last().subrange(0, k) =~= s.subrange(0, k));
    } else {
        assert(s.subrange(0, k) =~= s);
    }
}

/// A prefix of a run of binary digits is worth no more than the run.
proof fn lemma_bin_prefix(s: Seq<char>, k: int)
    requires
        0 <= k <= s.len(),
    ensures
        bin_run_value(s.subrange(0, k)) <= bin_run_value(s),
    decreases s.len(),
{
    if k < s.len() {
        lemma_bin_prefix(s.drop_last(), k);
        assert(s.drop_last().subrange(0, k) =~= s.subrange(0, k));
    } else {
        assert(s.subrange(0, k) =~= s);
    }
}

impl<'a> ParserContext<'a> {
    /// The number at `pos` (see `number_at`); an error when it is over
    /// `max`.
    pub fn parse_number(&self, c: &Vec<char>, pos: usize, max: usize) -> (r: AppResult<(usize, usize)>)
        requires
            pos <= c@.len(),
            c@.len() < usize::MAX / 4,
        ensures
            read(r) == number_at(c@, pos as int, max as nat),
            r matches Ok((v, e)) ==> pos < e <= c@.len() && v <= max,
    {
        if char_at(c, pos, '0') && (char_at(c, pos + 1, 'x') || char_at(c, pos + 1, 'X')) {
            let e = hex_run_end(c, pos + 2);
            if e == pos + 2 || e - (pos + 2) > 4 {
                return Err(syntax_error(c, "a hexadecimal value of one to four digits"));
            }
            let digits = slice_string(c, pos + 2, e);
            let v = self.parse_hex(digits.as_str())?;
            if v > max {
                let mut text = String::new();
                crate::text::push_dec(&mut text, v as u128);
                return Err(value_too_large(text, max));
            }
            return Ok((v, e));
        }
        if char_at(c, pos, '0') && (char_at(c, pos + 1, 'b') || char_at(c, pos + 1, 'B')) {
            let e = bin_run_end(c, pos + 2);
            if e == pos + 2 {
                return Err(syntax_error(c, "binary digits"));
            }
            let ghost t = c@.subrange(pos + 2, e as int);
            let mut v: usize = 0;
            let mut k = pos + 2;
            while k < e
                invariant
                    pos + 2 <= k <= e <= c@.len(),
                    t == c@.subrange(pos + 2, e as int),
                    number_at(c@, pos as int, max as nat) == (if bin_run_value(t) > max {
                        None
                    } else {
                        Some((bin_run_value(t) as usize, e as int))
                    }),
                    forall|j: int| pos + 2 <= j < e ==> (#[trigger] c@[j] == '0' || c@[j] == '1'),
                    v == bin_run_value(c@.subrange(pos + 2, k as int)),
                    v <= max,
                decreases e - k,
            {
                let d: usize = if c[k] == '1' {
                    1
                } else {
                    0
                };
                proof {
                    let s = c@.subrange(pos + 2, k + 1);
                    assert(s.drop_last() =~= c@.subrange(pos + 2, k as int));
                    assert(s.last() == c@[k as int]);
                    assert(t.subrange(0, k + 1 - (pos + 2)) =~= s);
                    lemma_bin_prefix(t, k + 1 - (pos + 2));
                    assert(d == (c@[k as int] as nat - 48) as nat);
                    assert(bin_run_value(s) == v * 2 + d);
                }
                if d > max || v > (max - d) / 2 {
                    assert(v * 2 + d > max) by (nonlinear_arith)
                        requires
                            d > max || v > (max - d) / 2,
                    ;
                    return Err(value_too_large(slice_string(c, pos, e), max));
                }
                assert(v * 2 + d <= max) by (nonlinear_arith)
                    requires
                        d <= max,
                        v <= (max - d) / 2,
                ;
                v = v * 2 + d;
                k = k + 1;
            }
            return Ok((v, e));
        }
        let e = dec_run_end(c, pos);
        if e == pos {
            return Err(syntax_error(c, "a number"));
        }
        let ghost t = c@.subrange(pos as int, e as int);
        let mut v: usize = 0;
        let mut k = pos;
        while k < e
            invariant
                pos <= k <= e <= c@.len(),
                t == c@.subrange(pos as int, e as int),
                number_at(c@, pos as int, max as nat) == (if dec_run_value(t) > max {
                    None
                } else {
                    Some((dec_run_value(t) as usize, e as int))
                }),
                forall|j: int| pos <= j < e ==> '0' <= #[trigger] c@[j] <= '9',
                v == dec_run_value(c@.subrange(pos as int, k as int)),
                v <= max,
            decreases e - k,
        {
            let d = (c[k] as u32 - 48) as usize;
            proof {
                let s = c@.subrange(pos as int, k + 1);
                assert(s.drop_last() =~= c@.subrange(pos as int, k as int));
                assert(s.last() == c@[k as int]);
                assert(t.subrange(0, k + 1 - pos) =~= s);
                lemma_dec_prefix(t, k + 1 - pos);
                assert(d == (c@[k as int] as nat - 48) as nat);
                assert(dec_run_value(s) == v * 10 + d);
            }
            if d > max || v > (max - d) / 10 {
                assert(v * 10 + d > max) by (nonlinear_arith)
                    requires
                        d > max || v > (max - d) / 10,
                ;
                return Err(value_too_large(slice_string(c, pos, e), max));
            }
            assert(v * 10 + d <= max) by (nonlinear_arith)
                requires
                    d <= max,
                    v <= (max - d) / 10,
            ;
            v = v * 10 + d;
            k = k + 1;
        }
        Ok((v, e))
    }

    /// The address at `pos` (see `address_at`).
    pub fn parse_address(&self, c: &Vec<char>, pos: usize) -> (r: AppResult<(usize, usize)>)
        requires
            pos <= c@.len(),
            c@.len() < usize::MAX / 4,
        ensures
            read(r) == address_at(entries(self.symbols()), c@, pos as int),
            r matches Ok((v, e)) ==> pos < e <= c@.len() && v < 0x10000,
    {
        if char_at(c, pos, '#') && char_at(c, pos + 1, '0') && char_at(c, pos + 2, 'x') {
            let e = hex_run_end(c, pos + 3);
            if e == pos + 3 || e - (pos + 3) > 4 {
                return Err(syntax_error(c, "an address of one to four hexadecimal digits"));
            }
            let digits = slice_string(c, pos + 3, e);
            let v = self.parse_hex(digits.as_str())?;
            proof {
                crate::lexer::lemma_short_hex_run_bound(digits@);
            }
            return Ok((v, e));
        }
        if char_at(c, pos, '$') {
            let e = name_end(c, pos + 1);
            if e == pos + 1 {
                return Err(syntax_error(c, "a symbol name"));
            }
            let name = slice_string(c, pos + 1, e);
            let a = self.symbol_address(name.as_str())?;
            return Ok((a, e));
        }
        Err(syntax_error(c, "a memory address"))
    }

    /// The location at `pos` (see `location_at`).
    pub fn parse_location(&self, c: &Vec<char>, pos: usize) -> (r: AppResult<(usize, usize)>)
        requires
            pos <= c@.len(),
            c@.len() < usize::MAX / 4,
        ensures
            read(r) == location_at(entries(self.symbols()), c@, pos as int),
            r matches Ok((v, e)) ==> pos < e <= c@.len() && v < 0x10000,
    {
        let (a, e) = self.parse_address(c, pos)?;
        let p = skip_blank(c, e);
        if char_at(c, p, '+') || (char_at(c, p, '-') && !char_at(c, p + 1, '>')) {
            let plus = char_at(c, p, '+');
            let q = skip_blank(c, p + 1);
            let (off, e2) = self.parse_number(c, q, 0xffff)?;
            let v = if plus {
                (a + off) % 0x10000
            } else {
                (a + 0x10000 - off) % 0x10000
            };
            return Ok((v, e2));
        }
        Ok((a, e))
    }

    /// A register name.
    fn parse_register(&self, c: &Vec<char>, pos: usize) -> (r: Option<(RegisterSource, usize)>)
        requires
            pos <= c@.len(),
            c@.len() < usize::MAX / 4,
        ensures
            r matches Some((_, e)) ==> pos < e <= c@.len(),
            match r {
                Some((rs, e)) => register_at(c@, pos as int) == Some((rs, e as int)),
                None => register_at(c@, pos as int) is None,
            },
    {
        let e = name_end(c, pos);
        if e == pos {
            assert(c@.subrange(pos as int, e as int).len() == 0);
            return None;
        }
        let name = slice_string(c, pos, e);
        proof {
            reveal_strlit("A");
            reveal_strlit("X");
            reveal_strlit("Y");
            reveal_strlit("S");
            reveal_strlit("SP");
            reveal_strlit("CP");
            reveal_strlit("cycle_count");
            assert("A"@ =~= seq!['A']);
            assert("X"@ =~= seq!['X']);
            assert("Y"@ =~= seq!['Y']);
            assert("S"@ =~= seq!['S']);
            assert("SP"@ =~= seq!['S', 'P']);
            assert("CP"@ =~= seq!['C', 'P']);
            assert("cycle_count"@ =~= seq!['c', 'y', 'c', 'l', 'e', '_', 'c', 'o', 'u', 'n', 't']);
        }
        let rs = if same(&name, "A") {
            RegisterSource::Accumulator
        } else if same(&name, "X") {
            RegisterSource::RegisterX
        } else if same(&name, "Y") {
            RegisterSource::RegisterY
        } else if same(&name, "S") {
            RegisterSource::Status
        } else if same(&name, "SP") {
            RegisterSource::StackPointer
        } else if same(&name, "CP") {
            RegisterSource::CommandPointer
        } else if same(&name, "cycle_count") {
            RegisterSource::CycleCount
        } else {
            return None;
        };
        Some((rs, e))
    }

    /// An operand of a comparison: a register, a memory location, a
    /// number; on the right also `$name` (the address as a value) and
    /// `<$name`, `>$name` (its low and high byte).
    fn parse_operand(&self, c: &Vec<char>, pos: usize, right: bool) -> (r: AppResult<(Source, usize)>)
        requires
            pos <= c@.len(),
            c@.len() < usize::MAX / 4,
        ensures
            r matches Ok((s, e)) ==> pos < e <= c@.len() && source_ok(s),
            read(r) == operand_at(entries(self.symbols()), c@, pos as int, right),
    {
        if let Some((rs, e)) = self.parse_register(c, pos) {
            return Ok((Source::Register(rs), e));
        }
        if right && (char_at(c, pos, '<') || char_at(c, pos, '>')) && char_at(c, pos + 1, '$') {
            let low = char_at(c, pos, '<');
            let (a, e) = self.parse_address(c, pos + 1)?;
            let v = if low {
                a % 256
            } else {
                a / 256
            };
            return Ok((Source::Value(v), e));
        }
        if right && char_at(c, pos, '$') {
            let (a, e) = self.parse_address(c, pos)?;
            return Ok((Source::Value(a), e));
        }
        if char_at(c, pos, '#') || char_at(c, pos, '$') {
            let (a, e) = self.parse_location(c, pos)?;
            return Ok((Source::Memory(a), e));
        }
        let (v, e) = self.parse_number(c, pos, 0xffff)?;
        Ok((Source::Value(v), e))
    }

    /// A list of bytes: `0x(` hexadecimal bytes separated by commas `)`.
    fn parse_byte_list(&self, c: &Vec<char>, pos: usize) -> (r: AppResult<(Vec<u8>, usize)>)
        requires
            pos <= c@.len(),
            c@.len() < usize::MAX / 4,
        ensures
            r matches Ok((_, e)) ==> pos < e <= c@.len(),
            match byte_list_at(c@, pos as int) {
                Some((b, e)) => r matches Ok((v, e2)) && v@ == b && e2 == e,
                None => r is Err,
            },
    {
        if !(char_at(c, pos, '0') && char_at(c, pos + 1, 'x') && char_at(c, pos + 2, '(')) {
            return Err(syntax_error(c, "a byte list"));
        }
        let mut e = pos + 3;
        while e < c.len() && c[e] != ')'
            invariant
                pos + 3 <= e <= c@.len(),
                char_end(c@, pos + 3, ')') == char_end(c@, e as int, ')'),
            decreases c@.len() - e,
        {
            e = e + 1;
        }
        if e >= c.len() {
            return Err(syntax_error(c, "')'"));
        }
        let inner = slice_string(c, pos + 3, e);
        let bytes = self.parse_hex_sequence(inner.as_str())?;
        Ok((bytes, e + 1))
    }

    /// A string literal: its bytes and the position after its closing quote.
    fn parse_quoted(&self, c: &Vec<char>, pos: usize, raw: bool) -> (r: AppResult<(Vec<char>, usize)>)
        requires
            pos <= c@.len(),
            c@.len() < usize::MAX / 4,
        ensures
            r matches Ok((_, e)) ==> pos < e <= c@.len(),
            match quoted_at(c@, pos as int, raw) {
                Some((t, e)) => r matches Ok((v, e2)) && v@ == t && e2 == e,
                None => r is Err,
            },
    {
        if !char_at(c, pos, '"') {
            return Err(syntax_error(c, "a string"));
        }
        let mut e = pos + 1;
        let mut inside: Vec<char> = Vec::new();
        while e < c.len() && c[e] != '"'
            invariant
                pos + 1 <= e <= c@.len(),
                quote_scan(c@, pos + 1, raw) == match quote_scan(c@, e as int, raw) {
                    Some((t, f)) => Some((inside@ + t, f)),
                    None => None::<(Seq<char>, int)>,
                },
            decreases c@.len() - e,
        {
            let ghost before = inside@;
            if c[e] == '\\' && !raw && e + 1 < c.len() {
                inside.push(c[e]);
                inside.push(c[e + 1]);
                proof {
                    match quote_scan(c@, e + 2, raw) {
                        Some((t, f)) => assert(before + (seq![c@[e as int], c@[e + 1]] + t) =~= inside@ + t),
                        None => {},
                    }
                }
                e = e + 2;
            } else {
                inside.push(c[e]);
                proof {
                    match quote_scan(c@, e + 1, raw) {
                        Some((t, f)) => assert(before + (seq![c@[e as int]] + t) =~= inside@ + t),
                        None => {},
                    }
                }
                e = e + 1;
            }
        }
        if e >= c.len() {
            return Err(syntax_error(c, "a closing '\"'"));
        }
        assert(inside@ + Seq::<char>::empty() =~= inside@);
        Ok((inside, e + 1))
    }

    /// A string literal as bytes.
    fn parse_string_bytes(&self, c: &Vec<char>, pos: usize) -> (r: AppResult<(Vec<u8>, usize)>)
        requires
            pos <= c@.len(),
            c@.len() < usize::MAX / 4,
        ensures
            r matches Ok((_, e)) ==> pos < e <= c@.len(),
            match string_bytes_at(c@, pos as int) {
                Some((b, e)) => r matches Ok((v, e2)) && v@ == b && e2 == e,
                None => r is Err,
            },
    {
        let (inside, e) = self.parse_quoted(c, pos, false)?;
        let text = string_of(&inside);
        let bytes = parse_string_literal(text.as_str())?;
        Ok((bytes, e))
    }

    /// A description: the text between `$$` and `$$`.
    fn parse_description(&self, c: &Vec<char>, pos: usize) -> (r: AppResult<(String, usize)>)
        requires
            pos <= c@.len(),
            c@.len() < usize::MAX / 4,
        ensures
            r matches Ok((_, e)) ==> pos < e <= c@.len(),
            match description_at(c@, pos as int) {
                Some((t, e)) => r matches Ok((v, e2)) && v@ == t && e2 == e,
                None => r is Err,
            },
    {
        if !(char_at(c, pos, '$') && char_at(c, pos + 1, '$')) {
            return Err(syntax_error(c, "a description between $$"));
        }
        let mut e = pos + 2;
        while e < c.len() && !(c[e] == '$' && e + 1 < c.len() && c[e + 1] == '$')
            invariant
                pos + 2 <= e <= c@.len(),
                description_end(c@, pos + 2) == description_end(c@, e as int),
            decreases c@.len() - e,
        {
            e = e + 1;
        }
        if e >= c.len() {
            return Err(syntax_error(c, "a closing $$"));
        }
        let d = slice_string(c, pos + 2, e);
        Ok((d, e + 2))
    }
}

/// Whether `s` is `t`.
fn same(s: &String, t: &str) -> (b: bool)
    ensures
        b == (s@ == t@),
{
    *s == String::from_str(t)
}

impl<'a> ParserContext<'a> {
    /// A condition: terms joined by `OR`.
    pub fn parse_condition(&self, c: &Vec<char>, pos: usize) -> (r: AppResult<(BooleanExpression, usize)>)
        requires
            pos <= c@.len(),
            c@.len() < usize::MAX / 4,
        ensures
            r matches Ok((x, e)) ==> pos < e <= c@.len() && expr_ok(x),
            read_condition(r) == condition_at(entries(self.symbols()), c@, pos as int),
        decreases c@.len() - pos, 2int,
    {
        let (first, e0) = self.parse_conjunction(c, pos)?;
        let mut expr = first;
        let mut e = e0;
        loop
            invariant
                pos < e <= c@.len(),
                c@.len() < usize::MAX / 4,
                expr_ok(expr),
                condition_at(entries(self.symbols()), c@, pos as int) == or_chain(
                    entries(self.symbols()),
                    c@,
                    condition_view(expr),
                    e as int,
                ),
            decreases c@.len() - e,
        {
            let p = skip_blank(c, e);
            proof {
                reveal_strlit("or");
                assert("or"@ =~= seq!['o', 'r']);
            }
            match keyword(c, p, "or") {
                Some(q) => {
                    let (right, e2) = self.parse_conjunction(c, q)?;
                    expr = BooleanExpression::Or(Box::new(expr), Box::new(right));
                    e = e2;
                },
                None => {
                    return Ok((expr, e));
                },
            }
        }
    }

    /// A term: factors joined by `AND`.
    fn parse_conjunction(&self, c: &Vec<char>, pos: usize) -> (r: AppResult<(BooleanExpression, usize)>)
        requires
            pos <= c@.len(),
            c@.len() < usize::MAX / 4,
        ensures
            r matches Ok((x, e)) ==> pos < e <= c@.len() && expr_ok(x),
            read_condition(r) == conjunction_at(entries(self.symbols()), c@, pos as int),
        decreases c@.len() - pos, 1int,
    {
        let (first, e0) = self.parse_factor(c, pos)?;
        let mut expr = first;
        let mut e = e0;
        loop
            invariant
                pos < e <= c@.len(),
                c@.len() < usize::MAX / 4,
                expr_ok(expr),
                conjunction_at(entries(self.symbols()), c@, pos as int) == and_chain(
                    entries(self.symbols()),
                    c@,
                    condition_view(expr),
                    e as int,
                ),
            decreases c@.len() - e,
        {
            let p = skip_blank(c, e);
            proof {
                reveal_strlit("and");
                assert("and"@ =~= seq!['a', 'n', 'd']);
            }
            match keyword(c, p, "and") {
                Some(q) => {
                    let (right, e2) = self.parse_factor(c, q)?;
                    expr = BooleanExpression::And(Box::new(expr), Box::new(right));
                    e = e2;
                },
                None => {
                    return Ok((expr, e));
                },
            }
        }
    }

    /// A factor: `NOT` factor, a condition in brackets, `true`, `false`, a
    /// memory sequence `loc ~ 0x(..)` or `loc ~ "..."`, a pointer `loc ->
    /// loc`, or a comparison.
    fn parse_factor(&self, c: &Vec<char>, pos: usize) -> (r: AppResult<(BooleanExpression, usize)>)
        requires
            pos <= c@.len(),
            c@.len() < usize::MAX / 4,
        ensures
            r matches Ok((x, e)) ==> pos < e <= c@.len() && expr_ok(x),
            read_condition(r) == factor_at(entries(self.symbols()), c@, pos as int),
        decreases c@.len() - pos, 0int,
    {
        let p = skip_blank(c, pos);
        proof {
            reveal_strlit("not");
            reveal_strlit("true");
            reveal_strlit("false");
            assert("not"@ =~= seq!['n', 'o', 't']);
            assert("true"@ =~= seq!['t', 'r', 'u', 'e']);
            assert("false"@ =~= seq!['f', 'a', 'l', 's', 'e']);
        }
        if let Some(q) = keyword(c, p, "not") {
            let (inner, e) = self.parse_factor(c, q)?;
            return Ok((BooleanExpression::Not(Box::new(inner)), e));
        }
        if char_at(c, p, '(') {
            let (inner, e) = self.parse_condition(c, p + 1)?;
            let q = skip_blank(c, e);
            if !char_at(c, q, ')') {
                return Err(syntax_error(c, "')'"));
            }
            return Ok((inner, q + 1));
        }
        if let Some(q) = keyword(c, p, "true") {
            return Ok((BooleanExpression::Value(true), q));
        }
        if let Some(q) = keyword(c, p, "false") {
            return Ok((BooleanExpression::Value(false), q));
        }
        self.parse_operand_factor(c, p)
    }

    /// A factor that starts with an operand (see `operand_factor_at`).
    fn parse_operand_factor(&self, c: &Vec<char>, p: usize) -> (r: AppResult<(BooleanExpression, usize)>)
        requires
            p <= c@.len(),
            c@.len() < usize::MAX / 4,
        ensures
            r matches Ok((x, e)) ==> p < e <= c@.len() && expr_ok(x),
            read_condition(r) == operand_factor_at(entries(self.symbols()), c@, p as int),
    {
        let (lhs, e) = self.parse_operand(c, p, false)?;
        let q = skip_blank(c, e);
        if let Source::Memory(a) = lhs {
            if char_at(c, q, '~') {
                let r = skip_blank(c, q + 1);
                let (bytes, e2) = if char_at(c, r, '"') {
                    self.parse_string_bytes(c, r)?
                } else {
                    self.parse_byte_list(c, r)?
                };
                return Ok((BooleanExpression::MemorySequence(lhs, bytes), e2));
            }
            if char_at(c, q, '-') && char_at(c, q + 1, '>') {
                let r = skip_blank(c, q + 2);
                let (target, e2) = self.parse_location(c, r)?;
                if a >= 0xffff {
                    return Err(syntax_error(c, "a pointer below the last address"));
                }
                let low = BooleanExpression::Equal(Source::Memory(a), Source::Value(target % 256));
                let high = BooleanExpression::Equal(Source::Memory(a + 1), Source::Value((target / 256) % 256));
                assert(expr_ok(low));
                assert(expr_ok(high));
                assert(condition_view(low) == ConditionView::Equal(Source::Memory(a), Source::Value(target % 256)));
                assert(condition_view(high) == ConditionView::Equal(
                    Source::Memory((a + 1) as usize),
                    Source::Value((target / 256) % 256),
                ));
                let cond = BooleanExpression::And(Box::new(low), Box::new(high));
                return Ok((cond, e2));
            }
        }
        let (op, r) = if char_at(c, q, '<') && char_at(c, q + 1, '=') {
            (4u8, q + 2)
        } else if char_at(c, q, '>') && char_at(c, q + 1, '=') {
            (1u8, q + 2)
        } else if char_at(c, q, '!') && char_at(c, q + 1, '=') {
            (5u8, q + 2)
        } else if char_at(c, q, '=') {
            (0u8, q + 1)
        } else if char_at(c, q, '<') {
            (3u8, q + 1)
        } else if char_at(c, q, '>') {
            (2u8, q + 1)
        } else {
            return Err(syntax_error(c, "a comparison operator"));
        };
        let r2 = skip_blank(c, r);
        let (rhs, e2) = self.parse_operand(c, r2, true)?;
        let expr = if op == 0 {
            BooleanExpression::Equal(lhs, rhs)
        } else if op == 1 {
            BooleanExpression::GreaterOrEqual(lhs, rhs)
        } else if op == 2 {
            BooleanExpression::StrictlyGreater(lhs, rhs)
        } else if op == 3 {
            BooleanExpression::StrictlyLesser(lhs, rhs)
        } else if op == 4 {
            BooleanExpression::LesserOrEqual(lhs, rhs)
        } else {
            BooleanExpression::Different(lhs, rhs)
        };
        Ok((expr, e2))
    }

    /// A whole condition given as text.
    pub fn parse_boolean_condition(&self, text: &str) -> (r: AppResult<BooleanExpression>)
        ensures
            r matches Ok(x) ==> expr_ok(x),
            match boolean_condition(entries(self.symbols()), text@) {
                Some(v) => r matches Ok(x) && condition_view(x) == v,
                None => r is Err,
            },
    {
        let c = chars_of_str(text);
        if c.len() >= usize::MAX / 4 {
            return Err(syntax_error(&c, "a shorter text"));
        }
        let (x, e) = self.parse_condition(&c, 0)?;
        let q = skip_blank(&c, e);
        if q != c.len() {
            return Err(syntax_error(&c, "the end of the condition"));
        }
        Ok(x)
    }
}

/// Whether the memory addresses of a command are inside the address space.
pub open spec fn command_ok(cmd: CliCommand) -> bool {
    match cmd {
        CliCommand::Assert(a) => expr_ok(a.condition),
        CliCommand::Run(r) => expr_ok(r.stop_condition) && expr_ok(r.continue_condition) && match r.start_address {
            Some(RunAddress::Memory(a)) => a < 0x10000,
            _ => true,
        },
        CliCommand::Registers(RegisterCommand::Assign { assignment }) => source_ok(assignment.source),
        CliCommand::Memory(m) => match m {
            MemoryCommand::Write { address, bytes: _ } => address < 0x10000,
            MemoryCommand::Load { address, filepath: _ } => address < 0x10000,
            MemoryCommand::Fill { start, end, value: _ } => start < 0x10000 && end < 0x10000,
            MemoryCommand::Show { address, length: _, width: _, description: _ } => address < 0x10000,
            _ => true,
        },
        CliCommand::Disassemble { start, end } => start < 0x10000 && end < 0x20000,
        _ => true,
    }
}

/// The path between the quotes at `pos`.
fn parse_path(ctx: &ParserContext, c: &Vec<char>, pos: usize) -> (r: AppResult<(String, usize)>)
    requires
        pos <= c@.len(),
        c@.len() < usize::MAX / 4,
    ensures
        r matches Ok((_, e)) ==> pos < e <= c@.len(),
        match path_at(c@, pos as int) {
            Some((f, e)) => r matches Ok((v, e2)) && v@ == f && e2 == e,
            None => r is Err,
        },
{
    let p = skip_blank(c, pos);
    let (inside, e) = ctx.parse_quoted(c, p, true)?;
    Ok((string_of(&inside), e))
}

/// Reads `memory …` and `symbols …` commands.
pub struct MemoryCommandParser<'a> {
    context: &'a ParserContext<'a>,
}

impl<'a> MemoryCommandParser<'a> {
    /// A parser resolving names in `context`.
    pub fn new(context: &'a ParserContext<'a>) -> (p: MemoryCommandParser<'a>)
        ensures
            p.context() == context,
    {
        MemoryCommandParser { context }
    }

    /// The context names are resolved in.
    pub closed spec fn context(&self) -> &'a ParserContext<'a> {
        self.context
    }

    /// What follows `memory`: `flush`, `write`, `load`, `fill` or `show`
    /// (see `memory_at`).
    pub fn parse(&self, c: &Vec<char>, pos: usize) -> (r: AppResult<(MemoryCommand, usize)>)
        requires
            pos <= c@.len(),
            c@.len() < usize::MAX / 4,
        ensures
            r matches Ok((m, e)) ==> pos <= e <= c@.len() && command_ok(CliCommand::Memory(m)),
            read_memory(r) == memory_at(entries(self.context().symbols()), c@, pos as int),
    {
        let ctx = self.context;
        let p = skip_blank(c, pos);
        if let Some(q) = keyword(c, p, "flush") {
            return Ok((MemoryCommand::Flush, q));
        }
        if let Some(q) = keyword(c, p, "write") {
            let q = skip_blank(c, q);
            let (address, e) = ctx.parse_address(c, q)?;
            return parse_write(ctx, c, address, e);
        }
        if let Some(q) = keyword(c, p, "load") {
            return parse_load(ctx, c, q);
        }
        if let Some(q) = keyword(c, p, "fill") {
            return parse_fill(ctx, c, q);
        }
        if let Some(q) = keyword(c, p, "show") {
            return parse_show(ctx, c, q);
        }
        Err(syntax_error(c, "flush, write, load, fill or show after memory"))
    }

    /// What follows `symbols`: `load "file"`, `add name=value` or
    /// `remove name`.
    pub fn parse_symbols(&self, c: &Vec<char>, pos: usize) -> (r: AppResult<(MemoryCommand, usize)>)
        requires
            pos <= c@.len(),
            c@.len() < usize::MAX / 4,
        ensures
            r matches Ok((m, e)) ==> pos <= e <= c@.len() && command_ok(CliCommand::Memory(m)),
            read_memory(r) == symbols_at(entries(self.context().symbols()), c@, pos as int),
    {
        let ctx = self.context;
        let p = skip_blank(c, pos);
        if let Some(q) = keyword(c, p, "load") {
            let (filepath, e) = parse_path(ctx, c, q)?;
            return Ok((MemoryCommand::LoadSymbolsFile { filepath }, e));
        }
        if let Some(q) = keyword(c, p, "add") {
            let q = skip_blank(c, q);
            let n = name_end(c, q);
            if n == q {
                return Err(syntax_error(c, "a symbol name"));
            }
            let name = slice_string(c, q, n);
            let r = skip_blank(c, n);
            if !char_at(c, r, '=') {
                return Err(syntax_error(c, "'=' after the symbol name"));
            }
            let r2 = skip_blank(c, r + 1);
            let (value, e) = if char_at(c, r2, '$') {
                ctx.parse_address(c, r2)?
            } else {
                ctx.parse_number(c, r2, 0xffff)?
            };
            return Ok((MemoryCommand::AddSymbol { name, value: value as u16 }, e));
        }
        if let Some(q) = keyword(c, p, "remove") {
            let q = skip_blank(c, q);
            let n = name_end(c, q);
            if n == q {
                return Err(syntax_error(c, "a symbol name"));
            }
            let name = slice_string(c, q, n);
            return Ok((MemoryCommand::RemoveSymbol { name }, n));
        }
        Err(syntax_error(c, "load, add or remove after symbols"))
    }
}

/// After `memory write ADDRESS` (see `write_at`).
fn parse_write(ctx: &ParserContext, c: &Vec<char>, address: usize, e: usize) -> (r: AppResult<(MemoryCommand, usize)>)
    requires
        e <= c@.len(),
        c@.len() < usize::MAX / 4,
        address < 0x10000,
    ensures
        r matches Ok((m, e2)) ==> e <= e2 <= c@.len() && command_ok(CliCommand::Memory(m)),
        read_memory(r) == write_at(entries(ctx.symbols()), c@, address, e as int),
{
    let r = skip_blank(c, e);
    if char_at(c, r, '"') {
        let (bytes, e2) = ctx.parse_string_bytes(c, r)?;
        return Ok((MemoryCommand::Write { address, bytes }, e2));
    }
    if char_at(c, r, '#') || char_at(c, r, '$') {
        let (target, e2) = ctx.parse_location(c, r)?;
        let mut bytes: Vec<u8> = Vec::new();
        bytes.push((target % 256) as u8);
        bytes.push((target / 256) as u8);
        assert(bytes@ =~= seq![(target % 256) as u8, (target / 256) as u8]);
        return Ok((MemoryCommand::Write { address, bytes }, e2));
    }
    let (bytes, e2) = ctx.parse_byte_list(c, r)?;
    Ok((MemoryCommand::Write { address, bytes }, e2))
}

/// After `memory load` (see `load_at`).
fn parse_load(ctx: &ParserContext, c: &Vec<char>, pos: usize) -> (r: AppResult<(MemoryCommand, usize)>)
    requires
        pos <= c@.len(),
        c@.len() < usize::MAX / 4,
    ensures
        r matches Ok((m, e)) ==> pos <= e <= c@.len() && command_ok(CliCommand::Memory(m)),
        read_memory(r) == load_at(entries(ctx.symbols()), c@, pos as int),
{
    let q = skip_blank(c, pos);
    if let Some(t) = keyword(c, q, "atari") {
        let (filepath, e) = parse_path(ctx, c, t)?;
        return Ok((MemoryCommand::LoadTarget { target: LoadTarget::Atari, filepath }, e));
    }
    if let Some(t) = keyword(c, q, "apple") {
        let (filepath, e) = parse_path(ctx, c, t)?;
        return Ok((MemoryCommand::LoadTarget { target: LoadTarget::Apple, filepath }, e));
    }
    let (address, e) = ctx.parse_address(c, q)?;
    let (filepath, e2) = parse_path(ctx, c, e)?;
    Ok((MemoryCommand::Load { address, filepath }, e2))
}

/// After `memory fill` (see `fill_at`).
fn parse_fill(ctx: &ParserContext, c: &Vec<char>, pos: usize) -> (r: AppResult<(MemoryCommand, usize)>)
    requires
        pos <= c@.len(),
        c@.len() < usize::MAX / 4,
    ensures
        r matches Ok((m, e)) ==> pos <= e <= c@.len() && command_ok(CliCommand::Memory(m)),
        read_memory(r) == fill_at(entries(ctx.symbols()), c@, pos as int),
{
    let q = skip_blank(c, pos);
    let (start, e) = ctx.parse_location(c, q)?;
    let r = skip_blank(c, e);
    if !char_at(c, r, '~') {
        return Err(syntax_error(c, "'~' between the two addresses"));
    }
    let r2 = skip_blank(c, r + 1);
    let (end, e2) = ctx.parse_location(c, r2)?;
    let r3 = skip_blank(c, e2);
    if r3 < c.len() && !starts_comment(c, r3) {
        let (value, e3) = ctx.parse_number(c, r3, 0xff)?;
        return Ok((MemoryCommand::Fill { start, end, value: value as u8 }, e3));
    }
    Ok((MemoryCommand::Fill { start, end, value: 0 }, e2))
}

/// An optional description after blanks from `end` (see
/// `optional_description`).
fn parse_optional_description(ctx: &ParserContext, c: &Vec<char>, end: usize) -> (r: AppResult<(Option<String>, usize)>)
    requires
        end <= c@.len(),
        c@.len() < usize::MAX / 4,
    ensures
        r matches Ok((_, e)) ==> end <= e <= c@.len(),
        match optional_description(c@, end as int) {
            Some((d, e)) => r matches Ok((v, e2)) && e2 == e && match v {
                Some(s) => d == Some(s@),
                None => d is None,
            },
            None => r is Err,
        },
{
    let r3 = skip_blank(c, end);
    if char_at(c, r3, '$') {
        let (d, e4) = ctx.parse_description(c, r3)?;
        return Ok((Some(d), e4));
    }
    Ok((None, end))
}

/// After `memory show` (see `show_at`).
fn parse_show(ctx: &ParserContext, c: &Vec<char>, pos: usize) -> (r: AppResult<(MemoryCommand, usize)>)
    requires
        pos <= c@.len(),
        c@.len() < usize::MAX / 4,
    ensures
        r matches Ok((m, e)) ==> pos <= e <= c@.len() && command_ok(CliCommand::Memory(m)),
        read_memory(r) == show_at(entries(ctx.symbols()), c@, pos as int),
{
    let q = skip_blank(c, pos);
    let (address, e) = ctx.parse_location(c, q)?;
    let r = skip_blank(c, e);
    let (length, e2) = ctx.parse_number(c, r, 0xffff)?;
    let mut end = e2;
    let mut width: Option<usize> = None;
    let r2 = skip_blank(c, end);
    if r2 < c.len() && c[r2] != '$' && !starts_comment(c, r2) {
        let (w, e3) = ctx.parse_number(c, r2, 0xff)?;
        width = Some(w);
        end = e3;
    }
    let (description, e4) = parse_optional_description(ctx, c, end)?;
    Ok((MemoryCommand::Show { address, length, width, description }, e4))
}

/// Whether a comment starts at `pos`: `//` or `;`.
fn starts_comment(c: &Vec<char>, pos: usize) -> (b: bool)
    requires
        pos <= c@.len(),
        c@.len() < usize::MAX / 4,
    ensures
        b == (pos < c@.len() && (c@[pos as int] == ';' || (c@[pos as int] == '/' && pos + 1 < c@.len() && c@[pos + 1]
            == '/'))),
        b == comment_at(c@, pos as int),
{
    char_at(c, pos, ';') || (char_at(c, pos, '/') && char_at(c, pos + 1, '/'))
}

/// Reads `registers …` commands.
pub struct RegisterCommandParser<'a> {
    context: &'a ParserContext<'a>,
}

impl<'a> RegisterCommandParser<'a> {
    /// A parser resolving names in `context`.
    pub fn new(context: &'a ParserContext<'a>) -> (p: RegisterCommandParser<'a>)
        ensures
            p.context() == context,
    {
        RegisterCommandParser { context }
    }

    /// The context names are resolved in.
    pub closed spec fn context(&self) -> &'a ParserContext<'a> {
        self.context
    }

    /// What follows `registers`: `flush`, `set REG=source` or `show [REG]`.
    /// A value over 255 for an 8 bit register is an error.
    pub fn parse(&self, c: &Vec<char>, pos: usize) -> (r: AppResult<(RegisterCommand, usize)>)
        requires
            pos <= c@.len(),
            c@.len() < usize::MAX / 4,
        ensures
            r matches Ok((m, e)) ==> pos <= e <= c@.len() && command_ok(CliCommand::Registers(m)),
            read_registers(r) == registers_at(entries(self.context().symbols()), c@, pos as int),
    {
        let ctx = self.context;
        let p = skip_blank(c, pos);
        if let Some(q) = keyword(c, p, "flush") {
            return Ok((RegisterCommand::Flush, q));
        }
        if let Some(q) = keyword(c, p, "show") {
            let q2 = skip_blank(c, q);
            return match ctx.parse_register(c, q2) {
                Some((rs, e)) => Ok((RegisterCommand::Show { register: Some(rs) }, e)),
                None => Ok((RegisterCommand::Show { register: None }, q)),
            };
        }
        if let Some(q) = keyword(c, p, "set") {
            return parse_assign(ctx, c, q);
        }
        Err(syntax_error(c, "flush, set or show after registers"))
    }
}

/// After `registers set` (see `assign_at`).
fn parse_assign(ctx: &ParserContext, c: &Vec<char>, pos: usize) -> (r: AppResult<(RegisterCommand, usize)>)
    requires
        pos <= c@.len(),
        c@.len() < usize::MAX / 4,
    ensures
        r matches Ok((m, e)) ==> pos <= e <= c@.len() && command_ok(CliCommand::Registers(m)),
        read_registers(r) == assign_at(entries(ctx.symbols()), c@, pos as int),
{
    let q = skip_blank(c, pos);
    let (destination, e) = match ctx.parse_register(c, q) {
        Some(x) => x,
        None => return Err(syntax_error(c, "a register")),
    };
    let wide = matches!(destination, RegisterSource::CommandPointer | RegisterSource::CycleCount);
    let max: usize = if wide {
        0xffff
    } else {
        0xff
    };
    let r = skip_blank(c, e);
    if !char_at(c, r, '=') {
        return Err(syntax_error(c, "'=' after the register"));
    }
    let r2 = skip_blank(c, r + 1);
    if let Some((rs, e2)) = ctx.parse_register(c, r2) {
        return Ok((RegisterCommand::Assign { assignment: Assignment::new(Source::Register(rs), destination) }, e2));
    }
    let (value, e2) = if char_at(c, r2, '$') || char_at(c, r2, '#') {
        let (v, e2) = ctx.parse_address(c, r2)?;
        if v > max {
            let mut s = String::new();
            push_str(&mut s, "Value 0x");
            crate::text::push_hex(&mut s, v, 0, true);
            push_str(&mut s, " is too large for 8-bit register");
            return Err(AppError::new(s));
        }
        (v, e2)
    } else {
        ctx.parse_number(c, r2, max)?
    };
    Ok((RegisterCommand::Assign { assignment: Assignment::new(Source::Value(value), destination) }, e2))
}

/// Reads `run …` commands.
pub struct RunCommandParser<'a> {
    context: &'a ParserContext<'a>,
}

impl<'a> RunCommandParser<'a> {
    /// A parser resolving names in `context`.
    pub fn new(context: &'a ParserContext<'a>) -> (p: RunCommandParser<'a>)
        ensures
            p.context() == context,
    {
        RunCommandParser { context }
    }

    /// The context names are resolved in.
    pub closed spec fn context(&self) -> &'a ParserContext<'a> {
        self.context
    }

    /// What follows `run`: an optional start (`init` or an address), then
    /// optionally `until COND` (stop once it holds after an instruction)
    /// or `while COND` (go on while it holds before an instruction). With
    /// neither, one instruction is run.
    pub fn parse(&self, c: &Vec<char>, pos: usize) -> (r: AppResult<(RunCommand, usize)>)
        requires
            pos <= c@.len(),
            c@.len() < usize::MAX / 4,
        ensures
            r matches Ok((m, e)) ==> pos <= e <= c@.len() && command_ok(CliCommand::Run(m)),
            read_run(r) == run_at(entries(self.context().symbols()), c@, pos as int),
    {
        let ctx = self.context;
        let (start_address, e) = parse_run_start(ctx, c, pos)?;
        let p = skip_blank(c, e);
        if let Some(q) = keyword(c, p, "until") {
            let (cond, e2) = ctx.parse_condition(c, q)?;
            return Ok(
                (
                    RunCommand {
                        stop_condition: cond,
                        continue_condition: BooleanExpression::Value(true),
                        start_address,
                    },
                    e2,
                ),
            );
        }
        if let Some(q) = keyword(c, p, "while") {
            let (cond, e2) = ctx.parse_condition(c, q)?;
            return Ok(
                (
                    RunCommand {
                        stop_condition: BooleanExpression::Value(false),
                        continue_condition: cond,
                        start_address,
                    },
                    e2,
                ),
            );
        }
        Ok(
            (
                RunCommand {
                    stop_condition: BooleanExpression::Value(true),
                    continue_condition: BooleanExpression::Value(true),
                    start_address,
                },
                e,
            ),
        )
    }
}

/// The optional start of a run (see `run_start_at`).
fn parse_run_start(ctx: &ParserContext, c: &Vec<char>, pos: usize) -> (r: AppResult<(Option<RunAddress>, usize)>)
    requires
        pos <= c@.len(),
        c@.len() < usize::MAX / 4,
    ensures
        r matches Ok((a, e)) ==> pos <= e <= c@.len() && match a {
            Some(RunAddress::Memory(x)) => x < 0x10000,
            _ => true,
        },
        read(r) == run_start_at(entries(ctx.symbols()), c@, pos as int),
{
    let p = skip_blank(c, pos);
    if let Some(q) = keyword(c, p, "init") {
        return Ok((Some(RunAddress::InitVector), q));
    }
    if char_at(c, p, '#') || char_at(c, p, '$') {
        let (a, q) = ctx.parse_address(c, p)?;
        return Ok((Some(RunAddress::Memory(a)), q));
    }
    Ok((None, pos))
}

/// Reads `assert …` commands.
pub struct AssertCommandParser<'a> {
    context: &'a ParserContext<'a>,
}

impl<'a> AssertCommandParser<'a> {
    /// A parser resolving names in `context`.
    pub fn new(context: &'a ParserContext<'a>) -> (p: AssertCommandParser<'a>)
        ensures
            p.context() == context,
    {
        AssertCommandParser { context }
    }

    /// The context names are resolved in.
    pub closed spec fn context(&self) -> &'a ParserContext<'a> {
        self.context
    }

    /// What follows `assert`: a condition, then its description `$$…$$`.
    pub fn parse(&self, c: &Vec<char>, pos: usize) -> (r: AppResult<(AssertCommand, usize)>)
        requires
            pos <= c@.len(),
            c@.len() < usize::MAX / 4,
        ensures
            r matches Ok((m, e)) ==> pos <= e <= c@.len() && command_ok(CliCommand::Assert(m)),
            read_assert(r) == assert_at(entries(self.context().symbols()), c@, pos as int),
    {
        let ctx = self.context;
        let (condition, e) = ctx.parse_condition(c, pos)?;
        let p = skip_blank(c, e);
        let (comment, e2) = ctx.parse_description(c, p)?;
        Ok((AssertCommand { condition, comment }, e2))
    }
}

/// Reads one command of a script.
pub struct CliCommandParser<'a> {
    context: ParserContext<'a>,
}

impl<'a> CliCommandParser<'a> {
    /// Read `line` without symbols.
    pub fn from(line: &str) -> (r: AppResult<CliCommand>)
        ensures
            r matches Ok(cmd) ==> command_ok(cmd),
            match line_command(None, line@) {
                Some(v) => r matches Ok(cmd) && command_view(cmd) == v,
                None => r is Err,
            },
            line_error(None, line@) matches Some(m) ==> (r matches Err(e) && e.message@ == m),
    {
        Self::from_with_context(line, ParserContext::new(None))
    }

    /// Read `line`, resolving symbol names in `context`. An empty line, or
    /// one holding only a comment (`//` or `;`), gives `Nothing`; so does
    /// nothing else. Text that does not fit the grammar is refused with a
    /// message that quotes the line (see `line_error`); a disassembly of
    /// zero bytes with its own message.
    pub fn from_with_context(line: &str, context: ParserContext<'a>) -> (r: AppResult<CliCommand>)
        ensures
            r matches Ok(cmd) ==> command_ok(cmd),
            blank_or_comment(line@) ==> r matches Ok(CliCommand::Nothing),
            match line_command(entries(context.symbols()), line@) {
                Some(v) => r matches Ok(cmd) && command_view(cmd) == v,
                None => r is Err,
            },
            line_error(entries(context.symbols()), line@) matches Some(m) ==> (r matches Err(e) && e.message@ == m),
    {
        let parser = CliCommandParser { context };
        parser.parse_line(line)
    }

    fn parse_line(&self, line: &str) -> (r: AppResult<CliCommand>)
        ensures
            r matches Ok(cmd) ==> command_ok(cmd),
            blank_or_comment(line@) ==> r matches Ok(CliCommand::Nothing),
            match line_command(entries(self.context.symbols()), line@) {
                Some(v) => r matches Ok(cmd) && command_view(cmd) == v,
                None => r is Err,
            },
            zero_length_line(entries(self.context.symbols()), line@) ==> (r matches Err(e) && e.message@
                == zero_length_message()),
            unknown_command_line(line@) ==> (r matches Err(e) && e.message@ == syntax_message(
                line@,
                "a command"@,
            )),
            trailing_text_line(entries(self.context.symbols()), line@) ==> (r matches Err(e) && e.message@ == syntax_message(
                line@,
                "the end of the line"@,
            )),
            overlong_line(line@) ==> (r matches Err(e) && e.message@ == syntax_message(line@, "a shorter line"@)),
    {
        let c = chars_of_str(line);
        let p = skip_blank(&c, 0);
        proof {
            lemma_first_non_blank(c@, p as nat);
        }
        if p == c.len() || c[p] == ';' || (c[p] == '/' && p + 1 < c.len() && c[p + 1] == '/') {
            return Ok(CliCommand::Nothing);
        }
        if c.len() >= usize::MAX / 4 {
            return Err(syntax_error(&c, "a shorter line"));
        }
        let (cmd, e) = self.parse_command(&c, p)?;
        let q = skip_blank(&c, e);
        if q < c.len() && !starts_comment(&c, q) {
            return Err(syntax_error(&c, "the end of the line"));
        }
        Ok(cmd)
    }

    fn parse_command(&self, c: &Vec<char>, p: usize) -> (r: AppResult<(CliCommand, usize)>)
        requires
            p <= c@.len(),
            c@.len() < usize::MAX / 4,
        ensures
            r matches Ok((cmd, e)) ==> p <= e <= c@.len() && command_ok(cmd),
            read_command(r) == command_at(entries(self.context.symbols()), c@, p as int),
            zero_length_command(entries(self.context.symbols()), c@, p as int) ==> (r matches Err(e)
                && e.message@ == zero_length_message()),
            keyword_at(c@, p as int, "marker"@) is None && keyword_at(c@, p as int, "assert"@) is None && keyword_at(
                c@,
                p as int,
                "run"@,
            ) is None && keyword_at(c@, p as int, "registers"@) is None && keyword_at(c@, p as int, "memory"@) is None
                && keyword_at(c@, p as int, "symbols"@) is None && keyword_at(c@, p as int, "disassemble"@) is None
                && keyword_at(c@, p as int, "enable"@) is None && keyword_at(c@, p as int, "disable"@) is None ==> (
            r matches Err(e) && e.message@ == syntax_message(c@, "a command"@)),
    {
        let ctx = &self.context;
        if let Some(q) = keyword(c, p, "marker") {
            let q = skip_blank(c, q);
            let (d, e) = ctx.parse_description(c, q)?;
            return Ok((CliCommand::Marker(d), e));
        }
        if let Some(q) = keyword(c, p, "assert") {
            let (a, e) = AssertCommandParser::new(ctx).parse(c, q)?;
            return Ok((CliCommand::Assert(a), e));
        }
        if let Some(q) = keyword(c, p, "run") {
            let (a, e) = RunCommandParser::new(ctx).parse(c, q)?;
            return Ok((CliCommand::Run(a), e));
        }
        if let Some(q) = keyword(c, p, "registers") {
            let (a, e) = RegisterCommandParser::new(ctx).parse(c, q)?;
            return Ok((CliCommand::Registers(a), e));
        }
        if let Some(q) = keyword(c, p, "memory") {
            let (a, e) = MemoryCommandParser::new(ctx).parse(c, q)?;
            return Ok((CliCommand::Memory(a), e));
        }
        if let Some(q) = keyword(c, p, "symbols") {
            let (a, e) = MemoryCommandParser::new(ctx).parse_symbols(c, q)?;
            return Ok((CliCommand::Memory(a), e));
        }
        if let Some(q) = keyword(c, p, "disassemble") {
            return parse_disassemble(ctx, c, q);
        }
        if let Some(q) = keyword(c, p, "enable") {
            let (f, e) = parse_function(c, q)?;
            return Ok((CliCommand::Enable(f), e));
        }
        if let Some(q) = keyword(c, p, "disable") {
            let (f, e) = parse_function(c, q)?;
            return Ok((CliCommand::Disable(f), e));
        }
        Err(syntax_error(c, "a command"))
    }
}

/// After `disassemble` (see `disassemble_at`).
fn parse_disassemble(ctx: &ParserContext, c: &Vec<char>, pos: usize) -> (r: AppResult<(CliCommand, usize)>)
    requires
        pos <= c@.len(),
        c@.len() < usize::MAX / 4,
    ensures
        r matches Ok((cmd, e)) ==> pos <= e <= c@.len() && command_ok(cmd),
        read_command(r) == disassemble_at(entries(ctx.symbols()), c@, pos as int),
        zero_length_after(entries(ctx.symbols()), c@, pos as int) ==> (r matches Err(e) && e.message@
            == zero_length_message()),
{
    let q = skip_blank(c, pos);
    let (start, e) = ctx.parse_address(c, q)?;
    let r = skip_blank(c, e);
    if !(char_at(c, r, '0') && (char_at(c, r + 1, 'x') || char_at(c, r + 1, 'X'))) {
        return Err(syntax_error(c, "a hexadecimal length"));
    }
    let (length, e2) = ctx.parse_number(c, r, 0xffff)?;
    if length == 0 {
        let mut s = String::new();
        push_str(&mut s, "Length must be greater than 0");
        proof {
            reveal_strlit("Length must be greater than 0");
        }
        return Err(AppError::new(s));
    }
    Ok((CliCommand::Disassemble { start, end: start + length - 1 }, e2))
}

/// A feature name: `trace_logging`.
fn parse_function(c: &Vec<char>, pos: usize) -> (r: AppResult<(ControllableFunction, usize)>)
    requires
        pos <= c@.len(),
        c@.len() < usize::MAX / 4,
    ensures
        r matches Ok((_, e)) ==> pos <= e <= c@.len(),
        read(r) == function_at(c@, pos as int),
{
    let q = skip_blank(c, pos);
    let e = name_end(c, q);
    let name = slice_string(c, q, e);
    if same(&name, "trace_logging") {
        Ok((ControllableFunction::TraceLogging, e))
    } else {
        let mut s = String::new();
        push_str(&mut s, "Unknown function: ");
        push_str(&mut s, name.as_str());
        Err(AppError::new(s))
    }
}

/// Whether a line is blank, or blank up to a comment (`//` or `;`).
pub open spec fn blank_or_comment(line: Seq<char>) -> bool {
    exists|p: int| 0 <= p <= line.len() && #[trigger] blank_until_end(line, p)
}

/// Whether `line` is blank before `p`, and ends or starts a comment at `p`.
pub open spec fn blank_until_end(line: Seq<char>, p: int) -> bool {
    &&& forall|k: int| 0 <= k < p ==> is_blank(#[trigger] line[k])
    &&& p == line.len() || line[p] == ';' || (line[p] == '/' && p + 1 < line.len() && line[p + 1] == '/')
}

proof fn lemma_first_non_blank(c: Seq<char>, p: nat)
    requires
        p <= c.len(),
        forall|k: int| 0 <= k < p ==> is_blank(#[trigger] c[k]),
        p < c.len() ==> !is_blank(c[p as int]),
    ensures
        blank_or_comment(c) ==> (p == c.len() || c[p as int] == ';' || (c[p as int] == '/' && p + 1 < c.len() && c[p + 1int] == '/')),
{
    if blank_or_comment(c) {
        let q = choose|q: int| 0 <= q <= c.len() && #[trigger] blank_until_end(c, q);
        if q < p {
            assert(is_blank(c[q]));
        } else if q > p {
            assert(is_blank(c[p as int]));
        }
    }
}

} // verus!
