//! Listing of the instructions in a range of memory, with symbol names in
//! place of addresses and labels on branch targets.
use crate::addressing_mode::{relative_target, word, zero_page_relative_target, AddressingMode, resolve_relative, resolve_zero_page_relative};
use crate::cpu_instruction::{bytes_text, push_bytes, CPUInstruction};
use crate::error::{AppError, AppResult};
use crate::memory::{MemoryStack, AddressableIO};
use crate::processing_unit::{disassemble, disassembly, is_decoded};
use crate::symbols::{names_at, sort_spec, string_views, SymbolEntry, SymbolTable};
use crate::text::{dec_repr, hex2, hex4, pad_right, push_dec, push_hex2, push_hex4, push_padded, push_str};
use vstd::prelude::*;

verus! {

/// The eight conditional branches, which get labels on their targets.
pub open spec fn is_branch_mnemonic(m: Seq<char>) -> bool {
    ||| m == "BCC"@ || m == "BCS"@ || m == "BEQ"@ || m == "BMI"@
    ||| m == "BNE"@ || m == "BPL"@ || m == "BVC"@ || m == "BVS"@
}

/// Where a conditional branch goes.
pub open spec fn branch_target(i: CPUInstruction) -> Option<nat> {
    if is_branch_mnemonic(i.mnemonic@) {
        match i.addressing_mode {
            AddressingMode::Relative(a, v) => match relative_target(a, v[0]) {
                Some(t) => Some(t as nat),
                None => None,
            },
            _ => None,
        }
    } else {
        None
    }
}

/// The names of address `a` in the table, if any.
pub open spec fn sym_names(syms: Option<Seq<SymbolEntry>>, a: nat) -> Seq<Seq<char>> {
    match syms {
        Some(s) => names_at(s, (a % 0x10000) as u16),
        None => seq![],
    }
}

/// Whether some instruction of `all` is at `a` and `a` has a name.
pub open spec fn named_instruction(all: Seq<CPUInstruction>, syms: Option<Seq<SymbolEntry>>, a: nat) -> bool {
    exists|k: int| 0 <= k < all.len() && all[k].address == a && sym_names(syms, a).len() > 0
}

/// The branch targets that get a label, in the order in which the branches
/// appear among the first `n` instructions: those that are not the address
/// of a named instruction, each once.
pub open spec fn branch_labels(all: Seq<CPUInstruction>, syms: Option<Seq<SymbolEntry>>, n: nat) -> Seq<nat>
    decreases n,
{
    if n == 0 || n > all.len() {
        seq![]
    } else {
        let l = branch_labels(all, syms, (n - 1) as nat);
        match branch_target(all[n - 1]) {
            Some(t) => if !named_instruction(all, syms, t) && !l.contains(t) {
                l.push(t)
            } else {
                l
            },
            None => l,
        }
    }
}

/// Position of `a` in `l` (its length when absent).
pub open spec fn position(l: Seq<nat>, a: nat) -> nat
    decreases l.len(),
{
    if l.len() == 0 {
        0
    } else if l[0] == a {
        0
    } else {
        1 + position(l.drop_first(), a)
    }
}

/// The label of branch target `a`: `branch_N`, N counting from one.
pub open spec fn label_text(labels: Seq<nat>, a: nat) -> Seq<char> {
    "branch_"@ + dec_repr(position(labels, a) + 1)
}

/// Lexicographically least name of `ns`.
pub open spec fn least_name(ns: Seq<Seq<char>>) -> Seq<char> {
    sort_spec(ns)[0]
}

/// What stands for address `a` in an operand: its least name, else its
/// branch label.
pub open spec fn name_for(syms: Option<Seq<SymbolEntry>>, labels: Seq<nat>, a: nat) -> Option<Seq<char>> {
    if sym_names(syms, a).len() > 0 {
        Some(least_name(sym_names(syms, a)))
    } else if labels.contains(a) {
        Some(label_text(labels, a))
    } else {
        None
    }
}

/// `name` if there is one, else `fallback`.
pub open spec fn or_else(name: Option<Seq<char>>, fallback: Seq<char>) -> Seq<char> {
    match name {
        Some(n) => n,
        None => fallback,
    }
}

/// The operand of an instruction in a listing.
pub open spec fn listed_operand(mode: AddressingMode, syms: Option<Seq<SymbolEntry>>, labels: Seq<nat>) -> Seq<char> {
    let n = |a: nat| name_for(syms, labels, a);
    match mode {
        AddressingMode::Implied => seq![],
        AddressingMode::Accumulator => "A"@,
        AddressingMode::Immediate(v) => "#$"@ + hex2(v[0]),
        AddressingMode::ZeroPage(v) => or_else(n(v[0] as nat), "$"@ + hex2(v[0])),
        AddressingMode::ZeroPageXIndexed(v) => or_else(n(v[0] as nat), "$"@ + hex2(v[0])) + ",X"@,
        AddressingMode::ZeroPageYIndexed(v) => or_else(n(v[0] as nat), "$"@ + hex2(v[0])) + ",Y"@,
        AddressingMode::ZeroPageXIndexedIndirect(v) => "("@ + or_else(n(v[0] as nat), "$"@ + hex2(v[0])) + ",X)"@,
        AddressingMode::ZeroPageIndirectYIndexed(v) => "("@ + or_else(n(v[0] as nat), "$"@ + hex2(v[0])) + "),Y"@,
        AddressingMode::ZeroPageIndirect(v) => "("@ + or_else(n(v[0] as nat), "$"@ + hex2(v[0])) + ")"@,
        AddressingMode::Absolute(v) => or_else(n(word(v[0], v[1])), "$"@ + hex4(word(v[0], v[1]))),
        AddressingMode::AbsoluteXIndexed(v) => or_else(n(word(v[0], v[1])), "$"@ + hex4(word(v[0], v[1]))) + ",X"@,
        AddressingMode::AbsoluteYIndexed(v) => or_else(n(word(v[0], v[1])), "$"@ + hex4(word(v[0], v[1]))) + ",Y"@,
        AddressingMode::Indirect(v) => "("@ + or_else(n(word(v[0], v[1])), "$"@ + hex4(word(v[0], v[1]))) + ")"@,
        AddressingMode::AbsoluteXIndexedIndirect(v) => "("@ + or_else(n(word(v[0], v[1])), "$"@ + hex4(word(v[0], v[1])))
            + ",X)"@,
        AddressingMode::Relative(a, v) => match relative_target(a, v[0]) {
            Some(t) => or_else(n(t as nat), "$"@ + hex4(t as nat)),
            None => "$"@ + hex2(v[0]),
        },
        AddressingMode::ZeroPageRelative(a, v) => or_else(n(v[0] as nat), "$"@ + hex2(v[0])) + ","@ + match zero_page_relative_target(a, v[1]) {
            Some(t) => or_else(n(t as nat), "$"@ + hex4(t as nat)),
            None => "$"@ + hex2(v[1]),
        },
    }
}

/// An instruction line of a listing: `#0x1002: (8d 34 12)  STA  COUNTER`.
pub open spec fn listed_line(i: CPUInstruction, syms: Option<Seq<SymbolEntry>>, labels: Seq<nat>) -> Seq<char> {
    "#0x"@ + hex4(i.address as nat) + ": "@ + pad_right(bytes_text(i.opcode, crate::addressing_mode::operands(i.addressing_mode)) + ")"@, 12)
        + pad_right(i.mnemonic@, 4) + if i.addressing_mode is Implied {
        Seq::<char>::empty()
    } else {
        " "@ + listed_operand(i.addressing_mode, syms, labels)
    }
}

/// Whether `a` is the target of a branch among `all`.
pub open spec fn is_branch_target(all: Seq<CPUInstruction>, a: nat) -> bool {
    exists|k: int| 0 <= k < all.len() && branch_target(all[k]) == Some(a)
}

/// `ns` joined with `, `.
pub open spec fn join_names(ns: Seq<Seq<char>>) -> Seq<char>
    decreases ns.len(),
{
    if ns.len() == 0 {
        seq![]
    } else if ns.len() == 1 {
        ns[0]
    } else {
        join_names(ns.drop_last()) + ", "@ + ns.last()
    }
}

/// The lines listing instruction `i`: its names, or its branch label, then
/// the instruction itself.
pub open spec fn listed_block(
    all: Seq<CPUInstruction>,
    syms: Option<Seq<SymbolEntry>>,
    labels: Seq<nat>,
    i: CPUInstruction,
) -> Seq<Seq<char>> {
    let names = sym_names(syms, i.address as nat);
    let named: Seq<Seq<char>> = if names.len() > 0 {
        seq![join_names(sort_spec(names)) + ":"@]
    } else {
        seq![]
    };
    let labelled: Seq<Seq<char>> = if is_branch_target(all, i.address as nat) && names.len() == 0 {
        seq![label_text(labels, i.address as nat) + ":"@]
    } else {
        seq![]
    };
    named + labelled + seq![listed_line(i, syms, labels)]
}

/// The blocks of the first `n` instructions of `all`.
pub open spec fn listed_blocks(
    all: Seq<CPUInstruction>,
    syms: Option<Seq<SymbolEntry>>,
    labels: Seq<nat>,
    n: nat,
) -> Seq<Seq<char>>
    decreases n,
{
    if n == 0 || n > all.len() {
        seq![]
    } else {
        listed_blocks(all, syms, labels, (n - 1) as nat) + listed_block(all, syms, labels, all[n - 1])
    }
}

/// The whole listing of the instructions `all`.
pub open spec fn listing(all: Seq<CPUInstruction>, syms: Option<Seq<SymbolEntry>>) -> Seq<Seq<char>> {
    let labels = branch_labels(all, syms, all.len());
    seq!["---- Start of disassembly ----"@] + listed_blocks(all, syms, labels, all.len()) + seq![
        "----- End of disassembly -----"@,
    ]
}

/// Whether `all` are the instructions decoded from `start` while below `end`.
pub open spec fn decoded_range(start: usize, end: usize, mem: Seq<u8>, all: Seq<CPUInstruction>) -> bool {
    match disassembly(start, end, mem) {
        Ok(ds) => all.len() == ds.len() && forall|k: int| 0 <= k < ds.len() ==> is_decoded(#[trigger] all[k], ds[k].0, ds[k].1),
        Err(_) => false,
    }
}

/// The symbol entries of an optional table.
pub open spec fn table_view(t: Option<SymbolTable>) -> Option<Seq<SymbolEntry>> {
    match t {
        Some(s) => Some(s@),
        None => None,
    }
}

/// Lists the instructions of a range of memory.
pub struct Disassembler<'a> {
    memory: &'a MemoryStack,
    symbols: &'a Option<SymbolTable>,
}

impl<'a> Disassembler<'a> {
    /// A disassembler of `memory` that names addresses after `symbols`.
    pub fn new(memory: &'a MemoryStack, symbols: &'a Option<SymbolTable>) -> (d: Disassembler<'a>)
        ensures
            d.memory() == memory,
            d.symbols() == symbols,
    {
        Disassembler { memory, symbols }
    }

    /// The memory listed.
    pub closed spec fn memory(&self) -> &'a MemoryStack {
        self.memory
    }

    /// The symbols used.
    pub closed spec fn symbols(&self) -> &'a Option<SymbolTable> {
        self.symbols
    }

    /// The listing of the instructions from `start` to `end` (an
    /// instruction starting at `end` included); an error when one cannot
    /// be decoded.
    pub fn disassemble_range(&self, start: usize, end: usize) -> (r: AppResult<Vec<String>>)
        requires
            end < usize::MAX,
        ensures
            disassembly(start, (end + 1) as usize, self.memory().contents()) is Ok <==> r is Ok,
            r matches Ok(lines) ==> exists|all: Seq<CPUInstruction>|
                decoded_range(start, (end + 1) as usize, self.memory().contents(), all) && #[trigger] line_texts(
                    lines@,
                ) == listing(all, table_view(*self.symbols())),
    {
        let instructions = match disassemble(start, end + 1, self.memory) {
            Ok(v) => v,
            Err(e) => {
                let mut s = String::new();
                push_str(&mut s, "cannot disassemble the range");
                return Err(AppError::new(s));
            },
        };
        let ghost all = instructions@;
        let labels = collect_labels(&instructions, self.symbols);
        let mut out: Vec<String> = Vec::new();
        let mut s = String::new();
        push_str(&mut s, "---- Start of disassembly ----");
        out.push(s);
        let ghost syms = table_view(*self.symbols);
        let mut i: usize = 0;
        while i < instructions.len()
            invariant
                all == instructions@,
                i <= all.len(),
                nat_seq(labels@) == branch_labels(all, syms, all.len()),
                syms == table_view(*self.symbols),
                line_texts(out@) == seq!["---- Start of disassembly ----"@] + listed_blocks(all, syms, nat_seq(labels@), i as nat),
            decreases all.len() - i,
        {
            let ghost before = line_texts(out@);
            push_block(&mut out, &instructions, self.symbols, &labels, i);
            assert(before + listed_block(all, syms, nat_seq(labels@), all[i as int]) =~= seq![
                "---- Start of disassembly ----"@,
            ] + listed_blocks(all, syms, nat_seq(labels@), (i + 1) as nat));
            i = i + 1;
        }
        let mut s = String::new();
        push_str(&mut s, "----- End of disassembly -----");
        let ghost before = line_texts(out@);
        out.push(s);
        proof {
            reveal_strlit("---- Start of disassembly ----");
            reveal_strlit("----- End of disassembly -----");
            assert(line_texts(out@) =~= before.push("----- End of disassembly -----"@));
            assert(line_texts(out@) =~= listing(all, syms));
            assert(decoded_range(start, (end + 1) as usize, self.memory.contents(), all));
        }
        Ok(out)
    }
}

/// The texts of `lines`.
pub open spec fn line_texts(lines: Seq<String>) -> Seq<Seq<char>> {
    lines.map_values(|l: String| l@)
}

/// Whether `a` has a name in `symbols`.
fn has_names(symbols: &Option<SymbolTable>, a: usize) -> (r: bool)
    ensures
        r == (sym_names(table_view(*symbols), a as nat).len() > 0),
{
    match symbols {
        Some(t) => t.get_symbols_at((a % 0x10000) as u16).is_some(),
        None => false,
    }
}

/// Whether `m` is `t`.
fn same_text(m: &String, t: &str) -> (r: bool)
    ensures
        r == (m@ == t@),
{
    *m == String::from_str(t)
}

/// The branch target of `i`, if it is a conditional branch.
fn target_of(i: &CPUInstruction) -> (r: Option<usize>)
    ensures
        match branch_target(*i) {
            Some(t) => r == Some(t as usize),
            None => r is None,
        },
{
    let m = &i.mnemonic;
    let branch = same_text(m, "BCC") || same_text(m, "BCS") || same_text(m, "BEQ") || same_text(m, "BMI")
        || same_text(m, "BNE") || same_text(m, "BPL") || same_text(m, "BVC") || same_text(m, "BVS");
    if !branch {
        return None;
    }
    match i.addressing_mode {
        AddressingMode::Relative(a, v) => resolve_relative(a, v[0]),
        _ => None,
    }
}

/// The values of `v` as natural numbers.
pub open spec fn nat_seq(v: Seq<usize>) -> Seq<nat> {
    v.map_values(|x: usize| x as nat)
}

/// Whether an instruction of `instrs` is at `a` and `a` has a name.
fn is_named_instruction(instrs: &Vec<CPUInstruction>, symbols: &Option<SymbolTable>, a: usize) -> (r: bool)
    ensures
        r == named_instruction(instrs@, table_view(*symbols), a as nat),
{
    if !has_names(symbols, a) {
        return false;
    }
    let mut k: usize = 0;
    while k < instrs.len()
        invariant
            k <= instrs@.len(),
            sym_names(table_view(*symbols), a as nat).len() > 0,
            forall|j: int| 0 <= j < k ==> instrs@[j].address != a,
        decreases instrs@.len() - k,
    {
        if instrs[k].address == a {
            assert(0 <= k < instrs@.len() && instrs@[k as int].address == a as nat && sym_names(
                table_view(*symbols),
                a as nat,
            ).len() > 0);
            return true;
        }
        k = k + 1;
    }
    false
}

/// Whether `l` holds `a`, and where.
fn find(l: &Vec<usize>, a: usize) -> (r: Option<usize>)
    ensures
        nat_seq(l@).contains(a as nat) <==> r is Some,
        r matches Some(p) ==> p == position(nat_seq(l@), a as nat) && p < l@.len(),
{
    let ghost v = nat_seq(l@);
    assert(v.subrange(0, v.len() as int) =~= v);
    let mut k: usize = 0;
    while k < l.len()
        invariant
            v == nat_seq(l@),
            k <= l@.len(),
            forall|j: int| 0 <= j < k ==> l@[j] != a,
            position(v, a as nat) == k + position(v.subrange(k as int, v.len() as int), a as nat),
        decreases l@.len() - k,
    {
        let ghost rest = v.subrange(k as int, v.len() as int);
        if l[k] == a {
            assert(rest[0] == a as nat);
            assert(v[k as int] == a as nat);
            return Some(k);
        }
        assert(rest.drop_first() =~= v.subrange(k + 1, v.len() as int));
        k = k + 1;
    }
    proof {
        if v.contains(a as nat) {
            let j = choose|j: int| 0 <= j < v.len() && v[j] == a as nat;
            assert(l@[j] == a);
        }
    }
    None
}

/// The branch targets to label, in order of first appearance.
fn collect_labels(instrs: &Vec<CPUInstruction>, symbols: &Option<SymbolTable>) -> (l: Vec<usize>)
    ensures
        nat_seq(l@) == branch_labels(instrs@, table_view(*symbols), instrs@.len()),
{
    let ghost all = instrs@;
    let ghost syms = table_view(*symbols);
    let mut l: Vec<usize> = Vec::new();
    let mut i: usize = 0;
    while i < instrs.len()
        invariant
            all == instrs@,
            syms == table_view(*symbols),
            i <= all.len(),
            nat_seq(l@) == branch_labels(all, syms, i as nat),
        decreases all.len() - i,
    {
        match target_of(&instrs[i]) {
            Some(t) => {
                if !is_named_instruction(instrs, symbols, t) && find(&l, t).is_none() {
                    let ghost before = nat_seq(l@);
                    l.push(t);
                    assert(nat_seq(l@) =~= before.push(t as nat));
                }
            },
            None => {},
        }
        i = i + 1;
    }
    l
}

/// Whether `a` is the target of a branch of `instrs`.
fn is_target(instrs: &Vec<CPUInstruction>, a: usize) -> (r: bool)
    ensures
        r == is_branch_target(instrs@, a as nat),
{
    let mut k: usize = 0;
    while k < instrs.len()
        invariant
            k <= instrs@.len(),
            forall|j: int| 0 <= j < k ==> branch_target(instrs@[j]) != Some(a as nat),
        decreases instrs@.len() - k,
    {
        if target_of(&instrs[k]) == Some(a) {
            return true;
        }
        k = k + 1;
    }
    false
}

/// The label of a branch target: `branch_N`.
fn label_string(labels: &Vec<usize>, a: usize) -> (s: String)
    requires
        nat_seq(labels@).contains(a as nat),
    ensures
        s@ == label_text(nat_seq(labels@), a as nat),
{
    let p = find(labels, a).unwrap();
    let n = labels.len();
    let mut s = String::new();
    push_str(&mut s, "branch_");
    push_dec(&mut s, (p + 1) as u128);
    proof {
        reveal_strlit("branch_");
    }
    s
}

/// What stands for `a` in an operand, if anything.
fn name_of(symbols: &Option<SymbolTable>, labels: &Vec<usize>, a: usize) -> (r: Option<String>)
    ensures
        match name_for(table_view(*symbols), nat_seq(labels@), a as nat) {
            Some(n) => r matches Some(s) && s@ == n,
            None => r is None,
        },
{
    if has_names(symbols, a) {
        match symbols {
            Some(t) => {
                let names = t.get_symbols_for_address((a % 0x10000) as u16);
                return Some(names[0].clone());
            },
            None => {
                return None;
            },
        }
    }
    match find(labels, a) {
        Some(_) => Some(label_string(labels, a)),
        None => None,
    }
}

/// Appends the name for `a`, or `$` and its hexadecimal digits (`width`
/// of them, upper case when four).
fn push_name_or_hex(s: &mut String, symbols: &Option<SymbolTable>, labels: &Vec<usize>, a: usize, width: usize)
    requires
        width == 2 || width == 4,
    ensures
        final(s)@ == old(s)@ + or_else(
            name_for(table_view(*symbols), nat_seq(labels@), a as nat),
            "$"@ + if width == 2 {
                hex2(a as u8)
            } else {
                hex4(a as nat)
            },
        ),
{
    match name_of(symbols, labels, a) {
        Some(n) => push_str(s, n.as_str()),
        None => {
            push_str(s, "$");
            if width == 2 {
                push_hex2(s, a as u8);
            } else {
                push_hex4(s, a);
            }
        },
    }
}

/// Appends the operand of an instruction with mode `mode`.
fn push_zp_operand(s: &mut String, mode: AddressingMode, symbols: &Option<SymbolTable>, labels: &Vec<usize>)
    requires
        mode is ZeroPage || mode is ZeroPageXIndexed || mode is ZeroPageYIndexed || mode is ZeroPageXIndexedIndirect || mode is ZeroPageIndirectYIndexed || mode is ZeroPageIndirect,
    ensures
        final(s)@ == old(s)@ + listed_operand(mode, table_view(*symbols), nat_seq(labels@)),
{
    let ghost start = s@;
    match mode {
        AddressingMode::ZeroPage(v) => {
            push_name_or_hex(s, symbols, labels, v[0] as usize, 2);
        },
        AddressingMode::ZeroPageXIndexed(v) => {
            push_name_or_hex(s, symbols, labels, v[0] as usize, 2);
            push_str(s, ",X");
        },
        AddressingMode::ZeroPageYIndexed(v) => {
            push_name_or_hex(s, symbols, labels, v[0] as usize, 2);
            push_str(s, ",Y");
        },
        AddressingMode::ZeroPageXIndexedIndirect(v) => {
            push_str(s, "(");
            push_name_or_hex(s, symbols, labels, v[0] as usize, 2);
            push_str(s, ",X)");
        },
        AddressingMode::ZeroPageIndirectYIndexed(v) => {
            push_str(s, "(");
            push_name_or_hex(s, symbols, labels, v[0] as usize, 2);
            push_str(s, "),Y");
        },
        AddressingMode::ZeroPageIndirect(v) => {
            push_str(s, "(");
            push_name_or_hex(s, symbols, labels, v[0] as usize, 2);
            push_str(s, ")");
        },
        _ => {},
    }
    assert(s@ =~= start + listed_operand(mode, table_view(*symbols), nat_seq(labels@)));
}

/// Appends the operand of an instruction with mode `mode`.
fn push_abs_operand(s: &mut String, mode: AddressingMode, symbols: &Option<SymbolTable>, labels: &Vec<usize>)
    requires
        mode is Absolute || mode is AbsoluteXIndexed || mode is AbsoluteYIndexed || mode is Indirect || mode is AbsoluteXIndexedIndirect,
    ensures
        final(s)@ == old(s)@ + listed_operand(mode, table_view(*symbols), nat_seq(labels@)),
{
    let ghost start = s@;
    match mode {
        AddressingMode::Absolute(v) => {
            push_name_or_hex(s, symbols, labels, v[0] as usize + 256 * v[1] as usize, 4);
        },
        AddressingMode::AbsoluteXIndexed(v) => {
            push_name_or_hex(s, symbols, labels, v[0] as usize + 256 * v[1] as usize, 4);
            push_str(s, ",X");
        },
        AddressingMode::AbsoluteYIndexed(v) => {
            push_name_or_hex(s, symbols, labels, v[0] as usize + 256 * v[1] as usize, 4);
            push_str(s, ",Y");
        },
        AddressingMode::Indirect(v) => {
            push_str(s, "(");
            push_name_or_hex(s, symbols, labels, v[0] as usize + 256 * v[1] as usize, 4);
            push_str(s, ")");
        },
        AddressingMode::AbsoluteXIndexedIndirect(v) => {
            push_str(s, "(");
            push_name_or_hex(s, symbols, labels, v[0] as usize + 256 * v[1] as usize, 4);
            push_str(s, ",X)");
        },
        _ => {},
    }
    assert(s@ =~= start + listed_operand(mode, table_view(*symbols), nat_seq(labels@)));
}

/// Appends the operand of an instruction with mode `mode`.
fn push_rel_operand(s: &mut String, mode: AddressingMode, symbols: &Option<SymbolTable>, labels: &Vec<usize>)
    requires
        mode is Relative || mode is ZeroPageRelative,
    ensures
        final(s)@ == old(s)@ + listed_operand(mode, table_view(*symbols), nat_seq(labels@)),
{
    let ghost start = s@;
    match mode {
        AddressingMode::Relative(a, v) => {
            match resolve_relative(a, v[0]) {
                Some(t) => push_name_or_hex(s, symbols, labels, t, 4),
                None => {
                    push_str(s, "$");
                    push_hex2(s, v[0]);
                },
            }
        },
        AddressingMode::ZeroPageRelative(a, v) => {
            push_name_or_hex(s, symbols, labels, v[0] as usize, 2);
            push_str(s, ",");
            match resolve_zero_page_relative(a, v[1]) {
                Some(t) => push_name_or_hex(s, symbols, labels, t, 4),
                None => {
                    push_str(s, "$");
                    push_hex2(s, v[1]);
                },
            }
        },
        _ => {},
    }
    assert(s@ =~= start + listed_operand(mode, table_view(*symbols), nat_seq(labels@)));
}

/// The listing line of one instruction.
fn listed_line_of(i: &CPUInstruction, symbols: &Option<SymbolTable>, labels: &Vec<usize>) -> (s: String)
    ensures
        s@ == listed_line(*i, table_view(*symbols), nat_seq(labels@)),
{
    let mut s = String::new();
    push_str(&mut s, "#0x");
    push_hex4(&mut s, i.address);
    push_str(&mut s, ": ");
    let mut b = String::new();
    let ops = i.addressing_mode.get_operands();
    push_bytes(&mut b, i.opcode, &ops);
    push_padded(&mut s, &b, 12);
    push_padded(&mut s, &i.mnemonic, 4);
    let ghost head = s@;
    match i.addressing_mode {
        AddressingMode::Implied => {},
        AddressingMode::Accumulator => {
            push_str(&mut s, " ");
            push_str(&mut s, "A");
        },
        AddressingMode::Immediate(v) => {
            push_str(&mut s, " ");
            push_str(&mut s, "#$");
            push_hex2(&mut s, v[0]);
        },
        AddressingMode::Relative(_, _) | AddressingMode::ZeroPageRelative(_, _) => {
            push_str(&mut s, " ");
            push_rel_operand(&mut s, i.addressing_mode, symbols, labels);
        },
        AddressingMode::Absolute(_) | AddressingMode::AbsoluteXIndexed(_) | AddressingMode::AbsoluteYIndexed(_)
        | AddressingMode::Indirect(_) | AddressingMode::AbsoluteXIndexedIndirect(_) => {
            push_str(&mut s, " ");
            push_abs_operand(&mut s, i.addressing_mode, symbols, labels);
        },
        _ => {
            push_str(&mut s, " ");
            push_zp_operand(&mut s, i.addressing_mode, symbols, labels);
        },
    }
    assert(s@ =~= listed_line(*i, table_view(*symbols), nat_seq(labels@)));
    s
}

/// Every branch target that is not the address of a named instruction
/// gets a label.
proof fn lemma_labelled(all: Seq<CPUInstruction>, syms: Option<Seq<SymbolEntry>>, n: nat, k: int, t: nat)
    requires
        0 <= k < n <= all.len(),
        branch_target(all[k]) == Some(t),
        !named_instruction(all, syms, t),
    ensures
        branch_labels(all, syms, n).contains(t),
    decreases n,
{
    if k < n - 1 {
        lemma_labelled(all, syms, (n - 1) as nat, k, t);
        let l = branch_labels(all, syms, (n - 1) as nat);
        let j = choose|j: int| 0 <= j < l.len() && l[j] == t;
        assert(branch_labels(all, syms, n)[j] == t);
    } else {
        let l = branch_labels(all, syms, (n - 1) as nat);
        if l.contains(t) {
            let j = choose|j: int| 0 <= j < l.len() && l[j] == t;
            assert(branch_labels(all, syms, n)[j] == t);
        } else {
            assert(branch_labels(all, syms, n).last() == t);
        }
    }
}

/// `v` joined with `, `.
fn join_strings(v: &Vec<String>) -> (s: String)
    ensures
        s@ == join_names(string_views(v@)),
{
    let mut s = String::new();
    let mut i: usize = 0;
    while i < v.len()
        invariant
            i <= v@.len(),
            s@ == join_names(string_views(v@.subrange(0, i as int))),
        decreases v@.len() - i,
    {
        if i > 0 {
            push_str(&mut s, ", ");
        }
        push_str(&mut s, v[i].as_str());
        i = i + 1;
        assert(string_views(v@.subrange(0, i as int)).drop_last() =~= string_views(v@.subrange(0, i - 1)));
    }
    assert(v@.subrange(0, v@.len() as int) =~= v@);
    s
}

/// Appends the lines listing instruction `i`.
fn push_block(
    out: &mut Vec<String>,
    instrs: &Vec<CPUInstruction>,
    symbols: &Option<SymbolTable>,
    labels: &Vec<usize>,
    i: usize,
)
    requires
        i < instrs@.len(),
        nat_seq(labels@) == branch_labels(instrs@, table_view(*symbols), instrs@.len()),
    ensures
        line_texts(final(out)@) == line_texts(old(out)@) + listed_block(
            instrs@,
            table_view(*symbols),
            nat_seq(labels@),
            instrs@[i as int],
        ),
{
    let ghost all = instrs@;
    let ghost syms = table_view(*symbols);
    let ghost start = line_texts(out@);
    let instr = &instrs[i];
    let a = instr.address;
    let ghost names = sym_names(syms, a as nat);
    let mut named = false;
    match symbols {
        Some(t) => {
            let v = t.get_symbols_for_address((a % 0x10000) as u16);
            if v.len() > 0 {
                let mut line = join_strings(&v);
                push_str(&mut line, ":");
                out.push(line);
                named = true;
            }
        },
        None => {},
    }
    assert(named == (names.len() > 0));
    let ghost mid = line_texts(out@);
    assert(mid == start + if names.len() > 0 {
        seq![join_names(sort_spec(names)) + ":"@]
    } else {
        Seq::<Seq<char>>::empty()
    });
    if !named && is_target(instrs, a) {
        proof {
            let k = choose|k: int| 0 <= k < all.len() && branch_target(all[k]) == Some(a as nat);
            assert(!named_instruction(all, syms, a as nat));
            lemma_labelled(all, syms, all.len(), k, a as nat);
        }
        let mut line = label_string(labels, a);
        push_str(&mut line, ":");
        out.push(line);
    }
    let line = listed_line_of(instr, symbols, labels);
    out.push(line);
    assert(line_texts(out@) =~= start + listed_block(all, syms, nat_seq(labels@), all[i as int]));
}

/// A label found among the first `n` instructions stays among the first
/// `m`.
proof fn lemma_branch_labels_grow(all: Seq<CPUInstruction>, syms: Option<Seq<SymbolEntry>>, n: nat, m: nat, t: nat)
    requires
        n <= m <= all.len(),
        branch_labels(all, syms, n).contains(t),
    ensures
        branch_labels(all, syms, m).contains(t),
    decreases m - n,
{
    if n < m {
        lemma_branch_labels_grow(all, syms, n, (m - 1) as nat, t);
        let l = branch_labels(all, syms, (m - 1) as nat);
        let i = choose|i: int| 0 <= i < l.len() && l[i] == t;
        match branch_target(all[m - 1]) {
            Some(x) => if !named_instruction(all, syms, x) && !l.contains(x) {
                assert(l.push(x)[i] == t);
            },
            None => {},
        }
    }
}

/// Each of the eight conditional branches (BCC, BCS, BEQ, BMI, BNE, BPL,
/// BVC, BVS) whose target is not the address of a named instruction gets a
/// branch label at its target; the branch shows that label as its operand
/// unless the target has a name, and an instruction at the target without
/// a name is listed after a line with the label.
pub proof fn law_conditional_branch_targets_are_labelled(
    all: Seq<CPUInstruction>,
    syms: Option<Seq<SymbolEntry>>,
    k: int,
    j: int,
)
    requires
        0 <= k < all.len(),
        seq!["BCC"@, "BCS"@, "BEQ"@, "BMI"@, "BNE"@, "BPL"@, "BVC"@, "BVS"@].contains(all[k].mnemonic@),
        all[k].addressing_mode matches AddressingMode::Relative(a, v) && relative_target(a, v[0]) is Some,
        !named_instruction(all, syms, branch_destination(all[k])),
    ensures
        ({
            let t = branch_destination(all[k]);
            let labels = branch_labels(all, syms, all.len());
            &&& labels.contains(t)
            &&& sym_names(syms, t).len() == 0 ==> listed_operand(all[k].addressing_mode, syms, labels) == label_text(labels, t)
            &&& (0 <= j < all.len() && all[j].address == t && sym_names(syms, t).len() == 0) ==> listed_block(
                all,
                syms,
                labels,
                all[j],
            )[0] == label_text(labels, t) + ":"@
        }),
{
    let t = branch_destination(all[k]);
    assert(branch_target(all[k]) == Some(t));
    let l = branch_labels(all, syms, k as nat);
    assert(branch_labels(all, syms, (k + 1) as nat).contains(t)) by {
        if l.contains(t) {
            lemma_branch_labels_grow(all, syms, k as nat, (k + 1) as nat, t);
        } else {
            assert(branch_labels(all, syms, (k + 1) as nat) == l.push(t));
            assert(l.push(t)[l.len() as int] == t);
        }
    }
    lemma_branch_labels_grow(all, syms, (k + 1) as nat, all.len(), t);
    assert(is_branch_target(all, t));
}

/// Where the branch of a `Relative` instruction goes (its offset taken
/// from the address after it).
pub open spec fn branch_destination(i: CPUInstruction) -> nat {
    match i.addressing_mode {
        AddressingMode::Relative(a, v) => match relative_target(a, v[0]) {
            Some(t) => t as nat,
            None => 0,
        },
        _ => 0,
    }
}

} // verus!
