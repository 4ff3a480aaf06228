//! Named addresses: a symbol table that maps each name to one 16 bit
//! address, and lists the names given to an address.
use crate::text::{chars_of, hex_value, hex_digit_value, is_space, is_space_char, string_of};
use vstd::prelude::*;

verus! {

/// A symbol: its name and the address it stands for.
pub type SymbolEntry = (Seq<char>, u16);

/// Whether no name occurs twice in `s`.
pub open spec fn names_distinct(s: Seq<SymbolEntry>) -> bool {
    forall|i: int, j: int| 0 <= i < j < s.len() ==> #[trigger] s[i].0 != #[trigger] s[j].0
}

/// The address given to `name` in `s`.
pub open spec fn lookup(s: Seq<SymbolEntry>, name: Seq<char>) -> Option<u16>
    decreases s.len(),
{
    if s.len() == 0 {
        None
    } else if s.last().0 == name {
        Some(s.last().1)
    } else {
        lookup(s.drop_last(), name)
    }
}

/// `s` without the entry of `name`.
pub open spec fn without(s: Seq<SymbolEntry>, name: Seq<char>) -> Seq<SymbolEntry>
    decreases s.len(),
{
    if s.len() == 0 {
        s
    } else if s.last().0 == name {
        without(s.drop_last(), name)
    } else {
        without(s.drop_last(), name).push(s.last())
    }
}

/// The names given to `addr` in `s`, in the order in which they were given.
pub open spec fn names_at(s: Seq<SymbolEntry>, addr: u16) -> Seq<Seq<char>>
    decreases s.len(),
{
    if s.len() == 0 {
        seq![]
    } else if s.last().1 == addr {
        names_at(s.drop_last(), addr).push(s.last().0)
    } else {
        names_at(s.drop_last(), addr)
    }
}

/// The table after `name` was given `addr`: a name has one address, so any
/// earlier entry of the name goes, and the new one comes last.
pub open spec fn with_symbol(s: Seq<SymbolEntry>, name: Seq<char>, addr: u16) -> Seq<SymbolEntry> {
    without(s, name).push((name, addr))
}

/// Lexicographic order on names: whether `a` sorts strictly before `b`.
pub open spec fn name_before(a: Seq<char>, b: Seq<char>) -> bool
    decreases a.len(),
{
    if b.len() == 0 {
        false
    } else if a.len() == 0 {
        true
    } else if a[0] != b[0] {
        a[0] < b[0]
    } else {
        name_before(a.drop_first(), b.drop_first())
    }
}

/// `v`, which is sorted, with `x` inserted before the first name it sorts
/// before.
pub open spec fn insert_sorted(v: Seq<Seq<char>>, x: Seq<char>) -> Seq<Seq<char>>
    decreases v.len(),
{
    if v.len() == 0 {
        seq![x]
    } else if name_before(x, v[0]) {
        seq![x] + v
    } else {
        seq![v[0]] + insert_sorted(v.drop_first(), x)
    }
}

/// `v` sorted lexicographically (by insertion, first to last).
pub open spec fn sort_spec(v: Seq<Seq<char>>) -> Seq<Seq<char>>
    decreases v.len(),
{
    if v.len() == 0 {
        v
    } else {
        insert_sorted(sort_spec(v.drop_last()), v.last())
    }
}

/// Whether `s` is in increasing lexicographic order.
pub open spec fn names_sorted(s: Seq<Seq<char>>) -> bool {
    forall|i: int, j: int| 0 <= i < j < s.len() ==> name_before(#[trigger] s[i], #[trigger] s[j])
}

/// The names of `v`.
pub open spec fn string_views(v: Seq<String>) -> Seq<Seq<char>> {
    v.map_values(|t: String| t@)
}

/// A table of symbols: each name stands for one address, and an address
/// may have several names.
#[derive(Debug)]
pub struct SymbolTable {
    entries: Vec<(String, u16)>,
}

impl SymbolTable {
    /// The entries of the table, oldest first.
    pub closed spec fn view(&self) -> Seq<SymbolEntry> {
        self.entries@.map_values(|e: (String, u16)| (e.0@, e.1))
    }

    /// No name occurs twice.
    #[verifier::type_invariant]
    closed spec fn well_formed(&self) -> bool {
        names_distinct(self@)
    }

    /// A copy of the table.
    pub fn copy(&self) -> (t: SymbolTable)
        ensures
            t@ == self@,
    {
        proof {
            use_type_invariant(self);
        }
        let mut entries: Vec<(String, u16)> = Vec::new();
        let mut i: usize = 0;
        while i < self.entries.len()
            invariant
                i <= self.entries@.len(),
                entries@.len() == i,
                forall|k: int| 0 <= k < i ==> (#[trigger] entries@[k]).0@ == self.entries@[k].0@ && entries@[k].1 == self.entries@[k].1,
            decreases self.entries@.len() - i,
        {
            let e = &self.entries[i];
            entries.push((e.0.clone(), e.1));
            i = i + 1;
        }
        assert(entries@.map_values(|e: (String, u16)| (e.0@, e.1)) =~= self@);
        SymbolTable { entries }
    }

    /// A table with no symbol.
    pub fn new() -> (t: SymbolTable)
        ensures
            t@ == Seq::<SymbolEntry>::empty(),
    {
        let t = SymbolTable { entries: Vec::new() };
        assert(t@ =~= Seq::<SymbolEntry>::empty());
        t
    }

    /// Number of names in the table.
    pub fn len(&self) -> (n: usize)
        ensures
            n == self@.len(),
    {
        self.entries.len()
    }

    /// Give `name` the address `addr`; a name given before leaves its former
    /// address.
    pub fn add_symbol(&mut self, addr: u16, name: String)
        ensures
            final(self)@ == with_symbol(old(self)@, name@, addr),
    {
        self.remove_symbol(name.as_str());
        proof {
            use_type_invariant(&*self);
        }
        let ghost prev = self@;
        proof {
            lemma_without_excludes(old(self)@, name@);
        }
        let mut entries: Vec<(String, u16)> = Vec::new();
        std::mem::swap(&mut entries, &mut self.entries);
        assert(entries@.map_values(|e: (String, u16)| (e.0@, e.1)) == prev);
        entries.push((name, addr));
        let ghost now = entries@.map_values(|e: (String, u16)| (e.0@, e.1));
        assert(now =~= prev.push((name@, addr)));
        assert forall|a: int, b: int| 0 <= a < b < now.len() implies #[trigger] now[a].0 != #[trigger] now[b].0 by {
            if b == now.len() - 1 {
                assert(now[a] == prev[a]);
            } else {
                assert(now[a] == prev[a]);
                assert(now[b] == prev[b]);
            }
        }
        self.entries = entries;
    }

    /// Remove `name` from the table, if it is there.
    pub fn remove_symbol(&mut self, name: &str)
        ensures
            final(self)@ == without(old(self)@, name@),
    {
        proof {
            use_type_invariant(&*self);
        }
        let ghost s = self@;
        let wanted = String::from_str(name);
        let mut kept: Vec<(String, u16)> = Vec::new();
        let mut i: usize = 0;
        while i < self.entries.len()
            invariant
                s == self@,
                wanted@ == name@,
                names_distinct(s),
                i <= s.len(),
                kept@.map_values(|e: (String, u16)| (e.0@, e.1)) == without(s.subrange(0, i as int), name@),
                names_distinct(kept@.map_values(|e: (String, u16)| (e.0@, e.1))),
                forall|k: int|
                    0 <= k < kept@.len() ==> exists|j: int|
                        0 <= j < i && #[trigger] kept@[k].0@ == s[j].0,
            decreases s.len() - i,
        {
            let ghost prev = kept@.map_values(|e: (String, u16)| (e.0@, e.1));
            assert(s.subrange(0, i + 1).drop_last() =~= s.subrange(0, i as int));
            let e = &self.entries[i];
            assert(self@[i as int] == (e.0@, e.1));
            if e.0 != wanted {
                kept.push((e.0.clone(), e.1));
                let ghost now = kept@.map_values(|e: (String, u16)| (e.0@, e.1));
                assert(now =~= prev.push(s[i as int]));
                assert forall|a: int, b: int| 0 <= a < b < now.len() implies #[trigger] now[a].0 != #[trigger] now[b].0 by {
                    if b == now.len() - 1 {
                        let j = choose|j: int| 0 <= j < i && #[trigger] kept@[a].0@ == s[j].0;
                        assert(kept@[a].0@ == now[a].0);
                        assert(s[j].0 != s[i as int].0);
                    } else {
                        assert(now[a] == prev[a]);
                        assert(now[b] == prev[b]);
                    }
                }
                assert forall|k: int| 0 <= k < kept@.len() implies exists|j: int|
                    0 <= j < i + 1 && #[trigger] kept@[k].0@ == s[j].0 by {
                    if k == kept@.len() - 1 {
                        assert(kept@[k].0@ == s[i as int].0);
                    } else {
                        let j = choose|j: int| 0 <= j < i && #[trigger] kept@[k].0@ == s[j].0;
                        assert(kept@[k].0@ == s[j].0);
                    }
                }
            }
            i = i + 1;
        }
        assert(s.subrange(0, s.len() as int) =~= s);
        self.entries = kept;
    }

    /// The names given to `addr`, in the order in which they were given;
    /// `None` when it has none.
    pub fn get_symbols_at(&self, addr: u16) -> (r: Option<Vec<String>>)
        ensures
            names_at(self@, addr).len() == 0 ==> r is None,
            names_at(self@, addr).len() > 0 ==> (r matches Some(v) && string_views(v@) == names_at(
                self@,
                addr,
            )),
    {
        let ghost s = self@;
        let mut out: Vec<String> = Vec::new();
        let mut i: usize = 0;
        while i < self.entries.len()
            invariant
                s == self@,
                i <= s.len(),
                string_views(out@) == names_at(s.subrange(0, i as int), addr),
            decreases s.len() - i,
        {
            assert(s.subrange(0, i + 1).drop_last() =~= s.subrange(0, i as int));
            let e = &self.entries[i];
            assert(s[i as int] == (e.0@, e.1));
            if e.1 == addr {
                let ghost prev = out@;
                out.push(e.0.clone());
                assert(string_views(out@) =~= string_views(prev).push(e.0@));
            }
            i = i + 1;
        }
        assert(s.subrange(0, s.len() as int) =~= s);
        if out.len() == 0 {
            None
        } else {
            Some(out)
        }
    }

    /// The names given to `addr`, in lexicographic order.
    pub fn get_symbols_for_address(&self, addr: u16) -> (v: Vec<String>)
        ensures
            string_views(v@) == sort_spec(names_at(self@, addr)),
            names_sorted(string_views(v@)),
            string_views(v@).to_set() == names_at(self@, addr).to_set(),
            v@.len() == names_at(self@, addr).len(),
    {
        let found = match self.get_symbols_at(addr) {
            Some(v) => v,
            None => Vec::new(),
        };
        proof {
            use_type_invariant(self);
            lemma_names_at_distinct(self@, addr);
            assert forall|a: int, b: int| 0 <= a < b < found@.len() implies (#[trigger] found@[a])@ != (#[trigger] found@[b])@ by {
                assert(string_views(found@)[a] == found@[a]@);
                assert(string_views(found@)[b] == found@[b]@);
            }
        }
        sort_names(found)
    }

    /// The address of `symbol`, if the table has it.
    pub fn get_address(&self, symbol: &str) -> (r: Option<u16>)
        ensures
            r == lookup(self@, symbol@),
    {
        let ghost s = self@;
        let wanted = String::from_str(symbol);
        let mut r: Option<u16> = None;
        let mut i: usize = 0;
        while i < self.entries.len()
            invariant
                s == self@,
                i <= s.len(),
                r == lookup(s.subrange(0, i as int), symbol@),
                wanted@ == symbol@,
            decreases s.len() - i,
        {
            assert(s.subrange(0, i + 1).drop_last() =~= s.subrange(0, i as int));
            let e = &self.entries[i];
            assert(s[i as int] == (e.0@, e.1));
            if e.0 == wanted {
                r = Some(e.1);
            }
            i = i + 1;
        }
        assert(s.subrange(0, s.len() as int) =~= s);
        r
    }

    /// Read one line of a VICE label file, `al XXXXXX .name`: three fields
    /// separated by white space, the first `al`, the last starting with a
    /// dot. The address is the last four characters of the second field,
    /// read as hexadecimal.
    pub fn parse_vice_label_line(&self, line: &str) -> (r: Option<(u16, String)>)
        ensures
            match vice_label(line@) {
                Some((addr, name)) => r matches Some((a, n)) && a == addr && n@ == name,
                None => r is None,
            },
    {
        parse_vice_label(line)
    }

    /// Read a VICE label file: each line that holds a label adds it to the
    /// table, in the order of the lines; other lines are ignored.
    pub fn load_vice_labels(&mut self, text: &str)
        ensures
            final(self)@ == with_labels(old(self)@, lines_of(text@)),
    {
        let chars = chars_of(text);
        let ghost all = lines_of(text@);
        let mut start: usize = 0;
        let mut i: usize = 0;
        let ghost mut done: Seq<Seq<char>> = seq![];
        let ghost s0 = self@;
        while i < chars.len()
            invariant
                chars@ == text@,
                start <= i <= chars@.len(),
                lines_of(text@) == done + lines_from(chars@, start as nat),
                forall|k: int| start <= k < i ==> chars@[k] != '\n',
                self@ == with_labels(s0, done),
            decreases chars@.len() - i,
        {
            if chars[i] == '\n' {
                proof {
                    lemma_lines_from_split(chars@, start as nat, i as nat);
                }
                let line = line_text(&chars, start, i);
                if let Some((addr, name)) = parse_vice_label(line.as_str()) {
                    self.add_symbol(addr, name);
                }
                proof {
                    let l = chars@.subrange(start as int, i as int);
                    assert(line@ == l);
                    lemma_with_labels_push(s0, done, l);
                    assert(done + lines_from(chars@, start as nat) =~= done.push(l) + lines_from(chars@, (i + 1) as nat));
                    done = done.push(l);
                }
                start = i + 1;
            }
            i = i + 1;
        }
        proof {
            lemma_lines_from_end(chars@, start as nat);
        }
        if start < chars.len() {
            let line = line_text(&chars, start, chars.len());
            if let Some((addr, name)) = parse_vice_label(line.as_str()) {
                self.add_symbol(addr, name);
            }
            proof {
                let l = chars@.subrange(start as int, chars@.len() as int);
                assert(line@ == l);
                lemma_with_labels_push(s0, done, l);
                assert(done + lines_from(chars@, start as nat) =~= done.push(l));
                done = done.push(l);
            }
        } else {
            assert(done + lines_from(chars@, start as nat) =~= done);
        }
    }
}

/// First position at or after `i` holding `'\n'`, or the length of `s`.
pub open spec fn line_end(s: Seq<char>, i: nat) -> nat
    decreases s.len() - i,
{
    if i >= s.len() || s[i as int] == '\n' {
        i
    } else {
        line_end(s, i + 1)
    }
}

pub proof fn lemma_line_end_bounds(s: Seq<char>, i: nat)
    ensures
        i <= line_end(s, i),
        i <= s.len() ==> line_end(s, i) <= s.len(),
    decreases s.len() - i,
{
    if !(i >= s.len() || s[i as int] == '\n') {
        lemma_line_end_bounds(s, i + 1);
    }
}

/// The lines of `s` from position `start` on, split at `'\n'`; a last
/// line that is empty is not counted (as `str::lines` does, but keeping any
/// `'\r'`).
pub open spec fn lines_from(s: Seq<char>, start: nat) -> Seq<Seq<char>>
    decreases s.len() - start,
{
    if start >= s.len() {
        seq![]
    } else {
        let e = line_end(s, start);
        proof {
            lemma_line_end_bounds(s, start);
        }
        if e >= s.len() {
            seq![s.subrange(start as int, s.len() as int)]
        } else {
            seq![s.subrange(start as int, e as int)] + lines_from(s, e + 1)
        }
    }
}

/// The lines of `s`.
pub open spec fn lines_of(s: Seq<char>) -> Seq<Seq<char>> {
    lines_from(s, 0)
}

/// The table after the labels of `lines` were added in order.
pub open spec fn with_labels(s: Seq<SymbolEntry>, lines: Seq<Seq<char>>) -> Seq<SymbolEntry>
    decreases lines.len(),
{
    if lines.len() == 0 {
        s
    } else {
        let before = with_labels(s, lines.drop_last());
        match vice_label(lines.last()) {
            Some((addr, name)) => with_symbol(before, name, addr),
            None => before,
        }
    }
}

proof fn lemma_with_labels_push(s: Seq<SymbolEntry>, lines: Seq<Seq<char>>, l: Seq<char>)
    ensures
        with_labels(s, lines.push(l)) == match vice_label(l) {
            Some((addr, name)) => with_symbol(with_labels(s, lines), name, addr),
            None => with_labels(s, lines),
        },
{
    assert(lines.push(l).drop_last() =~= lines);
}

proof fn lemma_line_end(s: Seq<char>, i: nat, j: nat)
    requires
        i <= j <= s.len(),
        forall|k: int| i <= k < j ==> s[k] != '\n',
    ensures
        line_end(s, i) == line_end(s, j),
    decreases j - i,
{
    if i < j {
        lemma_line_end(s, i + 1, j);
    }
}

proof fn lemma_lines_from_split(s: Seq<char>, start: nat, i: nat)
    requires
        start <= i < s.len(),
        s[i as int] == '\n',
        forall|k: int| start <= k < i ==> s[k] != '\n',
    ensures
        lines_from(s, start) == seq![s.subrange(start as int, i as int)] + lines_from(s, i + 1),
{
    lemma_line_end(s, start, i);
}

proof fn lemma_lines_from_end(s: Seq<char>, start: nat)
    requires
        start <= s.len(),
        forall|k: int| start <= k < s.len() ==> s[k] != '\n',
    ensures
        start < s.len() ==> lines_from(s, start) == seq![s.subrange(start as int, s.len() as int)],
        start == s.len() ==> lines_from(s, start) == Seq::<Seq<char>>::empty(),
{
    if start < s.len() {
        lemma_line_end(s, start, s.len());
    }
}

/// The characters `start..end` of `chars`, as a string.
fn line_text(chars: &Vec<char>, start: usize, end: usize) -> (s: String)
    requires
        start <= end <= chars@.len(),
    ensures
        s@ == chars@.subrange(start as int, end as int),
{
    let mut v: Vec<char> = Vec::new();
    let mut i = start;
    while i < end
        invariant
            start <= i <= end <= chars@.len(),
            v@ == chars@.subrange(start as int, i as int),
        decreases end - i,
    {
        v.push(chars[i]);
        i = i + 1;
        assert(v@ =~= chars@.subrange(start as int, i as int));
    }
    string_of(&v)
}

/// First position at or after `i` that is not white space.
pub open spec fn skip_space(s: Seq<char>, i: nat) -> nat
    decreases s.len() - i,
{
    if i >= s.len() || !is_space(s[i as int]) {
        i
    } else {
        skip_space(s, i + 1)
    }
}

/// First position at or after `i` that is white space.
pub open spec fn word_end(s: Seq<char>, i: nat) -> nat
    decreases s.len() - i,
{
    if i >= s.len() || is_space(s[i as int]) {
        i
    } else {
        word_end(s, i + 1)
    }
}

/// The words of `s` from position `i` on: the runs of characters that are
/// not white space (`str::split_whitespace`).
pub open spec fn words_from(s: Seq<char>, i: nat) -> Seq<Seq<char>>
    decreases s.len() - i,
{
    let j = skip_space(s, i);
    if j >= s.len() {
        seq![]
    } else {
        let k = word_end(s, j);
        proof {
            lemma_skip_space_ge(s, i);
            lemma_word_end_bounds(s, j);
        }
        if k <= j {
            seq![]
        } else {
            seq![s.subrange(j as int, k as int)] + words_from(s, k)
        }
    }
}

/// The words of `s`.
pub open spec fn words(s: Seq<char>) -> Seq<Seq<char>> {
    words_from(s, 0)
}

/// The value of a hexadecimal number as `u16::from_str_radix` reads it:
/// an optional `+`, then at least one digit, and no overflow.
pub open spec fn hex_number(s: Seq<char>) -> Option<nat>
    decreases s.len(),
{
    if s.len() > 0 && s[0] == '+' {
        if s.len() == 1 {
            None
        } else {
            hex_digits(s.drop_first())
        }
    } else if s.len() == 0 {
        None
    } else {
        hex_digits(s)
    }
}

/// Value of a non-empty run of hexadecimal digits.
pub open spec fn hex_digits(s: Seq<char>) -> Option<nat>
    decreases s.len(),
{
    if s.len() == 0 {
        Some(0)
    } else {
        match (hex_digits(s.drop_last()), hex_value(s.last())) {
            (Some(h), Some(d)) => Some(h * 16 + d),
            _ => None,
        }
    }
}

/// What a VICE label line gives: the address and the name.
pub open spec fn vice_label(line: Seq<char>) -> Option<(u16, Seq<char>)> {
    let w = words(line);
    if w.len() != 3 || w[0] != seq!['a', 'l'] || w[2].len() == 0 || w[2][0] != '.' || w[1].len() < 4 {
        None
    } else {
        match hex_number(w[1].subrange(w[1].len() - 4, w[1].len() as int)) {
            Some(v) => if v < 0x10000 {
                Some((v as u16, w[2].drop_first()))
            } else {
                None
            },
            None => None,
        }
    }
}

pub proof fn lemma_word_end_bounds(s: Seq<char>, i: nat)
    ensures
        i <= s.len() ==> word_end(s, i) <= s.len(),
    decreases s.len() - i,
{
    if !(i >= s.len() || is_space(s[i as int])) {
        lemma_word_end_bounds(s, i + 1);
    }
}

pub proof fn lemma_skip_space_ge(s: Seq<char>, i: nat)
    ensures
        i <= skip_space(s, i),
    decreases s.len() - i,
{
    if !(i >= s.len() || !is_space(s[i as int])) {
        lemma_skip_space_ge(s, i + 1);
    }
}

proof fn lemma_skip_space(s: Seq<char>, i: nat, j: nat)
    requires
        i <= j <= s.len(),
        forall|k: int| i <= k < j ==> is_space(s[k]),
    ensures
        skip_space(s, i) == skip_space(s, j),
    decreases j - i,
{
    if i < j {
        lemma_skip_space(s, i + 1, j);
    }
}

proof fn lemma_word_end(s: Seq<char>, i: nat, j: nat)
    requires
        i <= j <= s.len(),
        forall|k: int| i <= k < j ==> !is_space(s[k]),
    ensures
        word_end(s, i) == word_end(s, j),
    decreases j - i,
{
    if i < j {
        lemma_word_end(s, i + 1, j);
    }
}

/// The words of `s`, each as a vector of characters.
fn split_words(s: &Vec<char>) -> (w: Vec<Vec<char>>)
    ensures
        w@.len() == words(s@).len(),
        forall|k: int| 0 <= k < w@.len() ==> (#[trigger] w@[k])@ == words(s@)[k],
{
    let mut out: Vec<Vec<char>> = Vec::new();
    let mut i: usize = 0;
    let ghost mut got: Seq<Seq<char>> = seq![];
    while i < s.len()
        invariant
            i <= s@.len(),
            words(s@) == got + words_from(s@, i as nat),
            out@.len() == got.len(),
            forall|k: int| 0 <= k < out@.len() ==> (#[trigger] out@[k])@ == got[k],
        decreases s@.len() - i,
    {
        let start = i;
        while i < s.len() && is_space_char(s[i])
            invariant
                start <= i <= s@.len(),
                forall|k: int| start <= k < i ==> is_space(s@[k]),
            decreases s@.len() - i,
        {
            i = i + 1;
        }
        proof {
            lemma_skip_space(s@, start as nat, i as nat);
        }
        if i < s.len() {
            let j = i;
            let mut word: Vec<char> = Vec::new();
            while i < s.len() && !is_space_char(s[i])
                invariant
                    j <= i <= s@.len(),
                    forall|k: int| j <= k < i ==> !is_space(s@[k]),
                    word@ == s@.subrange(j as int, i as int),
                decreases s@.len() - i,
            {
                word.push(s[i]);
                i = i + 1;
                assert(word@ =~= s@.subrange(j as int, i as int));
            }
            proof {
                lemma_word_end(s@, j as nat, i as nat);
                assert(skip_space(s@, start as nat) == j);
                assert(word_end(s@, j as nat) == i);
                let w = s@.subrange(j as int, i as int);
                assert(words_from(s@, start as nat) == seq![w] + words_from(s@, i as nat));
                assert(got + words_from(s@, start as nat) =~= got.push(w) + words_from(s@, i as nat));
                got = got.push(w);
            }
            out.push(word);
        } else {
            proof {
                assert(words_from(s@, start as nat) =~= seq![]);
            }
        }
    }
    proof {
        assert(words_from(s@, i as nat) =~= seq![]);
        assert(got + seq![] =~= got);
    }
    out
}

/// Value of the hexadecimal number `s`, as `u16::from_str_radix(s, 16)`
/// reads it.
fn parse_hex_u16(s: &Vec<char>) -> (r: Option<u16>)
    requires
        s@.len() <= 4,
    ensures
        match hex_number(s@) {
            Some(v) => v < 0x10000 ==> r == Some(v as u16),
            None => r is None,
        },
        r is Some ==> hex_number(s@) is Some && hex_number(s@)->Some_0 < 0x10000,
{
    let mut i: usize = 0;
    if s.len() > 0 && s[0] == '+' {
        if s.len() == 1 {
            return None;
        }
        i = 1;
    } else if s.len() == 0 {
        return None;
    }
    let ghost digits = s@.subrange(i as int, s@.len() as int);
    assert(i == 1 ==> digits =~= s@.drop_first());
    assert(i == 0 ==> digits =~= s@);
    let mut v: u32 = 0;
    let mut k = i;
    while k < s.len()
        invariant
            i <= k <= s@.len() <= 4,
            digits == s@.subrange(i as int, s@.len() as int),
            hex_digits(s@.subrange(i as int, k as int)) == Some(v as nat),
            hex_number(s@) == hex_digits(digits),
            v < pow16(k - i),
        decreases s@.len() - k,
    {
        assert(s@.subrange(i as int, k + 1).drop_last() =~= s@.subrange(i as int, k as int));
        match hex_digit_value(s[k]) {
            Some(d) => {
                assert(v * 16 + d < pow16(k + 1 - i)) by (nonlinear_arith)
                    requires
                        v < pow16(k - i),
                        d < 16,
                        pow16(k + 1 - i) == pow16(k - i) * 16,
                ;
                v = v * 16 + d as u32;
            },
            None => {
                proof {
                    lemma_hex_digits_none(s@.subrange(i as int, s@.len() as int), (k - i) as nat);
                }
                return None;
            },
        }
        k = k + 1;
    }
    assert(s@.subrange(i as int, k as int) =~= digits);
    if v < 0x10000 {
        Some(v as u16)
    } else {
        None
    }
}

/// `16` to the power `n`, for `n <= 4`.
pub open spec fn pow16(n: int) -> nat {
    if n <= 0 {
        1
    } else if n == 1 {
        16
    } else if n == 2 {
        256
    } else if n == 3 {
        4096
    } else {
        65536
    }
}

proof fn lemma_hex_digits_none(s: Seq<char>, k: nat)
    requires
        k < s.len(),
        hex_value(s[k as int]) is None,
    ensures
        hex_digits(s) is None,
    decreases s.len(),
{
    if k < s.len() - 1 {
        lemma_hex_digits_none(s.drop_last(), k);
    }
}

/// Read a VICE label line.
fn parse_vice_label(line: &str) -> (r: Option<(u16, String)>)
    ensures
        match vice_label(line@) {
            Some((addr, name)) => r matches Some((a, n)) && a == addr && n@ == name,
            None => r is None,
        },
{
    let chars = chars_of(line);
    let parts = split_words(&chars);
    let ghost w = words(line@);
    if parts.len() != 3 {
        return None;
    }
    assert(parts@[0]@ == w[0] && parts@[1]@ == w[1] && parts@[2]@ == w[2]);
    if !(parts[0].len() == 2 && parts[0][0] == 'a' && parts[0][1] == 'l') {
        assert(w[0] != seq!['a', 'l']) by {
            if w[0] == seq!['a', 'l'] {
                assert(parts@[0]@.len() == 2);
            }
        }
        return None;
    }
    assert(w[0] =~= seq!['a', 'l']);
    if parts[2].len() == 0 || parts[2][0] != '.' {
        return None;
    }
    if parts[1].len() < 4 {
        return None;
    }
    let n = parts[1].len();
    let mut tail: Vec<char> = Vec::new();
    let mut k = n - 4;
    while k < n
        invariant
            parts@.len() == 3,
            n == parts@[1]@.len(),
            n >= 4,
            n - 4 <= k <= n,
            tail@ == parts@[1]@.subrange(n - 4, k as int),
        decreases n - k,
    {
        tail.push(parts[1][k]);
        k = k + 1;
        assert(tail@ =~= parts@[1]@.subrange(n - 4, k as int));
    }
    match parse_hex_u16(&tail) {
        Some(addr) => {
            let mut name_chars: Vec<char> = Vec::new();
            let mut k: usize = 1;
            while k < parts[2].len()
                invariant
                    parts@.len() == 3,
                    1 <= k <= parts@[2]@.len(),
                    name_chars@ == parts@[2]@.subrange(1, k as int),
                decreases parts@[2]@.len() - k,
            {
                name_chars.push(parts[2][k]);
                k = k + 1;
                assert(name_chars@ =~= parts@[2]@.subrange(1, k as int));
            }
            assert(name_chars@ =~= w[2].drop_first());
            Some((addr, string_of(&name_chars)))
        },
        None => None,
    }
}

/// Whether `a` sorts strictly before `b`.
fn name_less(a: &String, b: &String) -> (r: bool)
    ensures
        r == name_before(a@, b@),
{
    let x = chars_of(a.as_str());
    let y = chars_of(b.as_str());
    let mut i: usize = 0;
    assert(a@.subrange(0, a@.len() as int) =~= a@);
    assert(b@.subrange(0, b@.len() as int) =~= b@);
    while i < x.len() && i < y.len() && x[i] == y[i]
        invariant
            i <= x@.len(),
            i <= y@.len(),
            x@ == a@,
            y@ == b@,
            name_before(a@, b@) == name_before(a@.subrange(i as int, a@.len() as int), b@.subrange(i as int, b@.len() as int)),
        decreases x@.len() - i,
    {
        let ghost sa = a@.subrange(i as int, a@.len() as int);
        let ghost sb = b@.subrange(i as int, b@.len() as int);
        assert(sa.drop_first() =~= a@.subrange(i + 1, a@.len() as int));
        assert(sb.drop_first() =~= b@.subrange(i + 1, b@.len() as int));
        i = i + 1;
    }
    if i >= y.len() {
        false
    } else if i >= x.len() {
        true
    } else {
        x[i] < y[i]
    }
}

proof fn lemma_name_irreflexive(a: Seq<char>)
    ensures
        !name_before(a, a),
    decreases a.len(),
{
    if a.len() > 0 {
        lemma_name_irreflexive(a.drop_first());
    }
}

proof fn lemma_name_total(a: Seq<char>, b: Seq<char>)
    ensures
        a != b ==> name_before(a, b) || name_before(b, a),
        name_before(a, b) ==> !name_before(b, a),
    decreases a.len(),
{
    if a.len() > 0 && b.len() > 0 && a[0] == b[0] {
        lemma_name_total(a.drop_first(), b.drop_first());
        if a.drop_first() == b.drop_first() {
            assert(a =~= seq![a[0]] + a.drop_first());
            assert(b =~= seq![b[0]] + b.drop_first());
        }
    } else if a.len() == 0 && b.len() == 0 {
        assert(a =~= b);
    }
}

proof fn lemma_name_transitive(a: Seq<char>, b: Seq<char>, c: Seq<char>)
    requires
        name_before(a, b),
        name_before(b, c),
    ensures
        name_before(a, c),
    decreases a.len(),
{
    if a.len() > 0 && a[0] == b[0] && b[0] == c[0] {
        lemma_name_transitive(a.drop_first(), b.drop_first(), c.drop_first());
    }
}

/// Lexicographic order is a strict total order on names.
proof fn lemma_name_order(a: Seq<char>, b: Seq<char>, c: Seq<char>)
    ensures
        !name_before(a, a),
        a != b ==> name_before(a, b) || name_before(b, a),
        name_before(a, b) ==> !name_before(b, a),
        name_before(a, b) && name_before(b, c) ==> name_before(a, c),
{
    lemma_name_irreflexive(a);
    lemma_name_total(a, b);
    if name_before(a, b) && name_before(b, c) {
        lemma_name_transitive(a, b, c);
    }
}

/// The names of `v`, which are all different, sorted lexicographically
/// (an insertion sort).
fn sort_names(v: Vec<String>) -> (r: Vec<String>)
    requires
        forall|a: int, b: int| 0 <= a < b < v@.len() ==> (#[trigger] v@[a])@ != (#[trigger] v@[b])@,
    ensures
        names_sorted(string_views(r@)),
        string_views(r@).to_set() == string_views(v@).to_set(),
        r@.len() == v@.len(),
        string_views(r@) == sort_spec(string_views(v@)),
{
    let mut out: Vec<String> = Vec::new();
    let mut i: usize = 0;
    while i < v.len()
        invariant
            i <= v@.len(),
            out@.len() == i,
            forall|a: int, b: int| 0 <= a < b < v@.len() ==> (#[trigger] v@[a])@ != (#[trigger] v@[b])@,
            names_sorted(string_views(out@)),
            string_views(out@).to_set() == string_views(v@.subrange(0, i as int)).to_set(),
            string_views(out@) == sort_spec(string_views(v@.subrange(0, i as int))),
        decreases v@.len() - i,
    {
        let item = v[i].clone();
        let mut j: usize = 0;
        while j < out.len()
            invariant
                j <= out@.len(),
                forall|k: int| 0 <= k < j ==> !name_before(item@, #[trigger] string_views(out@)[k]),
            ensures
                j <= out@.len(),
                forall|k: int| 0 <= k < j ==> !name_before(item@, #[trigger] string_views(out@)[k]),
                j < out@.len() ==> name_before(item@, string_views(out@)[j as int]),
            decreases out@.len() - j,
        {
            if name_less(&item, &out[j]) {
                break;
            }
            j = j + 1;
        }
        let ghost before = string_views(out@);
        let ghost x = v@[i as int]@;
        out.insert(j, item);
        proof {
            let after = string_views(out@);
            assert(after =~= before.insert(j as int, x));
            assert forall|a: int, b: int| 0 <= a < b < after.len() implies name_before(
                #[trigger] after[a],
                #[trigger] after[b],
            ) by {
                if a < j && b == j {
                    assert(before.to_set().contains(before[a]));
                    assert(string_views(v@.subrange(0, i as int)).to_set().contains(before[a]));
                    let m = choose|m: int|
                        0 <= m < string_views(v@.subrange(0, i as int)).len() && string_views(
                            v@.subrange(0, i as int),
                        )[m] == before[a];
                    assert(v@[m]@ == before[a]);
                    lemma_name_order(before[a], x, x);
                } else if a == j && b > j {
                    if b - 1 > j {
                        lemma_name_order(x, before[j as int], before[b - 1]);
                    }
                } else if a < j && b > j {
                    assert(after[a] == before[a] && after[b] == before[b - 1]);
                } else if b < j {
                } else {
                    assert(after[a] == before[a - 1] && after[b] == before[b - 1]);
                }
            }
            assert(string_views(v@.subrange(0, i + 1)) =~= string_views(v@.subrange(0, i as int)).push(x));
            lemma_insert_sorted_at(before, x, j as int);
            assert(string_views(v@.subrange(0, i + 1)).drop_last() =~= string_views(v@.subrange(0, i as int)));
            lemma_to_set_insert(before, j as int, x);
            lemma_to_set_insert(string_views(v@.subrange(0, i as int)), i as int, x);
            assert(string_views(v@.subrange(0, i as int)).insert(i as int, x) =~= string_views(v@.subrange(0, i as int)).push(x));
        }
        i = i + 1;
    }
    assert(v@.subrange(0, v@.len() as int) =~= v@);
    out
}

proof fn lemma_to_set_insert(s: Seq<Seq<char>>, j: int, x: Seq<char>)
    requires
        0 <= j <= s.len(),
    ensures
        s.insert(j, x).to_set() == s.to_set().insert(x),
{
    let t = s.insert(j, x);
    assert forall|e: Seq<char>| t.to_set().contains(e) <==> s.to_set().insert(x).contains(e) by {
        if t.to_set().contains(e) {
            let k = choose|k: int| 0 <= k < t.len() && t[k] == e;
            if k < j {
                assert(s[k] == e);
            } else if k > j {
                assert(s[k - 1] == e);
            }
        }
        if s.to_set().contains(e) {
            let k = choose|k: int| 0 <= k < s.len() && s[k] == e;
            if k < j {
                assert(t[k] == e);
            } else {
                assert(t[k + 1] == e);
            }
        }
        if e == x {
            assert(t[j] == x);
        }
    }
    assert(t.to_set() =~= s.to_set().insert(x));
}

proof fn lemma_insert_sorted_at(v: Seq<Seq<char>>, x: Seq<char>, j: int)
    requires
        0 <= j <= v.len(),
        forall|k: int| 0 <= k < j ==> !name_before(x, #[trigger] v[k]),
        j < v.len() ==> name_before(x, v[j]),
    ensures
        insert_sorted(v, x) == v.insert(j, x),
    decreases v.len(),
{
    if v.len() == 0 {
        assert(v.insert(j, x) =~= seq![x]);
    } else if j == 0 {
        assert(v.insert(0, x) =~= seq![x] + v);
    } else {
        let t = v.drop_first();
        assert forall|k: int| 0 <= k < j - 1 implies !name_before(x, #[trigger] t[k]) by {
            assert(t[k] == v[k + 1]);
        }
        lemma_insert_sorted_at(t, x, j - 1);
        assert(v.insert(j, x) =~= seq![v[0]] + t.insert(j - 1, x));
    }
}

/// The names given to an address in a table with distinct names are
/// distinct.
proof fn lemma_names_at_distinct(s: Seq<SymbolEntry>, addr: u16)
    requires
        names_distinct(s),
    ensures
        forall|a: int, b: int| 0 <= a < b < names_at(s, addr).len() ==> #[trigger] names_at(s, addr)[a] != #[trigger] names_at(s, addr)[b],
        forall|a: int| 0 <= a < names_at(s, addr).len() ==> exists|k: int| 0 <= k < s.len() && s[k].0 == #[trigger] names_at(s, addr)[a],
    decreases s.len(),
{
    if s.len() > 0 {
        let t = s.drop_last();
        assert(names_distinct(t));
        lemma_names_at_distinct(t, addr);
        let n = names_at(s, addr);
        assert forall|a: int| 0 <= a < n.len() implies exists|k: int| 0 <= k < s.len() && s[k].0 == #[trigger] n[a] by {
            if s.last().1 == addr && a == n.len() - 1 {
                assert(s[s.len() - 1].0 == n[a]);
            } else {
                let k = choose|k: int| 0 <= k < t.len() && t[k].0 == names_at(t, addr)[a];
                assert(s[k].0 == n[a]);
            }
        }
        if s.last().1 == addr {
            assert(n == names_at(t, addr).push(s.last().0));
            assert forall|a: int, b: int| 0 <= a < b < n.len() implies #[trigger] n[a] != #[trigger] n[b] by {
                if b == n.len() - 1 {
                    assert(n[a] == names_at(t, addr)[a]);
                    let k = choose|k: int| 0 <= k < t.len() && t[k].0 == names_at(t, addr)[a];
                    assert(s[k] == t[k]);
                    assert(s[k].0 != s[s.len() - 1].0);
                } else {
                    assert(n[a] == names_at(t, addr)[a]);
                    assert(n[b] == names_at(t, addr)[b]);
                }
            }
        }
    }
}

proof fn lemma_without_excludes(s: Seq<SymbolEntry>, name: Seq<char>)
    ensures
        forall|k: int| 0 <= k < without(s, name).len() ==> #[trigger] without(s, name)[k].0 != name,
    decreases s.len(),
{
    if s.len() > 0 {
        lemma_without_excludes(s.drop_last(), name);
        let w = without(s, name);
        if s.last().0 != name {
            assert forall|k: int| 0 <= k < w.len() implies #[trigger] w[k].0 != name by {
                if k < w.len() - 1 {
                    assert(w[k] == without(s.drop_last(), name)[k]);
                }
            }
        }
    }
}

proof fn lemma_lookup_without(s: Seq<SymbolEntry>, name: Seq<char>, other: Seq<char>)
    ensures
        lookup(without(s, name), other) == if other == name {
            None::<u16>
        } else {
            lookup(s, other)
        },
    decreases s.len(),
{
    if s.len() > 0 {
        lemma_lookup_without(s.drop_last(), name, other);
        if s.last().0 != name {
            assert(without(s, name).drop_last() =~= without(s.drop_last(), name));
        }
    }
}

proof fn lemma_names_at_without(s: Seq<SymbolEntry>, name: Seq<char>, addr: u16)
    ensures
        !names_at(without(s, name), addr).contains(name),
    decreases s.len(),
{
    if s.len() > 0 {
        lemma_names_at_without(s.drop_last(), name, addr);
        if s.last().0 != name {
            let w = without(s, name);
            assert(w.drop_last() =~= without(s.drop_last(), name));
            if s.last().1 == addr {
                assert(names_at(w, addr) =~= names_at(without(s.drop_last(), name), addr).push(s.last().0));
            }
        }
    }
}

proof fn lemma_without_len(s: Seq<SymbolEntry>, name: Seq<char>)
    requires
        names_distinct(s),
    ensures
        without(s, name).len() == if lookup(s, name) is Some {
            s.len() - 1
        } else {
            s.len() as int
        },
    decreases s.len(),
{
    if s.len() > 0 {
        let t = s.drop_last();
        assert(names_distinct(t));
        lemma_without_len(t, name);
        if s.last().0 == name {
            lemma_lookup_absent(t, name);
        }
    }
}

proof fn lemma_lookup_absent(t: Seq<SymbolEntry>, name: Seq<char>)
    requires
        forall|k: int| 0 <= k < t.len() ==> #[trigger] t[k].0 != name,
    ensures
        lookup(t, name) is None,
    decreases t.len(),
{
    if t.len() > 0 {
        assert(t.last().0 != name);
        lemma_lookup_absent(t.drop_last(), name);
    }
}

/// After a name is given an address, looking the name up gives that
/// address.
pub proof fn law_added_symbol_is_found(s: Seq<SymbolEntry>, name: Seq<char>, addr: u16)
    ensures
        lookup(with_symbol(s, name, addr), name) == Some(addr),
{
    assert(with_symbol(s, name, addr).drop_last() =~= without(s, name));
}

/// Giving a name an address leaves the address of every other name as it
/// was.
pub proof fn law_other_symbols_unchanged(s: Seq<SymbolEntry>, name: Seq<char>, addr: u16, other: Seq<char>)
    requires
        other != name,
    ensures
        lookup(with_symbol(s, name, addr), other) == lookup(s, other),
{
    assert(with_symbol(s, name, addr).drop_last() =~= without(s, name));
    lemma_lookup_without(s, name, other);
}

/// A name given a new address is no longer listed at any other address.
pub proof fn law_reassigned_symbol_leaves_old_address(s: Seq<SymbolEntry>, name: Seq<char>, addr: u16, old_addr: u16)
    requires
        old_addr != addr,
    ensures
        !names_at(with_symbol(s, name, addr), old_addr).contains(name),
        names_at(with_symbol(s, name, addr), addr).contains(name),
{
    let w = with_symbol(s, name, addr);
    assert(w.drop_last() =~= without(s, name));
    lemma_names_at_without(s, name, old_addr);
    assert(names_at(w, addr).last() == name);
}

/// The table counts names: giving an address to a new name adds one,
/// to a name it holds adds none.
pub proof fn law_symbol_count(s: Seq<SymbolEntry>, name: Seq<char>, addr: u16)
    requires
        names_distinct(s),
    ensures
        with_symbol(s, name, addr).len() == if lookup(s, name) is Some {
            s.len() as int
        } else {
            s.len() + 1int
        },
{
    lemma_without_len(s, name);
}

/// A name outside the entries of `s` is listed at no address.
proof fn lemma_names_at_absent(s: Seq<SymbolEntry>, name: Seq<char>, addr: u16)
    requires
        forall|k: int| 0 <= k < s.len() ==> #[trigger] s[k].0 != name,
    ensures
        !names_at(s, addr).contains(name),
    decreases s.len(),
{
    if s.len() > 0 {
        let t = s.drop_last();
        assert forall|k: int| 0 <= k < t.len() implies #[trigger] t[k].0 != name by {
            assert(t[k] == s[k]);
        }
        lemma_names_at_absent(t, name, addr);
        assert(s[s.len() - 1].0 != name);
    }
}

/// In a table with distinct names, a name has an address exactly when it
/// is listed at that address.
proof fn lemma_lookup_iff_listed(s: Seq<SymbolEntry>, name: Seq<char>, addr: u16)
    requires
        names_distinct(s),
    ensures
        (lookup(s, name) == Some(addr)) == names_at(s, addr).contains(name),
    decreases s.len(),
{
    if s.len() > 0 {
        let t = s.drop_last();
        assert(names_distinct(t));
        lemma_lookup_iff_listed(t, name, addr);
        let last = s.last();
        if last.0 == name {
            assert forall|k: int| 0 <= k < t.len() implies #[trigger] t[k].0 != name by {
                assert(t[k] == s[k]);
                assert(s[k].0 != s[s.len() - 1].0);
            }
            lemma_names_at_absent(t, name, addr);
            if last.1 == addr {
                assert(names_at(s, addr).last() == name);
            }
        } else if last.1 == addr {
            assert(names_at(s, addr) == names_at(t, addr).push(last.0));
            if names_at(t, addr).contains(name) {
                let i = choose|i: int| 0 <= i < names_at(t, addr).len() && names_at(t, addr)[i] == name;
                assert(names_at(s, addr)[i] == name);
            }
            if names_at(s, addr).contains(name) {
                let i = choose|i: int| 0 <= i < names_at(s, addr).len() && names_at(s, addr)[i] == name;
                assert(i < names_at(t, addr).len());
                assert(names_at(t, addr)[i] == name);
            }
        }
    }
}

/// Giving a name an address keeps the names of the table distinct.
proof fn lemma_with_symbol_distinct(s: Seq<SymbolEntry>, name: Seq<char>, addr: u16)
    requires
        names_distinct(s),
    ensures
        names_distinct(with_symbol(s, name, addr)),
{
    lemma_without_distinct(s, name);
    lemma_without_excludes(s, name);
    let w = without(s, name);
    let n = with_symbol(s, name, addr);
    assert forall|a: int, b: int| 0 <= a < b < n.len() implies #[trigger] n[a].0 != #[trigger] n[b].0 by {
        assert(n[a] == w[a]);
        if b < n.len() - 1 {
            assert(n[b] == w[b]);
        }
    }
}

/// Removing a name keeps the names of the table distinct.
proof fn lemma_without_distinct(s: Seq<SymbolEntry>, name: Seq<char>)
    requires
        names_distinct(s),
    ensures
        names_distinct(without(s, name)),
        forall|k: int| 0 <= k < without(s, name).len() ==> exists|j: int| 0 <= j < s.len() && s[j] == #[trigger] without(s, name)[k],
    decreases s.len(),
{
    if s.len() > 0 {
        let t = s.drop_last();
        assert(names_distinct(t));
        lemma_without_distinct(t, name);
        let wt = without(t, name);
        let w = without(s, name);
        assert forall|k: int| 0 <= k < w.len() implies exists|j: int| 0 <= j < s.len() && s[j] == #[trigger] w[k] by {
            if s.last().0 != name && k == w.len() - 1 {
                assert(s[s.len() - 1] == w[k]);
            } else {
                assert(w[k] == wt[k]);
                let j = choose|j: int| 0 <= j < t.len() && t[j] == wt[k];
                assert(s[j] == t[j]);
            }
        }
        if s.last().0 != name {
            assert forall|a: int, b: int| 0 <= a < b < w.len() implies #[trigger] w[a].0 != #[trigger] w[b].0 by {
                assert(w[a] == wt[a]);
                if b < w.len() - 1 {
                    assert(w[b] == wt[b]);
                } else {
                    let j = choose|j: int| 0 <= j < t.len() && t[j] == wt[a];
                    assert(s[j] == t[j]);
                    assert(s[j].0 != s[s.len() - 1].0);
                }
            }
        }
    }
}

/// Whether the lookups of a table agree: no name occurs twice, a name has
/// an address exactly when it is listed at that address, and no address
/// lists a name twice.
pub open spec fn lookups_consistent(s: Seq<SymbolEntry>) -> bool {
    &&& names_distinct(s)
    &&& forall|name: Seq<char>, addr: u16|
        #![trigger names_at(s, addr).contains(name)]
        (lookup(s, name) == Some(addr)) == names_at(s, addr).contains(name)
    &&& forall|addr: u16, i: int, j: int|
        0 <= i < j < names_at(s, addr).len() ==> #[trigger] names_at(s, addr)[i] != #[trigger] names_at(s, addr)[j]
}

/// The lookups of an empty table agree.
pub proof fn law_empty_table_consistent()
    ensures
        lookups_consistent(Seq::<SymbolEntry>::empty()),
{
}

/// Adding a symbol to a table whose lookups agree keeps them in agreement;
/// the name then has the new address, comes last among the names of that
/// address, and every other name keeps its address.
pub proof fn law_add_symbol_keeps_lookups_consistent(s: Seq<SymbolEntry>, name: Seq<char>, addr: u16)
    requires
        lookups_consistent(s),
    ensures
        lookups_consistent(with_symbol(s, name, addr)),
        lookup(with_symbol(s, name, addr), name) == Some(addr),
        names_at(with_symbol(s, name, addr), addr).len() > 0,
        names_at(with_symbol(s, name, addr), addr).last() == name,
        forall|other: Seq<char>| other != name ==> #[trigger] lookup(with_symbol(s, name, addr), other) == lookup(s, other),
{
    let n = with_symbol(s, name, addr);
    lemma_with_symbol_distinct(s, name, addr);
    assert forall|x: Seq<char>, a: u16|
        #![trigger names_at(n, a).contains(x)]
        (lookup(n, x) == Some(a)) == names_at(n, a).contains(x) by {
        lemma_lookup_iff_listed(n, x, a);
    }
    assert forall|a: u16, i: int, j: int|
        0 <= i < j < names_at(n, a).len() implies #[trigger] names_at(n, a)[i] != #[trigger] names_at(n, a)[j] by {
        lemma_names_at_distinct(n, a);
    }
    law_added_symbol_is_found(s, name, addr);
    assert(n.drop_last() =~= without(s, name));
    assert forall|other: Seq<char>| other != name implies #[trigger] lookup(n, other) == lookup(s, other) by {
        law_other_symbols_unchanged(s, name, addr, other);
    }
}

} // verus!
