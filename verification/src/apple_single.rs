//! AppleSingle files: a header (magic number, version, filler), then
//! entry descriptors pointing at the entries. The data fork holds the
//! program, the ProDOS information gives its load address.
use crate::atari_binary::{copy_bytes, segment_view};
use crate::commands::MemorySegment;
use crate::text::{byte_preview, dec_repr, hex2, hex_repr, push_byte_preview, push_dec, push_hex, push_hex2, push_str};
use vstd::prelude::*;

verus! {

/// An entry of an AppleSingle file.
#[derive(Debug, PartialEq, Eq)]
pub enum ASEntry {
    DataFork { data: Vec<u8> },
    ProDosInfo { access: u16, file_type: u16, auxiliary_type: u32 },
}

/// An entry as plain values.
pub enum ASEntryView {
    DataFork(Seq<u8>),
    ProDosInfo(nat, nat, nat),
}

impl ASEntry {
    /// The entry as plain values.
    pub open spec fn view(&self) -> ASEntryView {
        match self {
            ASEntry::DataFork { data } => ASEntryView::DataFork(data@),
            ASEntry::ProDosInfo { access, file_type, auxiliary_type } => ASEntryView::ProDosInfo(
                *access as nat,
                *file_type as nat,
                *auxiliary_type as nat,
            ),
        }
    }
}

/// Big-endian value of the two bytes at `i`.
pub open spec fn be16(b: Seq<u8>, i: int) -> nat {
    b[i] as nat * 0x100 + b[i + 1] as nat
}

/// Big-endian value of the four bytes at `i`.
pub open spec fn be32(b: Seq<u8>, i: int) -> nat {
    b[i] as nat * 0x1000000 + b[i + 1] as nat * 0x10000 + b[i + 2] as nat * 0x100 + b[i + 3] as nat
}

/// Lower case hexadecimal of the bytes `from..to` of `b`.
pub open spec fn hex_bytes(b: Seq<u8>, from: int, to: int) -> Seq<char>
    decreases to - from,
{
    if to <= from {
        seq![]
    } else {
        hex_bytes(b, from, to - 1) + hex2(b[to - 1])
    }
}

/// The entries described from descriptor `k` on (of `n`), with the load
/// address found so far, or the message of the error met.
pub open spec fn apple_entries(b: Seq<u8>, k: nat, n: nat, load: nat) -> Result<(Seq<ASEntryView>, nat), Seq<char>>
    decreases n - k,
{
    if k >= n {
        Ok((seq![], load))
    } else {
        let d = 26 + 12 * k;
        if d + 12 > b.len() {
            Err("File too short for entry descriptor"@)
        } else {
            let id = be32(b, d as int);
            let off = be32(b, d + 4int);
            let len = be32(b, d + 8int);
            if id == 1 {
                if off + len > b.len() {
                    Err("Data fork entry extends beyond file"@)
                } else {
                    match apple_entries(b, k + 1, n, load) {
                        Ok((rest, l)) => Ok((seq![ASEntryView::DataFork(b.subrange(off as int, off + len as int))] + rest, l)),
                        Err(e) => Err(e),
                    }
                }
            } else if id == 11 {
                if len != 8 {
                    Err("ProDOS info must be 8 bytes, got "@ + dec_repr(len))
                } else if off + len > b.len() {
                    Err("ProDOS info entry extends beyond file"@)
                } else {
                    let aux = be32(b, off + 4int);
                    match apple_entries(b, k + 1, n, aux % 0x10000) {
                        Ok((rest, l)) => Ok(
                            (
                                seq![ASEntryView::ProDosInfo(be16(b, off as int), be16(b, off + 2int), aux)] + rest,
                                l,
                            ),
                        ),
                        Err(e) => Err(e),
                    }
                }
            } else {
                Err("Unsupported entry type: "@ + dec_repr(id))
            }
        }
    }
}

/// Index of the first non-zero filler byte at or after `i` (before 24).
pub open spec fn first_filler(b: Seq<u8>, i: nat) -> nat
    decreases 24 - i,
{
    if i >= 24 || b[i as int] != 0 {
        i
    } else {
        first_filler(b, i + 1)
    }
}

/// What reading `b` as an AppleSingle file gives: its entries and load
/// address (the low 16 bits of the last ProDOS auxiliary type, else zero),
/// or an error message.
pub open spec fn apple_parse(b: Seq<u8>) -> Result<(Seq<ASEntryView>, nat), Seq<char>> {
    if b.len() < 4 || b[0] != 0x00 || b[1] != 0x05 || b[2] != 0x16 || b[3] != 0x00 {
        Err(
            "Invalid magic number: "@ + if b.len() >= 4 {
                hex_bytes(b, 0, 4)
            } else {
                Seq::<char>::empty()
            },
        )
    } else if b.len() < 8 || b[4] != 0x00 || b[5] != 0x02 || b[6] != 0x00 || b[7] != 0x00 {
        Err(
            "Unsupported version: "@ + if b.len() >= 8 {
                hex_bytes(b, 4, 8)
            } else {
                Seq::<char>::empty()
            },
        )
    } else if b.len() < 24 {
        Err("File too short for header"@)
    } else {
        apple_body(b)
    }
}

/// What follows the header checks: the filler, the entry count, the
/// entries.
pub open spec fn apple_body(b: Seq<u8>) -> Result<(Seq<ASEntryView>, nat), Seq<char>> {
    if first_filler(b, 8) < 24 {
        Err("Invalid filler byte at offset "@ + dec_repr(first_filler(b, 8)))
    } else if b.len() < 26 {
        Err("File too short for entry count"@)
    } else {
        apple_entries(b, 0, be16(b, 24), 0)
    }
}

/// A parsed AppleSingle file.
#[derive(Debug)]
pub struct AppleSingle {
    bytes: Vec<u8>,
    entries: Vec<ASEntry>,
    load_address: u16,
}

/// Append the lower case hexadecimal of `b[from..to]`.
fn push_hex_bytes(s: &mut String, b: &Vec<u8>, from: usize, to: usize)
    requires
        from <= to <= b@.len(),
    ensures
        final(s)@ == old(s)@ + hex_bytes(b@, from as int, to as int),
{
    let ghost start = s@;
    let mut i = from;
    while i < to
        invariant
            from <= i <= to <= b@.len(),
            s@ == start + hex_bytes(b@, from as int, i as int),
        decreases to - i,
    {
        push_hex2(s, b[i]);
        i = i + 1;
        assert(s@ =~= start + hex_bytes(b@, from as int, i as int));
    }
}

/// An error message.
fn message(text: &str) -> (s: String)
    ensures
        s@ == text@,
{
    let mut s = String::new();
    push_str(&mut s, text);
    assert(s@ =~= text@);
    s
}

/// Big-endian value of the four bytes at `i`.
fn read_be32(b: &Vec<u8>, i: usize) -> (v: u64)
    requires
        i + 4 <= b@.len(),
    ensures
        v == be32(b@, i as int),
{
    let n = b.len();
    assert(i + 4 <= n);
    b[i] as u64 * 0x1000000 + b[i + 1] as u64 * 0x10000 + b[i + 2] as u64 * 0x100 + b[i + 3] as u64
}

impl AppleSingle {
    /// The entries, in descriptor order.
    pub closed spec fn entries(&self) -> Seq<ASEntryView> {
        self.entries@.map_values(|e: ASEntry| e@)
    }

    /// The load address.
    pub closed spec fn load(&self) -> nat {
        self.load_address as nat
    }

    /// Read an AppleSingle file.
    #[verifier::rlimit(60)]
    pub fn new(bytes: Vec<u8>) -> (r: Result<AppleSingle, String>)
        ensures
            match apple_parse(bytes@) {
                Ok((entries, load)) => r matches Ok(a) && a.entries() == entries && a.load() == load,
                Err(m) => r matches Err(e) && e@ == m,
            },
    {
        let ghost b = bytes@;
        let len = bytes.len();
        if len < 4 || bytes[0] != 0x00 || bytes[1] != 0x05 || bytes[2] != 0x16 || bytes[3] != 0x00 {
            let mut s = message("Invalid magic number: ");
            if len >= 4 {
                push_hex_bytes(&mut s, &bytes, 0, 4);
            }
            assert(s@ =~= apple_parse(b)->Err_0);
            return Err(s);
        }
        if len < 8 || bytes[4] != 0x00 || bytes[5] != 0x02 || bytes[6] != 0x00 || bytes[7] != 0x00 {
            let mut s = message("Unsupported version: ");
            if len >= 8 {
                push_hex_bytes(&mut s, &bytes, 4, 8);
            }
            assert(s@ =~= apple_parse(b)->Err_0);
            return Err(s);
        }
        if len < 24 {
            return Err(message("File too short for header"));
        }
        let mut i: usize = 8;
        assert(apple_parse(b) == apple_body(b));
        while i < 24
            invariant
                8 <= i <= 24 <= b.len(),
                b == bytes@,
                apple_parse(b) == apple_body(b),
                first_filler(b, 8) == first_filler(b, i as nat),
            decreases 24 - i,
        {
            if bytes[i] != 0 {
                let mut s = message("Invalid filler byte at offset ");
                push_dec(&mut s, i as u128);
                return Err(s);
            }
            i = i + 1;
        }
        if len < 26 {
            return Err(message("File too short for entry count"));
        }
        let n = bytes[24] as usize * 0x100 + bytes[25] as usize;
        let mut entries: Vec<ASEntry> = Vec::new();
        let mut load: u64 = 0;
        let mut k: usize = 0;
        let ghost mut done: Seq<ASEntryView> = seq![];
        assert(apple_parse(b) == apple_entries(b, 0, n as nat, 0));
        while k < n
            invariant
                b == bytes@,
                len == b.len(),
                n <= 0x10000,
                k <= n,
                load < 0x10000,
                entries@.map_values(|e: ASEntry| e@) == done,
                match apple_entries(b, k as nat, n as nat, load as nat) {
                    Ok((rest, l)) => apple_parse(b) == Ok::<(Seq<ASEntryView>, nat), Seq<char>>((done + rest, l)),
                    Err(e) => apple_parse(b) == Err::<(Seq<ASEntryView>, nat), Seq<char>>(e),
                },
            decreases n - k,
        {
            let d = 26 + 12 * k;
            if d + 12 > len {
                return Err(message("File too short for entry descriptor"));
            }
            let id = read_be32(&bytes, d);
            let off = read_be32(&bytes, d + 4);
            let elen = read_be32(&bytes, d + 8);
            let ghost before = done;
            if id == 1 {
                if off + elen > len as u64 {
                    return Err(message("Data fork entry extends beyond file"));
                }
                let o = off as usize;
                let e = elen as usize;
                assert(o as u64 == off && e as u64 == elen);
                assert(o + e <= len);
                let mut data: Vec<u8> = Vec::new();
                let mut j = o;
                let end = o + e;
                while j < end
                    invariant
                        end == o + e,
                        o + e <= b.len(),
                        b == bytes@,
                        o <= j <= o + e,
                        data@ == b.subrange(o as int, j as int),
                    decreases o + e - j,
                {
                    data.push(bytes[j]);
                    j = j + 1;
                    assert(data@ =~= b.subrange(o as int, j as int));
                }
                let ghost v = ASEntryView::DataFork(data@);
                entries.push(ASEntry::DataFork { data });
                proof {
                    assert(entries@.map_values(|e: ASEntry| e@) =~= before.push(v));
                    match apple_entries(b, (k + 1) as nat, n as nat, load as nat) {
                        Ok((rest, l)) => {
                            assert(done + (seq![v] + rest) =~= done.push(v) + rest);
                        },
                        Err(e) => {},
                    }
                    done = done.push(v);
                }
            } else if id == 11 {
                if elen != 8 {
                    let mut s = message("ProDOS info must be 8 bytes, got ");
                    push_dec(&mut s, elen as u128);
                    return Err(s);
                }
                if off + elen > len as u64 {
                    return Err(message("ProDOS info entry extends beyond file"));
                }
                let o = off as usize;
                let access = bytes[o] as u16 * 0x100 + bytes[o + 1] as u16;
                let file_type = bytes[o + 2] as u16 * 0x100 + bytes[o + 3] as u16;
                let aux = read_be32(&bytes, o + 4);
                load = aux % 0x10000;
                let ghost v = ASEntryView::ProDosInfo(access as nat, file_type as nat, aux as nat);
                entries.push(ASEntry::ProDosInfo { access, file_type, auxiliary_type: aux as u32 });
                proof {
                    assert(entries@.map_values(|e: ASEntry| e@) =~= before.push(v));
                    match apple_entries(b, (k + 1) as nat, n as nat, load as nat) {
                        Ok((rest, l)) => {
                            assert(done + (seq![v] + rest) =~= done.push(v) + rest);
                        },
                        Err(e) => {},
                    }
                    done = done.push(v);
                }
            } else {
                let mut s = message("Unsupported entry type: ");
                push_dec(&mut s, id as u128);
                return Err(s);
            }
            k = k + 1;
        }
        assert(done + seq![] =~= done);
        Ok(AppleSingle { bytes, entries, load_address: load as u16 })
    }

    /// The entries, in descriptor order.
    pub fn get_entries(&self) -> (e: &[ASEntry])
        ensures
            e@.map_values(|x: ASEntry| x@) == self.entries(),
    {
        self.entries.as_slice()
    }

    /// The memory segments to load: each data fork, at the load address.
    pub fn into_memory_segments(&self) -> (v: Vec<MemorySegment>)
        ensures
            v@.map_values(|s: MemorySegment| segment_view(s)) == data_segments(self.entries(), self.load()),
    {
        let mut out: Vec<MemorySegment> = Vec::new();
        let mut i: usize = 0;
        while i < self.entries.len()
            invariant
                i <= self.entries@.len(),
                out@.map_values(|s: MemorySegment| segment_view(s)) == data_segments(
                    self.entries().subrange(0, i as int),
                    self.load(),
                ),
            decreases self.entries@.len() - i,
        {
            let ghost before = out@.map_values(|s: MemorySegment| segment_view(s));
            assert(self.entries().subrange(0, i + 1).drop_last() =~= self.entries().subrange(0, i as int));
            if let ASEntry::DataFork { data } = &self.entries[i] {
                out.push(MemorySegment { address: self.load_address as usize, data: copy_bytes(data) });
                assert(out@.map_values(|s: MemorySegment| segment_view(s)) =~= before.push(
                    (self.load(), data@),
                ));
            }
            i = i + 1;
        }
        assert(self.entries().subrange(0, self.entries@.len() as int) =~= self.entries());
        out
    }
}

/// The segments of the data forks among `e`, each at `load`.
pub open spec fn data_segments(e: Seq<ASEntryView>, load: nat) -> Seq<(nat, Seq<u8>)>
    decreases e.len(),
{
    if e.len() == 0 {
        seq![]
    } else {
        match e.last() {
            ASEntryView::DataFork(d) => data_segments(e.drop_last(), load).push((load, d)),
            _ => data_segments(e.drop_last(), load),
        }
    }
}

/// The line that describes an entry.
pub open spec fn entry_line(e: ASEntryView) -> Seq<char> {
    match e {
        ASEntryView::DataFork(data) => "  DataForkEntry, len: 0x"@ + hex_repr(data.len(), false) + ": "@
            + byte_preview(data),
        ASEntryView::ProDosInfo(access, file_type, auxiliary_type) => "  ProDosEntry, access: 0x"@ + hex_repr(
            access,
            false,
        ) + ", fileType: 0x"@ + hex_repr(file_type, false) + ", auxiliaryType: 0x"@ + hex_repr(auxiliary_type, false),
    }
}

impl AppleSingle {
    /// A description of the file: its load address, then one line per
    /// entry (a data fork shows its first bytes).
    pub fn dump(&self) -> (v: Vec<String>)
        ensures
            v@.map_values(|l: String| l@) == seq!["AppleSingle, loadAddress: 0x"@ + hex_repr(self.load(), false)]
                + self.entries().map_values(|e: ASEntryView| entry_line(e)),
    {
        let mut v: Vec<String> = Vec::new();
        let mut head = String::new();
        push_str(&mut head, "AppleSingle, loadAddress: 0x");
        push_hex(&mut head, self.load_address as usize, 0, false);
        v.push(head);
        let ghost first = v@.map_values(|l: String| l@);
        let mut i: usize = 0;
        while i < self.entries.len()
            invariant
                i <= self.entries@.len(),
                v@.map_values(|l: String| l@) == first + self.entries().take(i as int).map_values(
                    |e: ASEntryView| entry_line(e),
                ),
            decreases self.entries@.len() - i,
        {
            let mut line = String::new();
            match &self.entries[i] {
                ASEntry::DataFork { data } => {
                    push_str(&mut line, "  DataForkEntry, len: 0x");
                    push_hex(&mut line, data.len(), 0, false);
                    push_str(&mut line, ": ");
                    push_byte_preview(&mut line, data);
                    assert(line@ =~= entry_line(self.entries@[i as int]@));
                },
                ASEntry::ProDosInfo { access, file_type, auxiliary_type } => {
                    push_str(&mut line, "  ProDosEntry, access: 0x");
                    push_hex(&mut line, *access as usize, 0, false);
                    push_str(&mut line, ", fileType: 0x");
                    push_hex(&mut line, *file_type as usize, 0, false);
                    push_str(&mut line, ", auxiliaryType: 0x");
                    push_hex(&mut line, *auxiliary_type as usize, 0, false);
                    assert(line@ =~= entry_line(self.entries@[i as int]@));
                },
            }
            let ghost before = v@;
            let ghost text = line@;
            v.push(line);
            proof {
                let f = |l: String| l@;
                let g = |e: ASEntryView| entry_line(e);
                assert(v@.map_values(f) =~= before.map_values(f).push(text));
                assert(self.entries()[i as int] == self.entries@[i as int]@);
                assert(self.entries().take(i + 1).map_values(g) =~= self.entries().take(i as int).map_values(g).push(
                    entry_line(self.entries()[i as int]),
                ));
                assert(v@.map_values(f) =~= first + self.entries().take(i + 1).map_values(g));
            }
            i = i + 1;
        }
        assert(self.entries().take(self.entries@.len() as int) =~= self.entries());
        v
    }
}

} // verus!
