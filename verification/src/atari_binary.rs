//! Atari binary load files (XEX): `FF FF` then blocks, each a start and an
//! end address (little endian) followed by the bytes between them; the
//! special blocks at `$02E2` and `$02E0` give the INIT and RUN addresses.
use crate::commands::MemorySegment;
use crate::text::{byte_preview, dec_repr, hex2, hex_repr, push_byte_preview, push_dec, push_hex, push_hex2, push_str};
use vstd::prelude::*;

verus! {

/// A section of an Atari binary.
#[derive(Debug, PartialEq, Eq)]
pub enum Section {
    Init { init_address: usize },
    Run { run_address: usize },
    Data { start_address: usize, data: Vec<u8> },
}

/// A section as plain values.
pub enum SectionView {
    Init(nat),
    Run(nat),
    Data(nat, Seq<u8>),
}

impl Section {
    /// The section as plain values.
    pub open spec fn view(&self) -> SectionView {
        match self {
            Section::Init { init_address } => SectionView::Init(*init_address as nat),
            Section::Run { run_address } => SectionView::Run(*run_address as nat),
            Section::Data { start_address, data } => SectionView::Data(*start_address as nat, data@),
        }
    }
}

/// A 16 bit little-endian word at `i`.
pub open spec fn word_at(b: Seq<u8>, i: int) -> nat {
    b[i] as nat + 256 * b[i + 1] as nat
}

/// The sections of an Atari binary read from position `i` on, or the
/// message of the error met. Past a RUN block the file must end. A block
/// whose end address is below its start address, and a block header cut
/// short by the end of the file, are errors. A data block longer than what
/// is left is skipped.
pub open spec fn atari_scan(b: Seq<u8>, i: nat) -> Result<Seq<SectionView>, Seq<char>>
    decreases b.len() - i,
{
    let len = b.len();
    if i >= len {
        Ok(seq![])
    } else if i + 1 < len && b[i as int] == 0xe2 && b[i + 1int] == 0x02 {
        let j = i + 4;
        if j + 1 < len {
            match atari_scan(b, j + 2) {
                Ok(rest) => Ok(seq![SectionView::Init(word_at(b, j as int))] + rest),
                Err(e) => Err(e),
            }
        } else if j < len {
            atari_scan(b, j)
        } else {
            Ok(seq![])
        }
    } else if i + 1 < len && b[i as int] == 0xe0 && b[i + 1int] == 0x02 {
        let j = i + 4;
        if j + 1 < len {
            if j + 2 != len {
                Err(
                    "Failed to process file, got run address but there is more data, i: "@ + dec_repr(
                        j + 2,
                    ) + ", size: "@ + dec_repr(len),
                )
            } else {
                Ok(seq![SectionView::Run(word_at(b, j as int))])
            }
        } else if j < len {
            atari_scan(b, j)
        } else {
            Ok(seq![])
        }
    } else {
        let j: nat = if i + 1 < len && b[i as int] == 0xff && b[i + 1int] == 0xff {
            i + 2
        } else {
            i
        };
        if j + 3 < len {
            let start = word_at(b, j as int);
            let end = word_at(b, j + 2int);
            if end < start {
                Err("Block ends before it starts at offset "@ + dec_repr(j))
            } else {
                let n: nat = (end - start + 1) as nat;
                let k: nat = j + 4;
                if k + n <= len {
                    match atari_scan(b, k + n) {
                        Ok(rest) => Ok(seq![SectionView::Data(start, b.subrange(k as int, k + n as int))] + rest),
                        Err(e) => Err(e),
                    }
                } else {
                    atari_scan(b, k)
                }
            }
        } else if j > i {
            atari_scan(b, j)
        } else {
            Err("Truncated block at offset "@ + dec_repr(i))
        }
    }
}

/// What reading `b` as an Atari binary gives: its sections, or an error
/// message.
pub open spec fn atari_parse(b: Seq<u8>) -> Result<Seq<SectionView>, Seq<char>> {
    if b.len() < 2 || b[0] != 0xff || b[1] != 0xff {
        Err(
            "Unhandled header type: "@ + if b.len() >= 2 {
                hex2(b[0]) + hex2(b[1])
            } else {
                Seq::<char>::empty()
            },
        )
    } else {
        atari_scan(b, 0)
    }
}

/// The run address given by the sections: that of the RUN block, or zero.
pub open spec fn run_address_of(s: Seq<SectionView>) -> nat
    decreases s.len(),
{
    if s.len() == 0 {
        0
    } else {
        match s.last() {
            SectionView::Run(a) => a,
            _ => run_address_of(s.drop_last()),
        }
    }
}

/// The memory segment a section puts in memory: data at its address, the
/// INIT and RUN addresses in their vectors at `$02E2` and `$02E0`.
pub open spec fn segment_of(s: SectionView) -> (nat, Seq<u8>) {
    match s {
        SectionView::Data(a, d) => (a, d),
        SectionView::Init(a) => (0x02E2, seq![(a % 256) as u8, ((a / 256) % 256) as u8]),
        SectionView::Run(a) => (0x02E0, seq![(a % 256) as u8, ((a / 256) % 256) as u8]),
    }
}

/// The view of a segment.
pub open spec fn segment_view(s: MemorySegment) -> (nat, Seq<u8>) {
    (s.address as nat, s.data@)
}

/// A parsed Atari binary.
#[derive(Debug)]
pub struct AtariBinary {
    bytes: Vec<u8>,
    sections: Vec<Section>,
    run_address: usize,
}

impl AtariBinary {
    /// The bytes of the file.
    pub closed spec fn bytes(&self) -> Seq<u8> {
        self.bytes@
    }

    /// The sections, in file order.
    pub closed spec fn sections(&self) -> Seq<SectionView> {
        self.sections@.map_values(|s: Section| s@)
    }

    /// The run address.
    pub closed spec fn run(&self) -> nat {
        self.run_address as nat
    }

    /// Read an Atari binary.
    #[verifier::rlimit(60)]
    pub fn new(bytes: Vec<u8>) -> (r: Result<AtariBinary, String>)
        ensures
            match atari_parse(bytes@) {
                Ok(s) => r matches Ok(b) && b.sections() == s && b.bytes() == bytes@ && b.run() == run_address_of(s),
                Err(m) => r matches Err(e) && e@ == m,
            },
    {
        if bytes.len() < 2 || bytes[0] != 0xff || bytes[1] != 0xff {
            let mut s = String::new();
            push_str(&mut s, "Unhandled header type: ");
            if bytes.len() >= 2 {
                push_hex2(&mut s, bytes[0]);
                push_hex2(&mut s, bytes[1]);
            }
            proof {
                reveal_strlit("Unhandled header type: ");
            }
            assert(s@ =~= atari_parse(bytes@)->Err_0);
            return Err(s);
        }
        let ghost b = bytes@;
        let len = bytes.len();
        let mut sections: Vec<Section> = Vec::new();
        let mut run_address: usize = 0;
        let mut i: usize = 0;
        let ghost mut done: Seq<SectionView> = seq![];
        while i < len
            invariant
                len == b.len(),
                b == bytes@,
                atari_parse(b) == atari_scan(b, 0),
                sections@.map_values(|s: Section| s@) == done,
                run_address as nat == run_address_of(done),
                match atari_scan(b, i as nat) {
                    Ok(rest) => atari_scan(b, 0) == Ok::<Seq<SectionView>, Seq<char>>(done + rest),
                    Err(e) => atari_scan(b, 0) == Err::<Seq<SectionView>, Seq<char>>(e),
                },
            decreases len - i,
        {
            let ghost before = sections@.map_values(|s: Section| s@);
            let ghost i0 = i;
            if i + 1 < len && bytes[i] == 0xe2 && bytes[i + 1] == 0x02 {
                i = if len - i >= 4 {
                    i + 4
                } else {
                    len
                };
                if i < len && i + 1 < len {
                    let a = bytes[i] as usize + 256 * bytes[i + 1] as usize;
                    sections.push(Section::Init { init_address: a });
                    proof {
                        let v = SectionView::Init(word_at(b, i as int));
                        assert(sections@.map_values(|s: Section| s@) =~= before.push(v));
                        match atari_scan(b, (i + 2) as nat) {
                            Ok(rest) => {
                                assert(done + (seq![v] + rest) =~= done.push(v) + rest);
                            },
                            Err(e) => {},
                        }
                        assert(run_address_of(done.push(v)) == run_address_of(done)) by {
                            assert(done.push(v).drop_last() =~= done);
                        }
                        done = done.push(v);
                    }
                    i = i + 2;
                }
            } else if i + 1 < len && bytes[i] == 0xe0 && bytes[i + 1] == 0x02 {
                i = if len - i >= 4 {
                    i + 4
                } else {
                    len
                };
                if i < len && i + 1 < len {
                    let a = bytes[i] as usize + 256 * bytes[i + 1] as usize;
                    if i + 2 != len {
                        let mut s = String::new();
                        push_str(&mut s, "Failed to process file, got run address but there is more data, i: ");
                        push_dec(&mut s, (i + 2) as u128);
                        push_str(&mut s, ", size: ");
                        push_dec(&mut s, len as u128);
                        proof {
                            reveal_strlit("Failed to process file, got run address but there is more data, i: ");
                            reveal_strlit(", size: ");
                        }
                        assert(atari_scan(b, i0 as nat) == Err::<Seq<SectionView>, Seq<char>>(s@));
                        return Err(s);
                    }
                    run_address = a;
                    sections.push(Section::Run { run_address: a });
                    proof {
                        let v = SectionView::Run(word_at(b, i as int));
                        assert(sections@.map_values(|s: Section| s@) =~= before.push(v));
                        assert(atari_scan(b, (i + 2) as nat) == Ok::<Seq<SectionView>, Seq<char>>(seq![]));
                        assert(done + seq![v] =~= done.push(v) + seq![]);
                        assert(done.push(v).drop_last() =~= done);
                        done = done.push(v);
                    }
                    i = i + 2;
                }
            } else {
                let start_i = i;
                if i + 1 < len && bytes[i] == 0xff && bytes[i + 1] == 0xff {
                    i = i + 2;
                }
                if i < len && len - i > 3 {
                    let start = bytes[i] as usize + 256 * bytes[i + 1] as usize;
                    let end = bytes[i + 2] as usize + 256 * bytes[i + 3] as usize;
                    if end < start {
                        let mut s = String::new();
                        push_str(&mut s, "Block ends before it starts at offset ");
                        push_dec(&mut s, i as u128);
                        proof {
                            reveal_strlit("Block ends before it starts at offset ");
                        }
                        assert(atari_scan(b, i0 as nat) == Err::<Seq<SectionView>, Seq<char>>(s@));
                        return Err(s);
                    }
                    let n = end - start + 1;
                    i = i + 4;
                    if n <= len - i {
                        let mut data: Vec<u8> = Vec::new();
                        let mut k = i;
                        while k < i + n
                            invariant
                                i + n <= len,
                                len == b.len(),
                                b == bytes@,
                                i <= k <= i + n,
                                data@ == b.subrange(i as int, k as int),
                            decreases i + n - k,
                        {
                            data.push(bytes[k]);
                            k = k + 1;
                            assert(data@ =~= b.subrange(i as int, k as int));
                        }
                        let ghost v = SectionView::Data(start as nat, data@);
                        sections.push(Section::Data { start_address: start, data });
                        proof {
                            assert(sections@.map_values(|s: Section| s@) =~= before.push(v));
                            match atari_scan(b, (i + n) as nat) {
                                Ok(rest) => {
                                    assert(done + (seq![v] + rest) =~= done.push(v) + rest);
                                },
                                Err(e) => {},
                            }
                            assert(done.push(v).drop_last() =~= done);
                            done = done.push(v);
                        }
                        i = i + n;
                    }
                } else if i == start_i {
                    let mut s = String::new();
                    push_str(&mut s, "Truncated block at offset ");
                    push_dec(&mut s, i as u128);
                    proof {
                        reveal_strlit("Truncated block at offset ");
                    }
                    assert(atari_scan(b, i0 as nat) == Err::<Seq<SectionView>, Seq<char>>(s@));
                    return Err(s);
                }
            }
        }
        proof {
            assert(done + seq![] =~= done);
        }
        Ok(AtariBinary { bytes, sections, run_address })
    }

    /// The sections, in file order.
    pub fn get_sections(&self) -> (s: &[Section])
        ensures
            s@.map_values(|x: Section| x@) == self.sections(),
    {
        self.sections.as_slice()
    }

    /// The run address: that of the RUN block, or zero.
    pub fn get_run_address(&self) -> (a: usize)
        ensures
            a as nat == self.run(),
    {
        self.run_address
    }

    /// The memory segments to load: the data blocks and the INIT and RUN
    /// vectors, in file order.
    pub fn into_memory_segments(&self) -> (v: Vec<MemorySegment>)
        ensures
            v@.map_values(|s: MemorySegment| segment_view(s)) == self.sections().map_values(
                |s: SectionView| segment_of(s),
            ),
    {
        let mut out: Vec<MemorySegment> = Vec::new();
        let mut i: usize = 0;
        while i < self.sections.len()
            invariant
                i <= self.sections@.len(),
                out@.map_values(|s: MemorySegment| segment_view(s)) == self.sections().subrange(
                    0,
                    i as int,
                ).map_values(|s: SectionView| segment_of(s)),
            decreases self.sections@.len() - i,
        {
            let ghost before = out@.map_values(|s: MemorySegment| segment_view(s));
            let seg = match &self.sections[i] {
                Section::Data { start_address, data } => MemorySegment {
                    address: *start_address,
                    data: copy_bytes(data),
                },
                Section::Init { init_address } => MemorySegment {
                    address: 0x02E2,
                    data: word_bytes(*init_address),
                },
                Section::Run { run_address } => MemorySegment {
                    address: 0x02E0,
                    data: word_bytes(*run_address),
                },
            };
            assert(segment_view(seg) == segment_of(self.sections()[i as int]));
            out.push(seg);
            assert(self.sections().subrange(0, i + 1) =~= self.sections().subrange(0, i as int).push(
                self.sections()[i as int],
            ));
            assert(out@.map_values(|s: MemorySegment| segment_view(s)) =~= before.push(
                segment_of(self.sections()[i as int]),
            ));
            i = i + 1;
        }
        assert(self.sections().subrange(0, self.sections@.len() as int) =~= self.sections());
        out
    }
}

/// The low and the high byte of a 16 bit address.
pub fn word_bytes(a: usize) -> (v: Vec<u8>)
    ensures
        v@ == seq![(a % 256) as u8, ((a / 256) % 256) as u8],
{
    let mut v = Vec::new();
    v.push((a % 256) as u8);
    v.push(((a / 256) % 256) as u8);
    assert(v@ =~= seq![(a % 256) as u8, ((a / 256) % 256) as u8]);
    v
}

/// A copy of `b`.
pub fn copy_bytes(b: &Vec<u8>) -> (v: Vec<u8>)
    ensures
        v@ == b@,
{
    let mut v = Vec::new();
    let mut i: usize = 0;
    while i < b.len()
        invariant
            i <= b@.len(),
            v@ == b@.subrange(0, i as int),
        decreases b@.len() - i,
    {
        v.push(b[i]);
        i = i + 1;
        assert(v@ =~= b@.subrange(0, i as int));
    }
    assert(v@ =~= b@);
    v
}

/// The line that describes a section.
pub open spec fn section_line(s: SectionView) -> Seq<char> {
    match s {
        SectionView::Data(start, data) => "  DataSection, start: 0x"@ + hex_repr(start, false) + ", len: 0x"@
            + hex_repr(data.len(), false) + ": "@ + byte_preview(data),
        SectionView::Init(a) => "  InitSection, init: 0x"@ + hex_repr(a, false),
        SectionView::Run(a) => "  RunSection, run: 0x"@ + hex_repr(a, false),
    }
}

impl AtariBinary {
    /// A description of the file: its run address and length, then one
    /// line per section (a data section shows its first bytes).
    pub fn dump(&self) -> (v: Vec<String>)
        ensures
            v@.map_values(|l: String| l@) == seq![
                "AtariBinary, runAddress: 0x"@ + hex_repr(self.run(), false) + ", len: 0x"@ + hex_repr(
                    self.bytes().len(),
                    false,
                ),
            ] + self.sections().map_values(|s: SectionView| section_line(s)),
    {
        let mut v: Vec<String> = Vec::new();
        let mut head = String::new();
        push_str(&mut head, "AtariBinary, runAddress: 0x");
        push_hex(&mut head, self.run_address, 0, false);
        push_str(&mut head, ", len: 0x");
        push_hex(&mut head, self.bytes.len(), 0, false);
        v.push(head);
        let ghost first = v@.map_values(|l: String| l@);
        let mut i: usize = 0;
        while i < self.sections.len()
            invariant
                i <= self.sections@.len(),
                v@.map_values(|l: String| l@) == first + self.sections().take(i as int).map_values(
                    |s: SectionView| section_line(s),
                ),
            decreases self.sections@.len() - i,
        {
            let mut line = String::new();
            match &self.sections[i] {
                Section::Data { start_address, data } => {
                    push_str(&mut line, "  DataSection, start: 0x");
                    push_hex(&mut line, *start_address, 0, false);
                    push_str(&mut line, ", len: 0x");
                    push_hex(&mut line, data.len(), 0, false);
                    push_str(&mut line, ": ");
                    push_byte_preview(&mut line, data);
                    assert(line@ =~= section_line(self.sections@[i as int]@));
                },
                Section::Init { init_address } => {
                    push_str(&mut line, "  InitSection, init: 0x");
                    push_hex(&mut line, *init_address, 0, false);
                    assert(line@ =~= section_line(self.sections@[i as int]@));
                },
                Section::Run { run_address } => {
                    push_str(&mut line, "  RunSection, run: 0x");
                    push_hex(&mut line, *run_address, 0, false);
                    assert(line@ =~= section_line(self.sections@[i as int]@));
                },
            }
            let ghost before = v@;
            let ghost text = line@;
            v.push(line);
            proof {
                let f = |l: String| l@;
                let g = |s: SectionView| section_line(s);
                assert(v@.map_values(f) =~= before.map_values(f).push(text));
                assert(self.sections()[i as int] == self.sections@[i as int]@);
                assert(self.sections().take(i + 1).map_values(g) =~= self.sections().take(i as int).map_values(g).push(
                    section_line(self.sections()[i as int]),
                ));
                assert(v@.map_values(f) =~= first + self.sections().take(i + 1).map_values(g));
            }
            i = i + 1;
        }
        assert(self.sections().take(self.sections@.len() as int) =~= self.sections());
        v
    }
}

/// The bytes of a data block that loads `data` (at least one byte) at
/// `start`: the optional `FF FF` header when `header`, the first and last
/// addresses (low byte first), then the data.
pub open spec fn block_bytes(start: nat, data: Seq<u8>, header: bool) -> Seq<u8> {
    let end = start + data.len() - 1;
    (if header {
        seq![0xffu8, 0xffu8]
    } else {
        Seq::<u8>::empty()
    }) + seq![(start % 256) as u8, (start / 256) as u8, (end % 256) as u8, (end / 256) as u8] + data
}

/// The bytes of a file made of the data blocks `blocks` (start, data,
/// whether an `FF FF` header comes before it), one after the other.
pub open spec fn blocks_bytes(blocks: Seq<(nat, Seq<u8>, bool)>) -> Seq<u8>
    decreases blocks.len(),
{
    if blocks.len() == 0 {
        Seq::<u8>::empty()
    } else {
        block_bytes(blocks[0].0, blocks[0].1, blocks[0].2) + blocks_bytes(blocks.drop_first())
    }
}

/// Whether a block fits the format: some data, all of it below `$10000`;
/// a block without header must not start at an address that reads as a
/// header (`$FFFF`) or as the INIT or RUN tag (`$02E2`, `$02E0`).
pub open spec fn loadable_block(b: (nat, Seq<u8>, bool)) -> bool {
    &&& b.1.len() > 0
    &&& b.0 + b.1.len() - 1 <= 0xffff
    &&& !b.2 ==> b.0 != 0xffff && b.0 != 0x02e2 && b.0 != 0x02e0
}

/// The data sections that blocks give.
pub open spec fn data_sections(blocks: Seq<(nat, Seq<u8>, bool)>) -> Seq<SectionView> {
    blocks.map_values(|b: (nat, Seq<u8>, bool)| SectionView::Data(b.0, b.1))
}

/// Reading blocks from where they start gives their data sections.
proof fn lemma_scan_blocks(pre: Seq<u8>, blocks: Seq<(nat, Seq<u8>, bool)>)
    requires
        forall|k: int| 0 <= k < blocks.len() ==> loadable_block(#[trigger] blocks[k]),
    ensures
        atari_scan(pre + blocks_bytes(blocks), pre.len()) == Ok::<Seq<SectionView>, Seq<char>>(data_sections(blocks)),
    decreases blocks.len(),
{
    let b = pre + blocks_bytes(blocks);
    if blocks.len() == 0 {
        assert(b =~= pre);
        assert(data_sections(blocks) =~= Seq::<SectionView>::empty());
    } else {
        let first = blocks[0];
        let rest = blocks.drop_first();
        assert(loadable_block(first));
        assert forall|k: int| 0 <= k < rest.len() implies loadable_block(#[trigger] rest[k]) by {
            assert(rest[k] == blocks[k + 1]);
        }
        let blk = block_bytes(first.0, first.1, first.2);
        let pre2 = pre + blk;
        assert(b =~= pre2 + blocks_bytes(rest));
        lemma_scan_blocks(pre2, rest);
        let i = pre.len();
        let h: nat = if first.2 {
            2
        } else {
            0
        };
        let start = first.0;
        let data = first.1;
        let end: nat = (start + data.len() - 1) as nat;
        assert(blk.len() == h + 4 + data.len());
        assert forall|x: int| 0 <= x < blk.len() implies b[i + x] == blk[x] by {
            assert(b[i + x] == (pre + blk + blocks_bytes(rest))[i + x]);
        }
        let j: int = (i + h) as int;
        assert(b[j] == blk[h as int]);
        assert(b[j] == (start % 256) as u8);
        assert(b[j + 1] == (start / 256) as u8);
        assert(b[j + 2] == (end % 256) as u8);
        assert(b[j + 3] == (end / 256) as u8);
        assert(start % 256 + 256 * (start / 256) == start) by (nonlinear_arith);
        assert(end % 256 + 256 * (end / 256) == end) by (nonlinear_arith);
        assert(word_at(b, j) == start);
        assert(word_at(b, j + 2) == end);
        if first.2 {
            assert(b[i as int] == 0xffu8 && b[i + 1int] == 0xffu8);
        } else {
            assert(!(b[i as int] == 0xffu8 && b[i + 1int] == 0xffu8)) by {
                if b[i as int] == 0xffu8 && b[i + 1int] == 0xffu8 {
                    assert(start == 255 + 256 * 255);
                }
            }
            assert(!(b[i as int] == 0xe2u8 && b[i + 1int] == 0x02u8)) by {
                if b[i as int] == 0xe2u8 && b[i + 1int] == 0x02u8 {
                    assert(start == 0xe2 + 256 * 2);
                }
            }
            assert(!(b[i as int] == 0xe0u8 && b[i + 1int] == 0x02u8)) by {
                if b[i as int] == 0xe0u8 && b[i + 1int] == 0x02u8 {
                    assert(start == 0xe0 + 256 * 2);
                }
            }
        }
        let k: int = j + 4;
        assert(b.subrange(k, k + data.len()) =~= data) by {
            assert forall|x: int| 0 <= x < data.len() implies b.subrange(k, k + data.len())[x] == data[x] by {
                assert(blk[h + 4 + x] == data[x]);
            }
        }
        assert(pre2.len() == k + data.len());
        assert(data_sections(blocks) =~= seq![SectionView::Data(start, data)] + data_sections(rest));
    }
}

/// A file made of data blocks, the first with the `FF FF` header, reads
/// as the data sections of those blocks, in order: the header is optional
/// before any later block.
pub proof fn law_data_blocks_read_back(blocks: Seq<(nat, Seq<u8>, bool)>)
    requires
        blocks.len() > 0,
        blocks[0].2,
        forall|k: int| 0 <= k < blocks.len() ==> loadable_block(#[trigger] blocks[k]),
    ensures
        atari_parse(blocks_bytes(blocks)) == Ok::<Seq<SectionView>, Seq<char>>(data_sections(blocks)),
{
    lemma_scan_blocks(Seq::<u8>::empty(), blocks);
    let b = blocks_bytes(blocks);
    assert(Seq::<u8>::empty() + b =~= b);
    let blk = block_bytes(blocks[0].0, blocks[0].1, blocks[0].2);
    assert(b == blk + blocks_bytes(blocks.drop_first()));
    assert(b[0] == blk[0] && b[1] == blk[1]);
}

} // verus!
