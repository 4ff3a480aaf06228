use vstd::prelude::*;

verus! {

/// Highest address of the 64 KiB address space.
pub const MEMMAX: usize = 0xffff;

/// Errors raised when a memory access falls outside of a memory bank.
#[derive(Debug, Clone, Copy, PartialEq, Eq)]
pub enum MemoryError {
    /// `ReadOverflow(len, addr)`: reading `len` bytes at `addr` goes past the end.
    ReadOverflow(usize, usize),
    /// `WriteOverflow(len, addr)`: writing `len` bytes at `addr` goes past the end.
    WriteOverflow(usize, usize),
    /// Any other failure at the given address (e.g. writing into a ROM).
    Other(usize, &'static str),
}

/// `s` where the bytes starting at `at` are replaced by `data`.
pub open spec fn splice(s: Seq<u8>, at: int, data: Seq<u8>) -> Seq<u8> {
    Seq::new(s.len(), |i: int| if at <= i < at + data.len() { data[i - at] } else { s[i] })
}

/// Little-endian value of a byte sequence (first byte is the least significant).
pub open spec fn le_value(bytes: Seq<u8>) -> nat
    decreases bytes.len(),
{
    if bytes.len() == 0 {
        0
    } else {
        bytes[0] as nat + 256 * le_value(bytes.drop_first())
    }
}

/// A device that can be read from and written to by address.
pub trait AddressableIO {
    /// The bytes the device holds, indexed by address.
    spec fn contents(&self) -> Seq<u8>;

    /// Read `len` bytes starting at `addr`.
    fn read(&self, addr: usize, len: usize) -> (r: Result<Vec<u8>, MemoryError>)
        ensures
            r matches Ok(v) ==> addr + len <= self.contents().len() && v@ == self.contents().subrange(
                addr as int,
                addr + len,
            ),
            r matches Err(e) ==> addr + len > self.contents().len() && e == MemoryError::ReadOverflow(len, addr),
    ;

    /// Write `data` starting at `location`.
    fn write(&mut self, location: usize, data: &[u8]) -> (r: Result<(), MemoryError>)
        ensures
            r is Ok ==> location + data@.len() <= old(self).contents().len() && final(self).contents()
                == splice(old(self).contents(), location as int, data@),
            r is Err ==> final(self).contents() == old(self).contents(),
    ;

    /// Number of addressable bytes.
    fn get_size(&self) -> (size: usize)
        ensures
            size == self.contents().len(),
    ;
}

/// Copy of `bytes[addr..addr + len]`.
fn copy_range(bytes: &[u8], addr: usize, len: usize) -> (v: Vec<u8>)
    requires
        addr + len <= bytes@.len(),
    ensures
        v@ == bytes@.subrange(addr as int, addr + len),
{
    let mut v: Vec<u8> = Vec::new();
    let mut i: usize = 0;
    let size = bytes.len();
    while i < len
        invariant
            i <= len,
            size == bytes@.len(),
            addr + len <= bytes@.len(),
            v@ == bytes@.subrange(addr as int, addr + i),
        decreases len - i,
    {
        v.push(bytes[addr + i]);
        i = i + 1;
        assert(v@ =~= bytes@.subrange(addr as int, addr + i));
    }
    v
}

/// Size of the RAM bank: the whole 64 KiB address space.
pub const RAM_SIZE: usize = 0x10000;

/// Random access memory covering the whole 64 KiB address space.
pub struct RAM {
    ram: [u8; 0x10000],
}

impl RAM {
    /// A RAM bank where every byte is zero.
    pub fn new() -> (ram: RAM)
        ensures
            ram.contents() == Seq::new(RAM_SIZE as nat, |i: int| 0u8),
    {
        let r = RAM { ram: [0u8; 0x10000] };
        assert(r.contents() =~= Seq::new(RAM_SIZE as nat, |i: int| 0u8));
        r
    }
}

impl Default for RAM {
    fn default() -> (ram: RAM)
        ensures
            ram.contents() == Seq::new(RAM_SIZE as nat, |i: int| 0u8),
    {
        RAM::new()
    }
}

impl AddressableIO for RAM {
    closed spec fn contents(&self) -> Seq<u8> {
        self.ram@
    }

    fn read(&self, addr: usize, len: usize) -> (r: Result<Vec<u8>, MemoryError>) {
        if addr <= RAM_SIZE && len <= RAM_SIZE - addr {
            Ok(copy_range(self.ram.as_slice(), addr, len))
        } else {
            Err(MemoryError::ReadOverflow(len, addr))
        }
    }

    /// Writing succeeds exactly when the data fits below the end of the bank.
    fn write(&mut self, location: usize, data: &[u8]) -> (r: Result<(), MemoryError>)
        ensures
            r is Ok <==> location + data@.len() <= RAM_SIZE,
            r matches Err(e) ==> e == MemoryError::WriteOverflow(data@.len() as usize, location),
    {
        if location <= RAM_SIZE && data.len() <= RAM_SIZE - location {
            let ghost start = self.ram@;
            let mut i: usize = 0;
            while i < data.len()
                invariant
                    i <= data@.len(),
                    location + data@.len() <= RAM_SIZE,
                    forall|k: int|
                        0 <= k < RAM_SIZE ==> #[trigger] self.ram@[k] == if location <= k < location
                            + i {
                            data@[k - location]
                        } else {
                            start[k]
                        },
                decreases data@.len() - i,
            {
                self.ram[location + i] = data[i];
                i = i + 1;
            }
            assert(self.ram@ =~= splice(start, location as int, data@));
            Ok(())
        } else {
            Err(MemoryError::WriteOverflow(data.len(), location))
        }
    }

    fn get_size(&self) -> (size: usize) {
        RAM_SIZE
    }
}

/// Read only memory holding a fixed image.
pub struct ROM {
    rom: Vec<u8>,
}

impl ROM {
    /// A ROM holding `data`, mapped from address 0.
    pub fn new(data: Vec<u8>) -> (rom: ROM)
        ensures
            rom.contents() == data@,
    {
        ROM { rom: data }
    }
}

impl AddressableIO for ROM {
    closed spec fn contents(&self) -> Seq<u8> {
        self.rom@
    }

    fn read(&self, addr: usize, len: usize) -> (r: Result<Vec<u8>, MemoryError>) {
        if addr <= self.rom.len() && len <= self.rom.len() - addr {
            Ok(copy_range(self.rom.as_slice(), addr, len))
        } else {
            Err(MemoryError::ReadOverflow(len, addr))
        }
    }

    /// A ROM cannot be written: this always fails.
    fn write(&mut self, location: usize, data: &[u8]) -> (r: Result<(), MemoryError>)
        ensures
            r == Err::<(), MemoryError>(MemoryError::Other(location, "trying to write in a read-only memory")),
    {
        Err(MemoryError::Other(location, "trying to write in a read-only memory"))
    }

    fn get_size(&self) -> (size: usize) {
        self.rom.len()
    }
}

/// The memory seen by the processor.
pub type Memory = MemoryStack;

/// The memory seen by the processor: a full 64 KiB RAM bank.
pub struct MemoryStack {
    ram: RAM,
}

impl MemoryStack {
    /// Memory backed by a zeroed 64 KiB RAM.
    pub fn new_with_ram() -> (m: MemoryStack)
        ensures
            m.contents() == Seq::new(RAM_SIZE as nat, |i: int| 0u8),
    {
        MemoryStack { ram: RAM::new() }
    }

}

impl AddressableIO for MemoryStack {
    closed spec fn contents(&self) -> Seq<u8> {
        self.ram.contents()
    }

    fn read(&self, addr: usize, len: usize) -> (r: Result<Vec<u8>, MemoryError>) {
        self.ram.read(addr, len)
    }

    /// Writing succeeds exactly when the data fits below the end of the memory.
    fn write(&mut self, location: usize, data: &[u8]) -> (r: Result<(), MemoryError>)
        ensures
            r is Ok <==> location + data@.len() <= RAM_SIZE,
            r matches Err(e) ==> e == MemoryError::WriteOverflow(data@.len() as usize, location),
    {
        self.ram.write(location, data)
    }

    fn get_size(&self) -> (size: usize) {
        self.ram.get_size()
    }
}

/// The processor memory always spans the whole 64 KiB address space.
pub broadcast proof fn lemma_memory_size(m: &MemoryStack)
    ensures
        #[trigger] m.contents().len() == RAM_SIZE,
{
}

/// Little-endian value of up to four bytes (first byte least significant).
pub fn little_endian(bytes: Vec<u8>) -> (value: usize)
    requires
        bytes@.len() <= 4,
    ensures
        value == le_value(bytes@),
{
    let mut value: usize = 0;
    let mut i: usize = bytes.len();
    while i > 0
        invariant
            i <= bytes@.len() <= 4,
            value == le_value(bytes@.subrange(i as int, bytes@.len() as int)),
            le_value(bytes@.subrange(i as int, bytes@.len() as int)) < pow256(
                (bytes@.len() - i) as nat,
            ),
        decreases i,
    {
        i = i - 1;
        let ghost tail = bytes@.subrange(i as int + 1, bytes@.len() as int);
        let ghost cur = bytes@.subrange(i as int, bytes@.len() as int);
        assert(cur.drop_first() =~= tail);
        assert(le_value(cur) == bytes@[i as int] as nat + 256 * le_value(tail));
        proof {
            lemma_pow256_le4((bytes@.len() - i - 1) as nat);
        }
        value = bytes[i] as usize + 256 * value;
    }
    assert(bytes@.subrange(0, bytes@.len() as int) =~= bytes@);
    value
}

/// 256 to the power `n`.
pub open spec fn pow256(n: nat) -> nat
    decreases n,
{
    if n == 0 {
        1
    } else {
        256 * pow256((n - 1) as nat)
    }
}

proof fn lemma_pow256_le4(n: nat)
    requires
        n <= 3,
    ensures
        256 * pow256(n) <= 0x1_0000_0000,
        pow256(n) <= 0x100_0000,
{
    reveal_with_fuel(pow256, 4);
}

/// Reading back what was written gives the written bytes, and the bytes
/// around them are as they were.
pub proof fn law_read_back_written(contents: Seq<u8>, location: int, data: Seq<u8>)
    requires
        0 <= location,
        location + data.len() <= contents.len(),
    ensures
        splice(contents, location, data).subrange(location, location + data.len()) == data,
        splice(contents, location, data).len() == contents.len(),
        forall|i: int|
            0 <= i < contents.len() && !(location <= i < location + data.len()) ==> #[trigger] splice(
                contents,
                location,
                data,
            )[i] == contents[i],
{
    assert(splice(contents, location, data).subrange(location, location + data.len()) =~= data);
}

} // verus!
