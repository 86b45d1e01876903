//! Flat byte-addressable memory.

use vstd::prelude::*;

verus! {

/// The four bytes of `value`, least significant first.
pub open spec fn le_bytes(value: u32) -> Seq<u8> {
    seq![
        (value % 0x100) as u8,
        (value / 0x100 % 0x100) as u8,
        (value / 0x1_0000 % 0x100) as u8,
        (value / 0x100_0000 % 0x100) as u8,
    ]
}

/// The number that four bytes stand for, least significant first.
pub open spec fn le_value(bytes: Seq<u8>) -> u32
    recommends
        bytes.len() == 4,
{
    (bytes[0] + 0x100 * bytes[1] + 0x1_0000 * bytes[2] + 0x100_0000 * bytes[3]) as u32
}

/// The memory `mem` after `bytes` were written to it from address `start` on.
pub open spec fn written(mem: Seq<u8>, start: int, bytes: Seq<u8>) -> Seq<u8> {
    Seq::new(
        mem.len(),
        |i: int|
            if start <= i < start + bytes.len() {
                bytes[i - start]
            } else {
                mem[i]
            },
    )
}

/// A word that is split into bytes and put together again is the same word.
pub proof fn lemma_le_value_of_bytes(value: u32)
    ensures
        le_bytes(value).len() == 4,
        le_value(le_bytes(value)) == value,
{
}

/// Four bytes that are put together into a word and split again are the same
/// four bytes.
pub proof fn lemma_le_bytes_of_value(bytes: Seq<u8>)
    requires
        bytes.len() == 4,
    ensures
        le_bytes(le_value(bytes)) == bytes,
{
    lemma_le_split(bytes[0], bytes[1], bytes[2], bytes[3]);
    assert(le_bytes(le_value(bytes)) =~= bytes);
}

/// A word that was written to a memory is read back from where it stands.
pub proof fn lemma_word_read_back(mem: Seq<u8>, addr: int, value: u32)
    requires
        0 <= addr,
        addr + 4 <= mem.len(),
    ensures
        le_value(written(mem, addr, le_bytes(value)).subrange(addr, addr + 4)) == value,
{
    assert(written(mem, addr, le_bytes(value)).subrange(addr, addr + 4) =~= le_bytes(value));
    lemma_le_value_of_bytes(value);
}

proof fn lemma_le_split(b0: u8, b1: u8, b2: u8, b3: u8)
    by (bit_vector)
    ensures
        ({
            let v: u32 = (b0 + 0x100 * b1 + 0x1_0000 * b2 + 0x100_0000 * b3) as u32;
            &&& v == b0 + 0x100 * b1 + 0x1_0000 * b2 + 0x100_0000 * b3
            &&& v % 0x100 == b0
            &&& v / 0x100 % 0x100 == b1
            &&& v / 0x1_0000 % 0x100 == b2
            &&& v / 0x100_0000 % 0x100 == b3
        }),
{
}

proof fn lemma_le_shifts(value: u32, b0: u8, b1: u8, b2: u8, b3: u8)
    by (bit_vector)
    ensures
        value & 0xFF == value % 0x100,
        (value >> 8) & 0xFF == value / 0x100 % 0x100,
        (value >> 16) & 0xFF == value / 0x1_0000 % 0x100,
        (value >> 24) & 0xFF == value / 0x100_0000 % 0x100,
        (b0 as u32) | ((b1 as u32) << 8) | ((b2 as u32) << 16) | ((b3 as u32) << 24) == b0 + 0x100 * b1 + 0x1_0000
            * b2 + 0x100_0000 * b3,
{
}

/// Splitting an address into the number of its page and its place in the page.
proof fn lemma_page(addr: u32)
    by (bit_vector)
    ensures
        addr >> 16 == addr / 0x1_0000,
        addr & 0xFFFF == addr % 0x1_0000,
        addr >> 16 < 0x1_0000,
        addr & 0xFFFF < 0x1_0000,
{
}

/// The memory of the machine: one contiguous array of bytes that spans the
/// 32-bit address space, every byte zero at first.
///
/// The bytes are kept in pages of 64 KiB. What lies beyond the pages that
/// are held, or beyond the bytes that a page holds, was never written to and
/// reads as zero, so that a memory costs what was written to it and no more.
#[derive(Debug)]
pub struct Memmory {
    pages: Vec<Vec<u8>>,
}

impl View for Memmory {
    type V = Seq<u8>;

    closed spec fn view(&self) -> Seq<u8> {
        Seq::new(0x1_0000_0000, |addr: int| self.byte(addr))
    }
}

impl Memmory {
    /// The byte at `addr`.
    spec fn byte(&self, addr: int) -> u8 {
        let p = addr / 0x1_0000;
        let o = addr % 0x1_0000;
        if p < self.pages.len() && o < self.pages[p].len() {
            self.pages[p][o]
        } else {
            0
        }
    }

    /// A memory is as long as the address space.
    pub proof fn lemma_len(&self)
        ensures
            self@.len() == 0x1_0000_0000,
    {
    }

    /// A memory of zeros.
    pub fn new() -> (memory: Memmory)
        ensures
            memory@ == Seq::new(0x1_0000_0000, |addr: int| 0u8),
    {
        let memory = Memmory { pages: Vec::new() };
        assert(memory@ =~= Seq::new(0x1_0000_0000, |addr: int| 0u8));
        memory
    }

    /// The byte at `addr`.
    pub fn read_byte(&self, addr: u32) -> (value: u8)
        ensures
            value == self@[addr as int],
    {
        proof {
            lemma_page(addr);
        }
        let p: usize = (addr >> 16) as usize;
        let o: usize = (addr & 0xFFFF) as usize;
        if p < self.pages.len() && o < self.pages[p].len() {
            self.pages[p][o]
        } else {
            0
        }
    }

    /// Writes `value` to `addr`.
    pub fn write_byte(&mut self, addr: u32, value: u8)
        ensures
            final(self)@ == old(self)@.update(addr as int, value),
    {
        proof {
            lemma_page(addr);
        }
        let p: usize = (addr >> 16) as usize;
        let o: usize = (addr & 0xFFFF) as usize;
        while self.pages.len() <= p
            invariant
                p < 0x1_0000,
                self@ == old(self)@,
            decreases p + 1 - self.pages.len(),
        {
            let ghost before = *self;
            self.pages.push(Vec::new());
            proof {
                assert forall|i: int| 0 <= i < 0x1_0000_0000 implies self.byte(i) == before.byte(i) by {}
                assert(self@ =~= before@);
            }
        }
        let ghost grown = *self;
        let page = &mut self.pages[p];
        if page.len() <= o {
            page.resize(0x1_0000, 0);
        }
        page[o] = value;
        proof {
            assert forall|i: int| 0 <= i < 0x1_0000_0000 implies self.byte(i) == (if i == addr {
                value
            } else {
                grown.byte(i)
            }) by {
                if i / 0x1_0000 == p as int {
                    let at = i % 0x1_0000;
                    if at == o as int {
                        assert(i == addr);
                    } else if at < grown.pages[p as int].len() {
                        if grown.pages[p as int].len() <= o {
                            assert(self.pages[p as int]@.subrange(0, grown.pages[p as int].len() as int)[at]
                                == self.pages[p as int][at]);
                        }
                    }
                }
            }
            assert(self@ =~= old(self)@.update(addr as int, value));
        }
    }

    /// Copies `data` into the memory from `start_addr` on.
    pub fn write_chunk(&mut self, start_addr: u32, data: &[u8])
        requires
            start_addr + data.len() <= 0x1_0000_0000,
        ensures
            final(self)@ == written(old(self)@, start_addr as int, data@),
    {
        proof {
            self.lemma_len();
            assert(self@ =~= written(self@, start_addr as int, data@.take(0)));
        }
        let mut i: usize = 0;
        while i < data.len()
            invariant
                i <= data.len(),
                start_addr + data.len() <= 0x1_0000_0000,
                self@.len() == 0x1_0000_0000,
                self@ == written(old(self)@, start_addr as int, data@.take(i as int)),
            decreases data.len() - i,
        {
            let addr: u32 = start_addr + (i as u32);
            self.write_byte(addr, data[i]);
            assert(self@ =~= written(old(self)@, start_addr as int, data@.take(i + 1)));
            i = i + 1;
        }
        assert(data@.take(data.len() as int) == data@);
    }

    /// The four bytes at `addr .. addr + 4`.
    #[allow(non_snake_case)]
    pub fn read_4B(&self, addr: u32) -> (ret: [u8; 4])
        requires
            addr + 4 <= 0x1_0000_0000,
        ensures
            ret@ == self@.subrange(addr as int, addr + 4),
    {
        proof {
            self.lemma_len();
        }
        let ret = [
            self.read_byte(addr),
            self.read_byte(addr + 1),
            self.read_byte(addr + 2),
            self.read_byte(addr + 3),
        ];
        assert(ret@ =~= self@.subrange(addr as int, addr + 4));
        ret
    }

    /// The 32-bit word whose bytes, least significant first, stand at
    /// `addr .. addr + 4`.
    pub fn read_u32(&self, addr: u32) -> (value: u32)
        requires
            addr + 4 <= 0x1_0000_0000,
        ensures
            value == le_value(self@.subrange(addr as int, addr + 4)),
    {
        let chunk = self.read_4B(addr);
        proof {
            lemma_le_shifts(0, chunk[0], chunk[1], chunk[2], chunk[3]);
        }
        (chunk[0] as u32) | ((chunk[1] as u32) << 8) | ((chunk[2] as u32) << 16) | ((chunk[3] as u32) << 24)
    }

    /// Writes the four bytes of `value`, least significant first, to
    /// `addr .. addr + 4`.
    pub fn write_u32(&mut self, addr: u32, value: u32)
        requires
            addr + 4 <= 0x1_0000_0000,
        ensures
            final(self)@ == written(old(self)@, addr as int, le_bytes(value)),
    {
        proof {
            lemma_le_shifts(value, 0, 0, 0, 0);
        }
        let chunk: [u8; 4] = [
            (value & 0xFF) as u8,
            ((value >> 8) & 0xFF) as u8,
            ((value >> 16) & 0xFF) as u8,
            ((value >> 24) & 0xFF) as u8,
        ];
        assert(chunk@ == le_bytes(value));
        self.write_chunk(addr, chunk.as_slice());
    }
}

} // verus!
