//! The software device model: a fixed-size memory-mapped peripheral.
//!
//! The device owns a private backing buffer and claims the guest-physical
//! window `[mmio_start, mmio_start + data.len())`. Writes that fall outside
//! the buffer are silently dropped, byte by byte; reads are bounds-checked.

use vstd::prelude::*;

verus! {

/// What a write leaves in the backing buffer: every position covered by the
/// written bytes (relative to the device's base address) takes the new byte,
/// every other position keeps its old value. Bytes whose target position lies
/// outside the buffer, and writes below the base address, change nothing.
pub open spec fn write_bytes_spec(data: Seq<u8>, base: u64, addr: u64, bytes: Seq<u8>) -> Seq<u8> {
    Seq::new(
        data.len(),
        |j: int|
            if base <= addr && addr - base <= j && j < addr - base + bytes.len() {
                bytes[j - (addr - base)]
            } else {
                data[j]
            },
    )
}

/// A software-emulated memory-mapped peripheral with a private backing
/// buffer, disjoint from guest RAM. Its length is fixed at construction.
pub struct Device {
    mmio_start: u64,
    data: Vec<u8>,
}

impl Device {
    /// The first guest-physical address of the device's window.
    pub closed spec fn base(&self) -> u64 {
        self.mmio_start
    }

    /// The bytes currently held in the backing buffer.
    pub closed spec fn contents(&self) -> Seq<u8> {
        self.data@
    }

    /// A fresh device at `start`, backed by `size` zeroed bytes.
    pub fn new(start: u64, size: usize) -> (d: Device)
        ensures
            d.base() == start,
            d.contents().len() == size,
            forall|j: int| 0 <= j < size ==> d.contents()[j] == 0u8,
    {
        let mut data: Vec<u8> = Vec::new();
        while data.len() < size
            invariant
                data.len() <= size,
                forall|j: int| 0 <= j < data.len() ==> data[j] == 0u8,
            decreases size - data.len(),
        {
            data.push(0u8);
        }
        Device { mmio_start: start, data }
    }

    /// The byte at guest-physical address `addr`, which the caller must know
    /// to lie inside the device's window.
    pub fn read(&self, addr: u64) -> (b: u8)
        requires
            self.base() <= addr,
            addr - self.base() < self.contents().len(),
        ensures
            b == self.contents()[addr - self.base()],
    {
        let offset64: u64 = addr - self.mmio_start;
        let n: usize = self.data.len();
        assert(offset64 < n);
        let offset: usize = offset64 as usize;
        self.data[offset]
    }

    /// Store `bytes` into the backing buffer starting at guest-physical
    /// address `addr`. Each byte whose target position lies inside the buffer
    /// is stored; every other byte is silently dropped, so a partially or
    /// wholly out-of-range write is tolerated rather than rejected.
    pub fn write(&mut self, addr: u64, bytes: &Vec<u8>)
        ensures
            final(self).base() == old(self).base(),
            final(self).contents() == write_bytes_spec(
                old(self).contents(),
                old(self).base(),
                addr,
                bytes@,
            ),
    {
        let n: usize = self.data.len();
        let mut i: usize = 0;
        proof {
            assert(self.data@ =~= write_bytes_spec(
                old(self).data@,
                old(self).mmio_start,
                addr,
                bytes@.subrange(0, 0),
            ));
        }
        while i < bytes.len()
            invariant
                i <= bytes.len(),
                n == self.data.len(),
                self.mmio_start == old(self).mmio_start,
                self.data@ == write_bytes_spec(
                    old(self).data@,
                    old(self).mmio_start,
                    addr,
                    bytes@.subrange(0, i as int),
                ),
            decreases bytes.len() - i,
        {
            if addr >= self.mmio_start {
                let offset: u64 = addr - self.mmio_start;
                if offset < n as u64 && (i as u64) < n as u64 - offset {
                    let idx: usize = (offset + i as u64) as usize;
                    self.data[idx] = bytes[i];
                }
            }
            proof {
                assert(self.data@ =~= write_bytes_spec(
                    old(self).data@,
                    old(self).mmio_start,
                    addr,
                    bytes@.subrange(0, i + 1),
                ));
            }
            i += 1;
        }
        proof {
            assert(bytes@.subrange(0, i as int) =~= bytes@);
        }
    }

    /// Bounds-checked read: the byte at `addr` when the address falls inside
    /// the device's window, and `None` when it does not.
    pub fn read_checked(&self, addr: u64) -> (r: Option<u8>)
        ensures
            self.base() <= addr && addr - self.base() < self.contents().len() ==> r == Some(
                self.contents()[addr - self.base()],
            ),
            !(self.base() <= addr && addr - self.base() < self.contents().len()) ==> r is None,
    {
        if addr >= self.mmio_start {
            let offset = addr - self.mmio_start;
            if offset < self.data.len() as u64 {
                return Some(self.data[offset as usize]);
            }
        }
        None
    }
}

/// Last write wins. After a write of `bytes` at `addr` whose target
/// positions all lie inside the buffer, the byte stored at any covered
/// address `a` is exactly the byte the write put there — the one `read` at
/// `a` then returns. A later write overwrites an earlier one wherever both
/// cover an address: the buffer after two writes holds the second write's
/// byte at every address the second covers, and the first write's byte at
/// every address only the first covers.
pub proof fn lemma_last_write_wins(
    data: Seq<u8>,
    base: u64,
    addr1: u64,
    bytes1: Seq<u8>,
    addr2: u64,
    bytes2: Seq<u8>,
    a: u64,
)
    requires
        base <= addr1,
        base <= addr2,
        base <= a,
        (a - base) < data.len(),
    ensures
        addr2 <= a && a - addr2 < bytes2.len() ==> write_bytes_spec(
            write_bytes_spec(data, base, addr1, bytes1),
            base,
            addr2,
            bytes2,
        )[a - base] == bytes2[a - addr2],
        addr1 <= a && a - addr1 < bytes1.len() && !(addr2 <= a && a - addr2 < bytes2.len())
            ==> write_bytes_spec(
            write_bytes_spec(data, base, addr1, bytes1),
            base,
            addr2,
            bytes2,
        )[a - base] == bytes1[a - addr1],
{
}

/// Out-of-range bytes are dropped without effect. A write never changes the
/// buffer's length; positions outside the written window keep their old
/// bytes; and the bytes of the window that do fall inside the buffer are
/// stored exactly as given. There is no error outcome: `write` accepts every
/// address and every byte sequence.
pub proof fn lemma_out_of_range_write_dropped(data: Seq<u8>, base: u64, addr: u64, bytes: Seq<u8>)
    ensures
        write_bytes_spec(data, base, addr, bytes).len() == data.len(),
        forall|j: int|
            0 <= j < data.len() && !(base <= addr && addr - base <= j && j < addr - base
                + bytes.len()) ==> write_bytes_spec(data, base, addr, bytes)[j] == data[j],
        forall|j: int|
            0 <= j < data.len() && base <= addr && addr - base <= j && j < addr - base
                + bytes.len() ==> write_bytes_spec(data, base, addr, bytes)[j] == bytes[j - (addr
                - base)],
{
}

} // verus!
