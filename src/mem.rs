//! The flat byte memory that holds code, stacks and heap.
use crate::inter::Inter;
use vstd::prelude::*;

verus! {

/// The largest size that `allocate` grows memory to unless another limit is given.
pub const DEFAULT_LIMIT: u64 = 1u64 << 32;

/// `mem` with the bytes `val` written from `addr` on.
pub open spec fn overwrite(mem: Seq<u8>, addr: int, val: Seq<u8>) -> Seq<u8> {
    Seq::new(mem.len(), |i: int| if addr <= i < addr + val.len() { val[i - addr] } else { mem[i] })
}

/// Whether `n` bytes from `addr` lie inside a memory of `len` bytes.
pub open spec fn in_bounds(len: nat, addr: int, n: int) -> bool {
    addr + n <= len
}

/// What a hexdump of `bytes` prints.
pub uninterp spec fn hexdump_of(bytes: Seq<u8>) -> Seq<char>;

/// Relies on rhexdump's `RhexdumpString::hexdump_bytes`, configured to fold repeated
/// lines, for the text of the dump; the text depends on the bytes alone.
#[verifier::external_body]
fn hexdump_text(bytes: &Vec<u8>) -> (r: String)
    ensures
        r@ == hexdump_of(bytes@),
{
    rhexdump::prelude::RhexdumpBuilder::new().hide_duplicate_lines(true).build_string().hexdump_bytes(
        bytes,
    )
}

/// Memory: a byte buffer that only grows, and the size it may grow to.
pub struct MEM {
    bytes: Vec<u8>,
    limit: u64,
}

impl View for MEM {
    type V = Seq<u8>;

    closed spec fn view(&self) -> Seq<u8> {
        self.bytes@
    }
}

impl MEM {
    /// The size beyond which `allocate` refuses to grow memory.
    pub closed spec fn max_len(&self) -> nat {
        self.limit as nat
    }

    /// Memory holding `bytes`, which may grow to `DEFAULT_LIMIT` bytes.
    pub fn new(bytes: Vec<u8>) -> (r: MEM)
        ensures
            r@ == bytes@,
            r.max_len() == DEFAULT_LIMIT,
    {
        MEM { bytes, limit: DEFAULT_LIMIT }
    }

    /// Memory holding `bytes`, which may grow to `limit` bytes.
    pub fn with_limit(bytes: Vec<u8>, limit: u64) -> (r: MEM)
        ensures
            r@ == bytes@,
            r.max_len() == limit,
    {
        MEM { bytes, limit }
    }

    pub fn len(&self) -> (r: u64)
        ensures
            r == self@.len(),
    {
        self.bytes.len() as u64
    }

    pub fn limit(&self) -> (r: u64)
        ensures
            r == self.max_len(),
    {
        self.limit
    }

    /// Appends `additional` zero bytes and returns where they start, the old length.
    /// Fails with `OutOfMem`, changing nothing, when the new length would pass the limit.
    pub fn allocate(&mut self, additional: u64) -> (r: Result<u64, Inter>)
        ensures
            final(self).max_len() == old(self).max_len(),
            old(self)@.len() + additional <= old(self).max_len() ==> r == Ok::<u64, Inter>(
                old(self)@.len() as u64,
            ) && final(self)@ == old(self)@ + Seq::new(additional as nat, |i: int| 0u8),
            old(self)@.len() + additional > old(self).max_len() ==> r == Err::<u64, Inter>(
                Inter::OutOfMem,
            ) && final(self)@ == old(self)@,
    {
        let len = self.bytes.len() as u64;
        if len > self.limit || additional > self.limit - len {
            return Err(Inter::OutOfMem);
        }
        let ghost before = self.bytes@;
        let mut i: u64 = 0;
        while i < additional
            invariant
                len == before.len(),
                len + additional <= self.limit,
                self.limit == old(self).limit,
                i <= additional,
                self.bytes@ == before + Seq::new(i as nat, |j: int| 0u8),
            decreases additional - i,
        {
            self.bytes.push(0u8);
            i = i + 1;
            proof {
                assert(self.bytes@ =~= before + Seq::new(i as nat, |j: int| 0u8));
            }
        }
        Ok(len)
    }

    /// The `len` bytes from `addr` on; `OutOfMem` when they pass the end of memory.
    pub fn read_bytes(&self, addr: u64, len: u64) -> (r: Result<Vec<u8>, Inter>)
        ensures
            in_bounds(self@.len(), addr as int, len as int) ==> r is Ok && r->Ok_0@
                == self@.subrange(addr as int, addr + len),
            !in_bounds(self@.len(), addr as int, len as int) ==> r == Err::<Vec<u8>, Inter>(
                Inter::OutOfMem,
            ),
    {
        let size_usize = self.bytes.len();
        let size = size_usize as u64;
        if addr > size || len > size - addr {
            return Err(Inter::OutOfMem);
        }
        let start = addr as usize;
        let n = len as usize;
        let mut out: Vec<u8> = Vec::new();
        let mut i: usize = 0;
        while i < n
            invariant
                start == addr,
                n == len,
                self@.len() == size_usize,
                addr + len <= self@.len(),
                i <= len,
                out@ == self@.subrange(addr as int, addr + i),
            decreases len - i,
        {
            out.push(self.bytes[start + i]);
            i = i + 1;
            proof {
                assert(out@ =~= self@.subrange(addr as int, addr + i));
            }
        }
        Ok(out)
    }

    /// A cell of `n` bytes at `addr`, as `read_bytes` gives it.
    pub fn read(&self, addr: u64, n: u64) -> (r: Result<Vec<u8>, Inter>)
        ensures
            in_bounds(self@.len(), addr as int, n as int) ==> r is Ok && r->Ok_0@
                == self@.subrange(addr as int, addr + n),
            !in_bounds(self@.len(), addr as int, n as int) ==> r == Err::<Vec<u8>, Inter>(
                Inter::OutOfMem,
            ),
    {
        self.read_bytes(addr, n)
    }

    /// Writes `bytes` from `addr` on. When they would pass the end of memory it fails
    /// with `OutOfMem` and writes nothing.
    pub fn write_bytes(&mut self, addr: u64, bytes: &[u8]) -> (r: Result<(), Inter>)
        ensures
            final(self).max_len() == old(self).max_len(),
            in_bounds(old(self)@.len(), addr as int, bytes@.len() as int) ==> r is Ok
                && final(self)@ == overwrite(old(self)@, addr as int, bytes@),
            !in_bounds(old(self)@.len(), addr as int, bytes@.len() as int) ==> r == Err::<
                (),
                Inter,
            >(Inter::OutOfMem) && final(self)@ == old(self)@,
    {
        let size_usize = self.bytes.len();
        let size = size_usize as u64;
        let n = bytes.len();
        if addr > size || n as u64 > size - addr {
            return Err(Inter::OutOfMem);
        }
        let start = addr as usize;
        let ghost before = self.bytes@;
        let mut i: usize = 0;
        while i < n
            invariant
                start == addr,
                n == bytes@.len(),
                addr + n <= before.len(),
                i <= n,
                self.limit == old(self).limit,
                before == old(self)@,
                before.len() == size_usize,
                self.bytes@ == overwrite(before, addr as int, bytes@.subrange(0, i as int)),
            decreases n - i,
        {
            self.bytes[start + i] = bytes[i];
            i = i + 1;
            proof {
                assert(self.bytes@ =~= overwrite(before, addr as int, bytes@.subrange(0, i as int)));
            }
        }
        proof {
            assert(bytes@.subrange(0, n as int) =~= bytes@);
        }
        Ok(())
    }

    /// A cell written at `addr`, as `write_bytes` does it.
    pub fn write(&mut self, addr: u64, val: &[u8]) -> (r: Result<(), Inter>)
        ensures
            final(self).max_len() == old(self).max_len(),
            in_bounds(old(self)@.len(), addr as int, val@.len() as int) ==> r is Ok
                && final(self)@ == overwrite(old(self)@, addr as int, val@),
            !in_bounds(old(self)@.len(), addr as int, val@.len() as int) ==> r == Err::<
                (),
                Inter,
            >(Inter::OutOfMem) && final(self)@ == old(self)@,
    {
        self.write_bytes(addr, val)
    }

    /// A hexdump of the whole memory, repeated lines folded.
    pub fn hexdump(&self) -> (r: String)
        ensures
            r@ == hexdump_of(self@),
    {
        hexdump_text(&self.bytes)
    }
}

} // verus!
