use vstd::prelude::*;

verus! {

/// Addresses are 16-bit: no byte lies at 0x10000 or above, whatever the store's size.
pub open spec fn in_bounds(mem: Seq<u8>, a: int) -> bool {
    0 <= a < mem.len() && a < 0x10000
}

/// The byte at `a`, if `a` is in bounds.
pub open spec fn byte_at(mem: Seq<u8>, a: int) -> Option<u8> {
    if in_bounds(mem, a) {
        Some(mem[a])
    } else {
        None
    }
}

/// The little-endian word at `a`: both `a` and `a + 1` must be in bounds.
pub open spec fn word_at(mem: Seq<u8>, a: int) -> Option<u16> {
    if in_bounds(mem, a) && in_bounds(mem, a + 1) {
        Some((mem[a] + 256 * mem[a + 1]) as u16)
    } else {
        None
    }
}

/// `mem` after a successful store of the word `v` at `a`.
pub open spec fn put_word(mem: Seq<u8>, a: int, v: u16) -> Seq<u8> {
    mem.update(a, (v % 256) as u8).update(a + 1, (v / 256) as u8)
}

/// The contents after a word store at `a`: the low byte goes first, so it stays
/// written where only the high byte is out of bounds.
pub open spec fn after_write_word(mem: Seq<u8>, a: int, v: u16) -> Seq<u8> {
    if !in_bounds(mem, a) {
        mem
    } else if !in_bounds(mem, a + 1) {
        mem.update(a, (v % 256) as u8)
    } else {
        put_word(mem, a, v)
    }
}

/// Whether the `i`-th byte move of a copy from `from` to `to` can be made.
pub open spec fn copy_step_ok(mem: Seq<u8>, from: int, to: int, i: int) -> bool {
    in_bounds(mem, from + i) && in_bounds(mem, to + i)
}

/// How many of the first `n` byte moves of a copy succeed before the first failure.
pub open spec fn copy_steps(mem: Seq<u8>, from: int, to: int, n: nat) -> nat
    decreases n,
{
    if n == 0 {
        0
    } else {
        let k = copy_steps(mem, from, to, (n - 1) as nat);
        if k == n - 1 && copy_step_ok(mem, from, to, n - 1) {
            n
        } else {
            k
        }
    }
}

/// `mem` after the first `k` byte moves of a forward copy from `from` to `to`.
pub open spec fn copied(mem: Seq<u8>, from: int, to: int, k: nat) -> Seq<u8>
    decreases k,
{
    if k == 0 {
        mem
    } else {
        let m = copied(mem, from, to, (k - 1) as nat);
        if copy_step_ok(m, from, to, k - 1) {
            m.update(to + k - 1, m[from + k - 1])
        } else {
            m
        }
    }
}

proof fn lemma_copied_len(mem: Seq<u8>, from: int, to: int, k: nat)
    ensures
        copied(mem, from, to, k).len() == mem.len(),
    decreases k,
{
    if k > 0 {
        lemma_copied_len(mem, from, to, (k - 1) as nat);
    }
}

proof fn lemma_copy_steps_stop(mem: Seq<u8>, from: int, to: int, k: nat, n: nat)
    requires
        k < n,
        copy_steps(mem, from, to, (k + 1) as nat) == k,
    ensures
        copy_steps(mem, from, to, n) == k,
    decreases n - k,
{
    if n > k + 1 {
        lemma_copy_steps_stop(mem, from, to, k, (n - 1) as nat);
    }
}

/// How many bytes of a block of `n` fit in `mem` from `addr` on.
pub open spec fn fitting(mem: Seq<u8>, addr: int, n: int) -> int {
    let room = (if mem.len() < 0x10000 {
        mem.len() as int
    } else {
        0x10000
    }) - addr;
    if room < 0 {
        0
    } else if room < n {
        room
    } else {
        n
    }
}

/// `mem` with the first `k` bytes of `data` written from `addr` on.
pub open spec fn loaded(mem: Seq<u8>, data: Seq<u8>, addr: int, k: int) -> Seq<u8> {
    Seq::new(mem.len(), |j: int| if addr <= j < addr + k { data[j - addr] } else { mem[j] })
}

/// Past the end of the store, a byte or word read gives nothing and a word
/// write changes nothing: access neither wraps nor grows the store.
pub proof fn lemma_out_of_bounds(mem: Seq<u8>, a: int, v: u16)
    requires
        0 <= a,
        a >= mem.len(),
    ensures
        byte_at(mem, a) is None,
        word_at(mem, a) is None,
        after_write_word(mem, a, v) == mem,
{
}

/// Byte-addressable storage with bounds-checked access.
pub trait Addressable {
    /// What the store holds; its length is the store's size.
    spec fn contents(&self) -> Seq<u8>;

    /// The byte at `addr`, or `None` past the end of the store.
    fn read(&self, addr: u16) -> (r: Option<u8>)
        ensures
            r == byte_at(self.contents(), addr as int),
    ;

    /// Stores `value` at `addr`; returns `false` and changes nothing past the end.
    fn write(&mut self, addr: u16, value: u8) -> (ok: bool)
        ensures
            ok == in_bounds(old(self).contents(), addr as int),
            final(self).contents() == (if ok {
                old(self).contents().update(addr as int, value)
            } else {
                old(self).contents()
            }),
    ;

    /// The little-endian word at `addr` and `addr + 1`.
    fn read_word(&self, addr: u16) -> (r: Option<u16>)
        ensures
            r == word_at(self.contents(), addr as int),
    {
        if let Some(x0) = self.read(addr) {
            if addr < 0xffff {
                if let Some(x1) = self.read(addr + 1) {
                    let w: u16 = (x0 as u16) | ((x1 as u16) << 8u16);
                    assert(((x0 as u16) | ((x1 as u16) << 8u16)) == x0 + 256 * x1) by (bit_vector);
                    return Some(w);
                }
            }
        }
        None
    }

    /// Stores `value` little-endian at `addr` and `addr + 1`, the low byte first.
    fn write_word(&mut self, addr: u16, value: u16) -> (ok: bool)
        ensures
            ok == (in_bounds(old(self).contents(), addr as int) && in_bounds(
                old(self).contents(),
                addr + 1,
            )),
            final(self).contents() == after_write_word(old(self).contents(), addr as int, value),
    {
        let lower = value & 0xff;
        let upper = (value & 0xff00) >> 8u16;
        assert(value & 0xff == value % 256) by (bit_vector);
        assert((value & 0xff00) >> 8u16 == value / 256) by (bit_vector);
        if !self.write(addr, lower as u8) {
            return false;
        }
        if addr == 0xffff {
            return false;
        }
        self.write(addr + 1, upper as u8)
    }

    /// Writes `data` from `addr` on, byte by byte; returns `false` where it
    /// does not fit, keeping the bytes that did.
    fn load_into(&mut self, data: &[u8], addr: u16) -> (ok: bool)
        ensures
            ok == (fitting(old(self).contents(), addr as int, data@.len() as int) == data@.len()),
            final(self).contents() == loaded(
                old(self).contents(),
                data@,
                addr as int,
                fitting(old(self).contents(), addr as int, data@.len() as int),
            ),
    {
        let ghost mem0 = self.contents();
        let mut i: usize = 0;
        while i < data.len()
            invariant
                mem0 == old(self).contents(),
                i <= data@.len(),
                i <= fitting(mem0, addr as int, data@.len() as int),
                self.contents() == loaded(mem0, data@, addr as int, i as int),
            decreases data@.len() - i,
        {
            let a = addr as usize + i;
            if a > 0xffff {
                assert(fitting(mem0, addr as int, data@.len() as int) == i);
                return false;
            }
            if !self.write(a as u16, data[i]) {
                assert(fitting(mem0, addr as int, data@.len() as int) == i);
                return false;
            }
            assert(self.contents() == loaded(mem0, data@, addr as int, i + 1));
            i = i + 1;
        }
        true
    }

    /// Copies `nsize` bytes one by one from `from` onward to `to` onward, in
    /// increasing order; stops at the first read or write that fails and
    /// returns `false`, keeping the bytes already moved.
    fn copy(&mut self, from: u16, to: u16, nsize: u16) -> (ok: bool)
        ensures
            ok == (copy_steps(old(self).contents(), from as int, to as int, nsize as nat)
                == nsize),
            final(self).contents() == copied(
                old(self).contents(),
                from as int,
                to as int,
                copy_steps(old(self).contents(), from as int, to as int, nsize as nat),
            ),
    {
        let ghost mem0 = self.contents();
        let mut index: u16 = 0;
        while index < nsize
            invariant
                mem0 == old(self).contents(),
                index <= nsize,
                copy_steps(mem0, from as int, to as int, index as nat) == index,
                self.contents() == copied(mem0, from as int, to as int, index as nat),
                self.contents().len() == mem0.len(),
            decreases nsize - index,
        {
            proof {
                lemma_copied_len(mem0, from as int, to as int, index as nat);
            }
            let src = from as u32 + index as u32;
            let dst = to as u32 + index as u32;
            if src > 0xffff || dst > 0xffff {
                proof {
                    lemma_copy_steps_stop(mem0, from as int, to as int, index as nat, nsize as nat);
                }
                return false;
            }
            if let Some(x) = self.read(src as u16) {
                if !self.write(dst as u16, x) {
                    proof {
                        lemma_copy_steps_stop(mem0, from as int, to as int, index as nat, nsize as nat);
                    }
                    return false;
                }
            } else {
                proof {
                    lemma_copy_steps_stop(mem0, from as int, to as int, index as nat, nsize as nat);
                }
                return false;
            }
            index = index + 1;
        }
        true
    }
}

/// A fixed-size, zero-initialised byte store.
pub struct LinearMemory {
    bytes: Vec<u8>,
}

impl LinearMemory {
    /// A store of `n` bytes, all zero.
    pub fn new(n: usize) -> (m: Self)
        ensures
            m.contents() == Seq::new(n as nat, |i: int| 0u8),
    {
        let bytes = vec![0u8; n];
        let m = LinearMemory { bytes };
        assert(m.contents() == Seq::new(n as nat, |i: int| 0u8));
        m
    }
}

impl Addressable for LinearMemory {
    closed spec fn contents(&self) -> Seq<u8> {
        self.bytes@
    }

    fn read(&self, addr: u16) -> (r: Option<u8>) {
        if (addr as usize) < self.bytes.len() {
            Some(self.bytes[addr as usize])
        } else {
            None
        }
    }

    fn write(&mut self, addr: u16, value: u8) -> (ok: bool) {
        if (addr as usize) < self.bytes.len() {
            self.bytes.set(addr as usize, value);
            return true;
        }
        false
    }
}

} // verus!
