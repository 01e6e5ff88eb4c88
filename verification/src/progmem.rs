//! The non-volatile program memory domain and its dedicated read path.
//!
//! On this architecture the memory holding compiled-in constants (keymap,
//! font) is distinct from writable RAM and needs its own read instruction;
//! a raw dereference of such data is meaningless. The domain is modeled as
//! an explicit byte store ([`Flash`]) plus typed wrappers, and every access
//! goes through an accessor method, never a direct dereference.
use vstd::prelude::*;

verus! {

/// A value placed in program memory at build time.
///
/// The wrapper keeps the value out of ordinary reach: it is only available
/// through the dedicated read accessors below, which model the
/// memory-domain-aware read path.
pub struct Progmem<T> {
    value: T,
}

impl<T> Progmem<T> {
    /// What the program memory holds.
    pub closed spec fn view(&self) -> T {
        self.value
    }

    /// Places a value in program memory (what the build step does).
    pub fn store(value: T) -> (r: Progmem<T>)
        ensures
            r@ == value,
    {
        Progmem { value }
    }
}

impl<T: Copy> Progmem<T> {
    /// Reads the whole value out of program memory into RAM.
    pub fn read_value(&self) -> (r: T)
        ensures
            r == self@,
    {
        self.value
    }
}

impl Progmem<crate::keymap::Keymap> {
    /// Reads one keymap cell out of program memory.
    pub fn read_key(&self, layer: usize, index: usize) -> (r: crate::keymap::KeyAction)
        requires
            layer < self@.layers@.len(),
            index < self@.layers@[layer as int].keys@.len(),
        ensures
            r == self@.layers@[layer as int].keys@[index as int],
    {
        self.value.layers[layer].keys[index]
    }
}

/// The raw program memory seen as bytes, for byte-level accessors.
pub struct Flash {
    pub bytes: Vec<u8>,
}

impl View for Flash {
    type V = Seq<u8>;

    open spec fn view(&self) -> Seq<u8> {
        self.bytes@
    }
}

impl Flash {
    /// Program memory holding the given image.
    pub fn new(bytes: Vec<u8>) -> (r: Flash)
        ensures
            r@ == bytes@,
    {
        Flash { bytes }
    }

    /// Reads a single byte (the dedicated load instruction).
    pub fn read_byte(&self, addr: usize) -> (r: u8)
        requires
            addr < self@.len(),
        ensures
            r == self@[addr as int],
    {
        self.bytes[addr]
    }
}

/// Similar to a pointer in usage, but pointing into program memory: an
/// address plus the byte length of the pointed-to value. Safe to
/// construct; reading requires the range to lie within the flash image.
#[derive(Clone, Copy, PartialEq, Eq, Structural, Debug)]
pub struct ProgmemPtr {
    pub ptr: usize,
    pub size: usize,
}

/// Similar to a reference in usage, but referencing program memory: the
/// range it spans is known to lie within the flash image it was made for.
#[derive(Clone, Copy, PartialEq, Eq, Structural, Debug)]
pub struct ProgmemRef {
    pub ptr: usize,
    pub size: usize,
}

/// Iterates over the bytes of a program memory range.
#[derive(Clone, Copy, PartialEq, Eq, Structural, Debug)]
pub struct ProgmemIterator {
    pub ptr: ProgmemPtr,
    pub remaining: usize,
}

impl ProgmemPtr {
    /// A pointer to `size` bytes of program memory at `ptr`.
    pub fn new(ptr: usize, size: usize) -> (r: ProgmemPtr)
        ensures
            r.ptr == ptr,
            r.size == size,
    {
        ProgmemPtr { ptr, size }
    }

    /// The raw address.
    pub fn address(&self) -> (r: usize)
        ensures
            r == self.ptr,
    {
        self.ptr
    }

    /// Reinterprets the pointed-to value as one of another byte length.
    pub fn cast(&self, size: usize) -> (r: ProgmemPtr)
        ensures
            r.ptr == self.ptr,
            r.size == size,
    {
        ProgmemPtr { ptr: self.ptr, size }
    }

    /// The byte length of the pointed-to value.
    pub fn len(&self) -> (r: usize)
        ensures
            r == self.size,
    {
        self.size
    }

    /// Reads the byte the pointer aims at.
    pub fn read_byte(&self, flash: &Flash) -> (r: u8)
        requires
            self.ptr < flash@.len(),
        ensures
            r == flash@[self.ptr as int],
    {
        flash.read_byte(self.ptr)
    }

    /// Reads the byte the pointer aims at and advances the pointer.
    pub fn read_byte_incr(&mut self, flash: &Flash) -> (r: u8)
        requires
            old(self).ptr < flash@.len(),
        ensures
            r == flash@[old(self).ptr as int],
            final(self).ptr == old(self).ptr + 1,
            final(self).size == old(self).size,
    {
        let b = flash.read_byte(self.ptr);
        proof {
            // The address fits in the flash image, so incrementing it
            // cannot overflow.
            vstd::std_specs::vec::axiom_spec_len(&flash.bytes);
            assert(self.ptr < vstd::std_specs::vec::spec_vec_len(&flash.bytes));
        }
        self.ptr = self.ptr + 1;
        b
    }

    /// Reads the whole pointed-to value, byte for byte, advancing the
    /// pointer past it.
    pub fn read_incr(&mut self, flash: &Flash) -> (r: Vec<u8>)
        requires
            old(self).ptr + old(self).size <= flash@.len(),
        ensures
            r@ == flash@.subrange(old(self).ptr as int, old(self).ptr + old(self).size),
            final(self).ptr == old(self).ptr + old(self).size,
            final(self).size == old(self).size,
    {
        let mut out: Vec<u8> = Vec::new();
        let mut i: usize = 0;
        while i < self.size
            invariant
                i <= self.size,
                self.size == old(self).size,
                self.ptr == old(self).ptr + i,
                old(self).ptr + old(self).size <= flash@.len(),
                out@ == flash@.subrange(old(self).ptr as int, old(self).ptr + i),
            decreases self.size - i,
        {
            let b = self.read_byte_incr(flash);
            out.push(b);
            proof {
                assert(out@ == flash@.subrange(old(self).ptr as int, old(self).ptr + i + 1));
            }
            i = i + 1;
        }
        out
    }

    /// An iterator over the pointed-to bytes.
    pub fn iter_u8(self) -> (r: ProgmemIterator)
        ensures
            r.ptr.ptr == self.ptr,
            r.remaining == self.size,
    {
        let size = self.size;
        ProgmemIterator { ptr: self.cast(1), remaining: size }
    }
}

impl ProgmemRef {
    /// A reference to `size` bytes of program memory at `ptr`; the build
    /// step guarantees that the range really holds a value of that size.
    pub fn new(ptr: usize, size: usize) -> (r: ProgmemRef)
        ensures
            r.ptr == ptr,
            r.size == size,
    {
        ProgmemRef { ptr, size }
    }

    /// The pointer form of this reference.
    pub fn as_ptr(&self) -> (r: ProgmemPtr)
        ensures
            r.ptr == self.ptr,
            r.size == self.size,
    {
        ProgmemPtr { ptr: self.ptr, size: self.size }
    }

    /// Copies the referenced value out of program memory.
    pub fn read(&self, flash: &Flash) -> (r: Vec<u8>)
        requires
            self.ptr + self.size <= flash@.len(),
        ensures
            r@ == flash@.subrange(self.ptr as int, self.ptr + self.size),
    {
        let mut copy = self.as_ptr();
        copy.read_incr(flash)
    }

    /// An iterator over the referenced bytes.
    pub fn iter_u8(self) -> (r: ProgmemIterator)
        ensures
            r.ptr.ptr == self.ptr,
            r.remaining == self.size,
    {
        self.as_ptr().iter_u8()
    }

    /// The byte length of the referenced value.
    pub fn len(&self) -> (r: usize)
        ensures
            r == self.size,
    {
        self.size
    }
}

impl ProgmemIterator {
    /// The next byte of the range, or `None` past its end.
    pub fn next(&mut self, flash: &Flash) -> (r: Option<u8>)
        requires
            old(self).ptr.ptr + old(self).remaining <= flash@.len(),
        ensures
            final(self).ptr.ptr + final(self).remaining <= flash@.len(),
            old(self).remaining == 0 ==> r is None && *final(self) == *old(self),
            old(self).remaining > 0 ==> {
                &&& r == Some(flash@[old(self).ptr.ptr as int])
                &&& final(self).remaining == old(self).remaining - 1
                &&& final(self).ptr.ptr == old(self).ptr.ptr + 1
            },
    {
        if self.remaining == 0 {
            None
        } else {
            self.remaining = self.remaining - 1;
            Some(self.ptr.read_byte_incr(flash))
        }
    }

    /// How many bytes are left.
    pub fn size_hint(&self) -> (r: usize)
        ensures
            r == self.remaining,
    {
        self.remaining
    }
}

} // verus!
