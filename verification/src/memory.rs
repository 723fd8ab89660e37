//! Address ranges and the validator that admits them.

use vstd::prelude::*;
use crate::error::InvalidMemoryAccess;

verus! {

/// A range of addresses: `len` bytes from `start`.
#[derive(Clone, Copy, Debug, PartialEq, Eq, Structural)]
pub struct MemoryRegion {
    pub start: usize,
    pub len: usize,
}

impl MemoryRegion {
    /// The first address after the range, as a mathematical integer.
    pub open spec fn end(self) -> int {
        self.start + self.len
    }

    /// The range ends within the address space.
    pub open spec fn fits(self) -> bool {
        self.end() <= usize::MAX
    }

    /// Every byte of the range lies in `outer`.
    pub open spec fn within(self, outer: MemoryRegion) -> bool {
        outer.start <= self.start && self.end() <= outer.end()
    }

    /// The two ranges share at least one byte.
    pub open spec fn overlaps(self, other: MemoryRegion) -> bool {
        self.start < other.end() && other.start < self.end()
    }

    pub fn new(start: usize, len: usize) -> (region: MemoryRegion)
        ensures
            region.start == start,
            region.len == len,
    {
        MemoryRegion { start, len }
    }

    /// The first address after the range, where the address space holds it.
    pub fn checked_end(&self) -> (end: Option<usize>)
        ensures
            self.fits() <==> end is Some,
            end is Some ==> end.unwrap() == self.end(),
    {
        self.start.checked_add(self.len)
    }

    pub fn is_within(&self, outer: &MemoryRegion) -> (inside: bool)
        ensures
            inside == (self.fits() && self.within(*outer)),
    {
        match self.checked_end() {
            None => false,
            Some(end) => {
                if self.start < outer.start {
                    false
                } else {
                    match outer.checked_end() {
                        Some(outer_end) => end <= outer_end,
                        None => true,
                    }
                }
            },
        }
    }

    pub fn does_overlap(&self, other: &MemoryRegion) -> (shared: bool)
        ensures
            shared == self.overlaps(*other),
    {
        let reaches_other: bool = match self.checked_end() {
            Some(end) => other.start < end,
            None => true,
        };
        let other_reaches: bool = match other.checked_end() {
            Some(end) => self.start < end,
            None => true,
        };
        reaches_other && other_reaches
    }
}

/// A range that the validator admitted. Its fields are private, so only the
/// validator makes one: no other code holds a view over host memory.
#[derive(Clone, Copy, Debug, PartialEq, Eq, Structural)]
pub struct ForeignSlice {
    region: MemoryRegion,
    writable: bool,
}

impl ForeignSlice {
    /// An admitted range ends within the address space.
    #[verifier::type_invariant]
    spec fn ends_in_address_space(self) -> bool {
        self.region.fits()
    }

    pub closed spec fn region(self) -> MemoryRegion {
        self.region
    }

    pub closed spec fn writable(self) -> bool {
        self.writable
    }

    pub fn start(&self) -> (start: usize)
        ensures
            start == self.region().start,
    {
        self.region.start
    }

    pub fn len(&self) -> (len: usize)
        ensures
            len == self.region().len,
    {
        self.region.len
    }

    /// The first address after the range. It never overflows: no range is
    /// admitted that runs past the address space.
    pub fn end(&self) -> (end: usize)
        ensures
            end == self.region().end(),
    {
        proof {
            use_type_invariant(self);
        }
        self.region.start + self.region.len
    }

    pub fn is_writable(&self) -> (writable: bool)
        ensures
            writable == self.writable(),
    {
        self.writable
    }
}

/// The rules by which address ranges are admitted for one trust domain.
#[derive(Clone, Copy, Debug, PartialEq, Eq, Structural)]
pub struct PointerValidator {
    /// The memory that the calling trust domain may read and write.
    pub granted: MemoryRegion,
    /// The memory that only the enclave may touch.
    pub enclave_private: MemoryRegion,
    /// The caller asserts that the ranges it presents belong to the host.
    pub host_owned: bool,
    /// The caller needs data: an empty range is refused.
    pub require_nonempty: bool,
}

impl PointerValidator {
    /// Whether `len` bytes from `addr` are admitted: the range ends within
    /// the address space and lies in the granted memory; it holds a byte
    /// where data is required; and it stays clear of the enclave's private
    /// memory where the caller claims it for the host.
    pub open spec fn accepts(self, addr: usize, len: usize) -> bool {
        let region = MemoryRegion { start: addr, len };
        &&& region.fits()
        &&& region.within(self.granted)
        &&& self.require_nonempty ==> len > 0
        &&& self.host_owned ==> !region.overlaps(self.enclave_private)
    }

    pub fn new(
        granted: MemoryRegion,
        enclave_private: MemoryRegion,
        host_owned: bool,
        require_nonempty: bool,
    ) -> (validator: PointerValidator)
        ensures
            validator == (PointerValidator {
                granted,
                enclave_private,
                host_owned,
                require_nonempty,
            }),
    {
        PointerValidator { granted, enclave_private, host_owned, require_nonempty }
    }

    fn check(&self, addr: usize, len: usize) -> (admitted: bool)
        ensures
            admitted == self.accepts(addr, len),
    {
        let region = MemoryRegion { start: addr, len };
        if !region.is_within(&self.granted) {
            false
        } else if self.require_nonempty && len == 0 {
            false
        } else if self.host_owned && region.does_overlap(&self.enclave_private) {
            false
        } else {
            true
        }
    }

    /// Admits `len` bytes from `addr` for reading, or refuses the range.
    pub fn validate_readable(&self, addr: usize, len: usize) -> (outcome: Result<
        ForeignSlice,
        InvalidMemoryAccess,
    >)
        ensures
            outcome is Ok <==> self.accepts(addr, len),
            outcome is Ok ==> outcome.unwrap().region() == (MemoryRegion { start: addr, len })
                && !outcome.unwrap().writable(),
            outcome is Err ==> outcome.unwrap_err() == (InvalidMemoryAccess { start: addr, len }),
    {
        if self.check(addr, len) {
            Ok(ForeignSlice { region: MemoryRegion { start: addr, len }, writable: false })
        } else {
            Err(InvalidMemoryAccess { start: addr, len })
        }
    }

    /// Admits `len` bytes from `addr` for writing, or refuses the range.
    pub fn validate_writable(&self, addr: usize, len: usize) -> (outcome: Result<
        ForeignSlice,
        InvalidMemoryAccess,
    >)
        ensures
            outcome is Ok <==> self.accepts(addr, len),
            outcome is Ok ==> outcome.unwrap().region() == (MemoryRegion { start: addr, len })
                && outcome.unwrap().writable(),
            outcome is Err ==> outcome.unwrap_err() == (InvalidMemoryAccess { start: addr, len }),
    {
        if self.check(addr, len) {
            Ok(ForeignSlice { region: MemoryRegion { start: addr, len }, writable: true })
        } else {
            Err(InvalidMemoryAccess { start: addr, len })
        }
    }
}

/// A range that lies wholly in the granted memory is admitted, provided it
/// holds a byte where the validator requires data and stays clear of the
/// enclave's private memory where the validator's caller claims it for the
/// host.
pub proof fn lemma_inside_granted_is_accepted(validator: PointerValidator, addr: usize, len: usize)
    requires
        (MemoryRegion { start: addr, len }).fits(),
        (MemoryRegion { start: addr, len }).within(validator.granted),
        validator.require_nonempty ==> len > 0,
        validator.host_owned ==> !(MemoryRegion { start: addr, len }).overlaps(
            validator.enclave_private,
        ),
    ensures
        validator.accepts(addr, len),
{
}

/// A range that runs past the end of the address space, starts before the
/// granted memory or ends after it is refused by every validator.
pub proof fn lemma_crossing_or_overflowing_is_rejected(
    validator: PointerValidator,
    addr: usize,
    len: usize,
)
    requires
        addr + len > usize::MAX || addr < validator.granted.start || addr + len
            > validator.granted.end(),
    ensures
        !validator.accepts(addr, len),
{
}

} // verus!
