//! Geometry and lifetime of the shared-memory mapping that carries the
//! counter record.

use vstd::prelude::*;

verus! {

/// The address by which the mapping primitive reports failure.
pub const MAP_FAILED: usize = usize::MAX;

/// The least multiple of `align` that is not below `x`.
pub open spec fn align_up_spec(x: nat, align: nat) -> nat
    recommends
        align > 0,
{
    ((x + align - 1) / (align as int) * align) as nat
}

/// Rounds `x` up to the next multiple of `align`.
pub fn align_up(x: usize, align: usize) -> (r: usize)
    requires
        align > 0,
        x + align - 1 <= usize::MAX,
    ensures
        r == align_up_spec(x as nat, align as nat),
        r % align == 0,
        x <= r < x + align,
{
    let y: usize = x + (align - 1);
    let q: usize = y / align;
    assert(q * align <= y && y - q * align < align && (q * align) % (align as int) == 0)
        by (nonlinear_arith)
        requires
            q == y / align,
            align > 0,
    ;
    q * align
}

/// The error of a mapping attempt that the operating system turned down.
#[derive(Clone, Copy, Debug, PartialEq, Eq, Structural)]
pub struct MapFailed;

/// An established mapping of one record: where it lies, how long it is, and
/// the page size of the host that it was made on.
///
/// The value is neither `Clone` nor `Copy`; [`Mmap::release`] consumes it, so
/// a mapping is handed back for unmapping at most once.
#[derive(Debug)]
pub struct Mmap {
    address: usize,
    len: usize,
    page_size: usize,
}

impl Mmap {
    /// The address at which the record starts.
    pub closed spec fn address_spec(&self) -> usize {
        self.address
    }

    /// The length of the mapped region in bytes.
    pub closed spec fn len_spec(&self) -> usize {
        self.len
    }

    /// The page size of the host.
    pub closed spec fn page_size_spec(&self) -> usize {
        self.page_size
    }

    /// A mapping never lies at [`MAP_FAILED`] and spans whole pages.
    #[verifier::type_invariant]
    pub closed spec fn valid(&self) -> bool {
        self.address != MAP_FAILED && self.page_size > 0 && self.len % self.page_size == 0
    }

    /// The length to ask the mapping primitive for on a host with pages of
    /// `page_size` bytes: `record_size` rounded up to whole pages.
    pub fn len(record_size: usize, page_size: usize) -> (n: usize)
        requires
            page_size > 0,
            record_size + page_size - 1 <= usize::MAX,
        ensures
            n == align_up_spec(record_size as nat, page_size as nat),
            n % page_size == 0,
            record_size <= n < record_size + page_size,
    {
        align_up(record_size, page_size)
    }

    /// Takes ownership of what the mapping primitive returned for a request
    /// of `Mmap::len(record_size, page_size)` bytes. Fails exactly when the
    /// primitive reported [`MAP_FAILED`].
    pub fn new(address: usize, record_size: usize, page_size: usize) -> (r: Result<Mmap, MapFailed>)
        requires
            page_size > 0,
            record_size + page_size - 1 <= usize::MAX,
        ensures
            address == MAP_FAILED <==> r is Err,
            r matches Ok(m) ==> m.address_spec() == address && m.page_size_spec() == page_size
                && m.len_spec() == align_up_spec(record_size as nat, page_size as nat),
    {
        if address == MAP_FAILED {
            Err(MapFailed)
        } else {
            Ok(Mmap { address, len: Self::len(record_size, page_size), page_size })
        }
    }

    pub fn address(&self) -> (a: usize)
        ensures
            a == self.address_spec(),
            a != MAP_FAILED,
    {
        proof {
            use_type_invariant(self);
        }
        self.address
    }

    pub fn mapped_len(&self) -> (n: usize)
        ensures
            n == self.len_spec(),
            n % self.page_size_spec() == 0,
    {
        proof {
            use_type_invariant(self);
        }
        self.len
    }

    pub fn page_size(&self) -> (n: usize)
        ensures
            n == self.page_size_spec(),
            n > 0,
    {
        proof {
            use_type_invariant(self);
        }
        self.page_size
    }

    /// Gives the mapping up. The result is the region to unmap: its address
    /// and its length.
    pub fn release(self) -> (region: (usize, usize))
        ensures
            region.0 == self.address_spec(),
            region.1 == self.len_spec(),
    {
        (self.address, self.len)
    }
}

} // verus!
