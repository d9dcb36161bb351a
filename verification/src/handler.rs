//! The mapping capability the host supplies, and the two-phase peek that
//! discovers a table's length through it.

use vstd::multiset::Multiset;
use vstd::prelude::*;

use crate::sdt::parses_to;
use crate::sdt::SdtHeader;
use crate::sdt::HEADER_LENGTH;

verus! {

/// The capability this crate consumes from its host: map `size` bytes of
/// physical memory at `physical_address` for reading, and release such a
/// mapping again. An implementation promises that a mapped region is a
/// faithful copy of the firmware-reserved memory it models, and accounts
/// for which regions are currently mapped.
pub trait AcpiHandler: Sized {
    /// The bytes of the physical memory the handler gives access to.
    spec fn physical_memory(&self) -> Seq<u8>;

    /// The regions currently mapped, each as (address, size), counted with
    /// multiplicity.
    spec fn active_mappings(&self) -> Multiset<(usize, usize)>;

    /// Map `size` bytes of physical memory at `physical_address` as a
    /// read-accessible region. The range must lie inside the memory
    /// reserved by firmware for these tables.
    fn map_physical_region(&mut self, physical_address: usize, size: usize) -> (region: Vec<u8>)
        requires
            physical_address + size <= old(self).physical_memory().len(),
        ensures
            final(self).physical_memory() == old(self).physical_memory(),
            final(self).active_mappings() == old(self).active_mappings().insert(
                (physical_address, size),
            ),
            region@ == old(self).physical_memory().subrange(
                physical_address as int,
                physical_address + size,
            ),
    ;

    /// Release a mapping made earlier with the same address and size.
    fn unmap_physical_region(&mut self, physical_address: usize, size: usize)
        requires
            old(self).active_mappings().count((physical_address, size)) > 0,
        ensures
            final(self).physical_memory() == old(self).physical_memory(),
            final(self).active_mappings() == old(self).active_mappings().remove(
                (physical_address, size),
            ),
    ;
}

/// Takes the physical address of a table, and maps, copies and unmaps its
/// header. Useful for finding out how big the table is, so it can be mapped
/// correctly later.
///
/// The header mapping is released before this returns: the caller's set of
/// active mappings is exactly what it was.
pub fn peek_at_sdt_header<H: AcpiHandler>(handler: &mut H, physical_address: usize) -> (header:
    SdtHeader)
    requires
        physical_address + HEADER_LENGTH <= old(handler).physical_memory().len(),
    ensures
        parses_to(
            old(handler).physical_memory().subrange(
                physical_address as int,
                physical_address + HEADER_LENGTH,
            ),
            header,
        ),
        final(handler).physical_memory() == old(handler).physical_memory(),
        final(handler).active_mappings() == old(handler).active_mappings(),
{
    let mapping = handler.map_physical_region(physical_address, HEADER_LENGTH);
    let header = SdtHeader::parse(mapping.as_slice());
    handler.unmap_physical_region(physical_address, HEADER_LENGTH);
    proof {
        assert(final(handler).active_mappings() =~= old(handler).active_mappings());
    }
    header
}

/// A handler over an owned byte buffer that records every map and unmap
/// call it receives; it lets a caller watch the mapping discipline of the
/// routines that use it.
pub struct BufferAcpiHandler {
    pub memory: Vec<u8>,
    pub map_log: Vec<(usize, usize)>,
    pub unmap_log: Vec<(usize, usize)>,
    pub active: Ghost<Multiset<(usize, usize)>>,
}

impl BufferAcpiHandler {
    pub fn new(memory: Vec<u8>) -> (handler: BufferAcpiHandler)
        ensures
            handler.physical_memory() == memory@,
            handler.active_mappings() == Multiset::<(usize, usize)>::empty(),
            handler.map_log@ == Seq::<(usize, usize)>::empty(),
            handler.unmap_log@ == Seq::<(usize, usize)>::empty(),
    {
        BufferAcpiHandler {
            memory,
            map_log: Vec::new(),
            unmap_log: Vec::new(),
            active: Ghost(Multiset::empty()),
        }
    }
}

impl AcpiHandler for BufferAcpiHandler {
    open spec fn physical_memory(&self) -> Seq<u8> {
        self.memory@
    }

    open spec fn active_mappings(&self) -> Multiset<(usize, usize)> {
        self.active@
    }

    fn map_physical_region(&mut self, physical_address: usize, size: usize) -> (region: Vec<u8>) {
        self.map_log.push((physical_address, size));
        self.active = Ghost(self.active@.insert((physical_address, size)));
        let memory_len = self.memory.len();
        assert(physical_address + size <= memory_len);
        let slice = vstd::slice::slice_subrange(
            self.memory.as_slice(),
            physical_address,
            physical_address + size,
        );
        vstd::slice::slice_to_vec(slice)
    }

    fn unmap_physical_region(&mut self, physical_address: usize, size: usize) {
        self.unmap_log.push((physical_address, size));
        self.active = Ghost(self.active@.remove((physical_address, size)));
    }
}

} // verus!
