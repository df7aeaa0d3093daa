use memmap2::MmapMut;
use vstd::prelude::*;

verus! {

/// `memmap2::MmapMut`, a writable memory map. Nothing is known of a map
/// but what the items below say.
#[verifier::external_type_specification]
#[verifier::external_body]
pub struct ExMmapMut(memmap2::MmapMut);

/// The bytes of a writable memory map, first to last.
pub uninterp spec fn mapped_bytes(map: MmapMut) -> Seq<u8>;

/// `Deref::deref` of `MmapMut`: the map dereferences to the slice of its
/// bytes.
pub assume_specification[ <MmapMut as core::ops::Deref>::deref ](map: &MmapMut) -> (slice: &[u8])
    ensures
        slice@ == mapped_bytes(*map),
;

/// `DerefMut::deref_mut` of `MmapMut`: the map dereferences mutably to the
/// slice of its bytes. What is written to the slice is what the map holds
/// afterwards, and the map keeps its length. This is what the slice gives
/// as long as nobody else writes the mapped memory.
pub assume_specification[ <MmapMut as core::ops::DerefMut>::deref_mut ](map: &mut MmapMut) -> (slice:
    &mut [u8])
    ensures
        slice@ == mapped_bytes(*old(map)),
        final(slice)@ == mapped_bytes(*final(map)),
        mapped_bytes(*final(map)).len() == mapped_bytes(*old(map)).len(),
;

/// Number of bytes of the map.
pub(crate) fn mapped_len(map: &MmapMut) -> (len: usize)
    ensures
        len == mapped_bytes(*map).len(),
{
    map.len()
}

/// The byte at `index` of the map.
pub(crate) fn mapped_load(map: &MmapMut, index: usize) -> (byte: u8)
    requires
        index < mapped_bytes(*map).len(),
    ensures
        byte == mapped_bytes(*map)[index as int],
{
    map[index]
}

/// Writes `byte` at `index` of the map and leaves the rest as it is.
pub(crate) fn mapped_store(map: &mut MmapMut, index: usize, byte: u8)
    requires
        index < mapped_bytes(*old(map)).len(),
    ensures
        mapped_bytes(*final(map)) == mapped_bytes(*old(map)).update(index as int, byte),
{
    map[index] = byte;
}

} // verus!
