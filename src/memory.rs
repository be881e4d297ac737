use vstd::prelude::*;
use gpu_allocator::vulkan::{Allocation, Allocator};
use gpu_allocator::AllocationError;

verus! {

#[verifier::external_type_specification]
#[verifier::external_body]
pub struct ExAllocation(Allocation);

#[verifier::external_type_specification]
#[verifier::external_body]
pub struct ExAllocator(Allocator);

#[verifier::external_type_specification]
#[verifier::external_body]
pub struct ExAllocationError(AllocationError);

/// The host-visible bytes that an allocation maps, or `None` when its memory
/// is not mapped into the host's address space.
pub uninterp spec fn mapped_bytes(a: Allocation) -> Option<Seq<u8>>;

/// Where an allocation starts in its device memory block.
pub uninterp spec fn alloc_offset(a: Allocation) -> u64;

/// Whether `a` is a live allocation of `allocator`: one that it handed out
/// and has not taken back.
pub uninterp spec fn allocated_from(a: Allocation, allocator: Allocator) -> bool;

/// `m` with the bytes from `offset` on replaced by `src`.
pub open spec fn spliced(m: Seq<u8>, offset: int, src: Seq<u8>) -> Seq<u8> {
    m.take(offset) + src + m.skip(offset + src.len())
}

/// Relies on `Allocation::mapped_slice`: the mapped region, `None` when the
/// memory is not host visible.
#[verifier::external_body]
pub(crate) fn mapped_len(a: &Allocation) -> (r: Option<usize>)
    ensures
        r is None <==> mapped_bytes(*a) is None,
        r matches Some(n) ==> n == mapped_bytes(*a)->Some_0.len(),
{
    a.mapped_slice().map(|m| m.len())
}

/// Relies on `Allocation::mapped_slice_mut`: writing through the slice it
/// returns changes exactly the bytes written.
#[verifier::external_body]
pub(crate) fn mapped_write(a: &mut Allocation, offset: usize, src: &[u8])
    requires
        mapped_bytes(*old(a)) is Some,
        offset + src@.len() <= mapped_bytes(*old(a))->Some_0.len(),
    ensures
        mapped_bytes(*final(a)) == Some(
            spliced(mapped_bytes(*old(a))->Some_0, offset as int, src@),
        ),
        alloc_offset(*final(a)) == alloc_offset(*old(a)),
        forall|al: Allocator| allocated_from(*old(a), al) ==> #[trigger] allocated_from(*final(a), al),
{
    if let Some(m) = a.mapped_slice_mut() {
        m[offset..][..src.len()].copy_from_slice(src);
    }
}

/// Relies on `Allocation::mapped_slice`: a copy of `len` mapped bytes from
/// `offset` on.
#[verifier::external_body]
pub(crate) fn mapped_read(a: &Allocation, offset: usize, len: usize) -> (r: Vec<u8>)
    requires
        mapped_bytes(*a) is Some,
        offset + len <= mapped_bytes(*a)->Some_0.len(),
    ensures
        r@ == mapped_bytes(*a)->Some_0.subrange(offset as int, offset + len),
{
    a.mapped_slice().map_or(Vec::new(), |m| m[offset..][..len].to_vec())
}

/// Relies on `Allocation::offset`, which returns the allocation's offset field.
pub assume_specification[ Allocation::offset ](a: &Allocation) -> (r: u64)
    ensures
        r == alloc_offset(*a),
;

/// Where an allocation's memory lives.
#[derive(Clone, Copy, Debug, PartialEq, Eq, Structural)]
pub enum MemoryClass {
    /// Device-local memory, not necessarily visible to the host.
    GpuOnly,
    /// Host-visible memory the host writes and the device reads.
    CpuToGpu,
    /// Host-visible memory the device writes and the host reads.
    GpuToCpu,
}

pub open spec fn is_host_visible(class: MemoryClass) -> bool {
    class != MemoryClass::GpuOnly
}

/// Where a resource's memory is allocated and whether the resource is linear.
#[derive(Clone, Copy, Debug, PartialEq, Eq, Structural)]
pub struct AllocationPlan {
    pub class: MemoryClass,
    pub linear: bool,
}

/// The size, alignment and allowed memory types that the device reports for
/// a resource.
#[derive(Clone, Copy, Debug, PartialEq, Eq, Structural)]
pub struct MemoryRequirements {
    pub size: u64,
    pub alignment: u64,
    pub memory_type_bits: u32,
}

/// Relies on `Allocator::allocate`: an allocation of exactly the requested
/// size, which the allocator now counts as live; memory of a host-visible
/// location is a memory type with the host-visible property, which the
/// allocator maps; other live allocations stay live.
#[verifier::external_body]
fn allocate_raw(
    allocator: &mut Allocator,
    name: &str,
    req: MemoryRequirements,
    class: MemoryClass,
    linear: bool,
) -> (r: Result<Allocation, AllocationError>)
    ensures
        r matches Ok(a) ==> allocated_from(a, *final(allocator)),
        r matches Ok(a) ==> (is_host_visible(class) ==> (mapped_bytes(a) matches Some(m) && m.len() == req.size)),
        forall|b: Allocation| allocated_from(b, *old(allocator)) ==> #[trigger] allocated_from(b, *final(allocator)),
{
    let location = match class {
        MemoryClass::GpuOnly => gpu_allocator::MemoryLocation::GpuOnly,
        MemoryClass::CpuToGpu => gpu_allocator::MemoryLocation::CpuToGpu,
        MemoryClass::GpuToCpu => gpu_allocator::MemoryLocation::GpuToCpu,
    };
    let requirements = ash::vk::MemoryRequirements {
        size: req.size,
        alignment: req.alignment,
        memory_type_bits: req.memory_type_bits,
    };
    let allocation_scheme = gpu_allocator::vulkan::AllocationScheme::GpuAllocatorManaged;
    allocator.allocate(&gpu_allocator::vulkan::AllocationCreateDesc { name, requirements, location, linear, allocation_scheme })
}

/// Why memory could not be allocated.
#[derive(Debug)]
pub enum MemoryError {
    /// A zero size, or an alignment that is not a power of two.
    InvalidRequest,
    /// The allocator could not serve the request.
    Allocator(AllocationError),
}

pub open spec fn valid_request(req: MemoryRequirements) -> bool {
    req.size > 0 && req.alignment > 0 && req.alignment & ((req.alignment - 1) as u64) == 0
}

/// Allocates memory for a resource with `req` as `plan` says. A request with a
/// zero size or an alignment that is not a power of two is refused up front.
pub fn allocate_memory(
    allocator: &mut Allocator,
    name: &str,
    req: MemoryRequirements,
    plan: AllocationPlan,
) -> (r: Result<Allocation, MemoryError>)
    ensures
        !valid_request(req) ==> (r matches Err(e) && e is InvalidRequest) && *final(allocator) == *old(allocator),
        valid_request(req) ==> !(r matches Err(e) && e is InvalidRequest),
        r matches Ok(a) ==> allocated_from(a, *final(allocator)),
        r matches Ok(a) ==> (is_host_visible(plan.class) ==> (mapped_bytes(a) matches Some(m) && m.len() == req.size)),
        forall|b: Allocation| allocated_from(b, *old(allocator)) ==> #[trigger] allocated_from(b, *final(allocator)),
{
    if req.size == 0 || req.alignment == 0 || req.alignment & (req.alignment - 1) != 0 {
        return Err(MemoryError::InvalidRequest);
    }
    match allocate_raw(allocator, name, req, plan.class, plan.linear) {
        Ok(a) => Ok(a),
        Err(e) => Err(MemoryError::Allocator(e)),
    }
}

/// Relies on `Allocator::free`, which returns a live allocation's memory to
/// the allocator it came from and then succeeds; other live allocations stay
/// live.
#[verifier::external_body]
pub(crate) fn free_allocation(allocator: &mut Allocator, a: Allocation) -> (r: Result<(), AllocationError>)
    requires
        allocated_from(a, *old(allocator)),
    ensures
        r is Ok,
        !allocated_from(a, *final(allocator)),
        forall|b: Allocation|
            b != a && allocated_from(b, *old(allocator)) ==> #[trigger] allocated_from(b, *final(allocator)),
{
    allocator.free(a)
}

/// Whether memory type `i` is allowed by `type_bits` and has every property
/// bit of `flags`.
pub open spec fn memory_type_fits(type_bits: u32, property_flags: Seq<u32>, flags: u32, i: int) -> bool {
    &&& 0 <= i < property_flags.len()
    &&& type_bits & (1u32 << (i as u32)) != 0
    &&& property_flags[i] & flags == flags
}

/// The first memory type that a resource may use (bit `i` of `type_bits`) and
/// whose properties include `flags`; `property_flags` lists the device's
/// memory types, at most 32.
pub fn find_memorytype_index(type_bits: u32, property_flags: &Vec<u32>, flags: u32) -> (r: Option<u32>)
    requires
        property_flags@.len() <= 32,
    ensures
        r matches Some(i) ==> memory_type_fits(type_bits, property_flags@, flags, i as int) && forall|j: int|
            0 <= j < i ==> !memory_type_fits(type_bits, property_flags@, flags, j),
        r is None ==> forall|j: int| 0 <= j < property_flags@.len() ==> !memory_type_fits(type_bits, property_flags@, flags, j),
{
    let mut i: usize = 0;
    while i < property_flags.len()
        invariant
            i <= property_flags@.len() <= 32,
            forall|j: int| 0 <= j < i ==> !memory_type_fits(type_bits, property_flags@, flags, j),
        decreases property_flags@.len() - i,
    {
        let bit: u32 = 1u32 << (i as u32);
        if type_bits & bit != 0 && property_flags[i] & flags == flags {
            return Some(i as u32);
        }
        i = i + 1;
    }
    None
}

} // verus!
