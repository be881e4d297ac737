use vstd::prelude::*;
use gpu_allocator::vulkan::{Allocation, Allocator};
use crate::memory::{
    alloc_offset, allocated_from, free_allocation, mapped_bytes, mapped_len, mapped_read, mapped_write,
    spliced, AllocationPlan, MemoryClass,
};

verus! {

/// The buffer-usage bit that lets shaders read a buffer through its device address.
pub const USAGE_SHADER_DEVICE_ADDRESS: u32 = 0x20000;

/// The usage a buffer is created with: the requested bits and always the
/// device-address bit.
pub fn usage_with_device_address(usage: u32) -> (r: u32)
    ensures
        r == usage | USAGE_SHADER_DEVICE_ADDRESS,
        r & USAGE_SHADER_DEVICE_ADDRESS != 0,
        forall|bit: u32| bit < 32 ==> (usage & (1u32 << bit) != 0 ==> r & (1u32 << bit) != 0),
{
    let r = usage | USAGE_SHADER_DEVICE_ADDRESS;
    assert(r & 0x20000u32 != 0) by (bit_vector)
        requires
            r == usage | 0x20000u32,
    ;
    assert(forall|bit: u32| bit < 32 ==> (usage & (1u32 << bit) != 0 ==> r & (1u32 << bit) != 0))
        by (bit_vector)
        requires
            r == usage | 0x20000u32,
    ;
    r
}

/// Why a host access to a buffer's memory was refused.
#[derive(Clone, Copy, Debug, PartialEq, Eq, Structural)]
pub enum AccessError {
    /// The buffer has been destroyed.
    Destroyed,
    /// The buffer's memory is device-local only: there is nothing to map.
    NotHostVisible,
    /// The range runs past the end of the buffer or of its mapped memory.
    OutOfRange,
}

/// A linear device resource that owns its memory allocation. Handles are the
/// raw values of the graphics API's handles.
#[derive(Debug)]
pub struct Buffer {
    pub buffer: u64,
    pub allocation: Option<Allocation>,
    pub size: u64,
    pub device_addr: u64,
    pub has_been_written_to: bool,
    pub offset: u64,
}

impl Buffer {
    /// Whether the buffer still owns its memory.
    pub open spec fn is_live(&self) -> bool {
        self.allocation is Some
    }

    /// The host-visible bytes of the buffer, `None` once destroyed or when its
    /// memory is device-local only.
    pub open spec fn mapped(&self) -> Option<Seq<u8>> {
        match self.allocation {
            Some(a) => mapped_bytes(a),
            None => None,
        }
    }

    /// How a buffer for `usage` in `class` is created: its usage always gains
    /// the device-address bit, and its memory is linear memory of `class`.
    pub fn creation_plan(usage: u32, class: MemoryClass) -> (r: (u32, AllocationPlan))
        ensures
            r.0 == usage | USAGE_SHADER_DEVICE_ADDRESS,
            r.1 == (AllocationPlan { class, linear: true }),
    {
        (usage_with_device_address(usage), AllocationPlan { class, linear: true })
    }

    /// Wraps a buffer handle of `size` bytes bound to `allocation` at the
    /// allocation's offset; mapped memory, if any, covers the whole buffer.
    pub fn new(buffer: u64, allocation: Allocation, size: u64, device_addr: u64) -> (r: Buffer)
        requires
            mapped_bytes(allocation) matches Some(m) ==> size <= m.len(),
        ensures
            r.allocation == Some(allocation),
            r.mapped() == mapped_bytes(allocation),
            r.buffer == buffer,
            r.size == size,
            r.device_addr == device_addr,
            r.offset == alloc_offset(allocation),
            !r.has_been_written_to,
            r.mapped() matches Some(m) ==> r.size <= m.len(),
    {
        let offset = allocation.offset();
        Buffer {
            buffer,
            allocation: Some(allocation),
            size,
            device_addr,
            has_been_written_to: false,
            offset,
        }
    }

    /// Whether host access to `len` bytes at `offset` is allowed, and if not,
    /// why.
    pub fn check_access(&self, offset: usize, len: usize) -> (r: Result<(), AccessError>)
        ensures
            r == access_outcome(self.is_live(), self.mapped(), self.size as int, offset as int, len as int),
    {
        match &self.allocation {
            None => Err(AccessError::Destroyed),
            Some(a) => match mapped_len(a) {
                None => Err(AccessError::NotHostVisible),
                Some(n) => {
                    if offset > n || len > n - offset || offset as u64 > self.size || len as u64 > self.size
                        - offset as u64 {
                        Err(AccessError::OutOfRange)
                    } else {
                        Ok(())
                    }
                },
            },
        }
    }

    /// Copies `src` into the mapped memory at `offset` and marks the buffer
    /// written. The buffer must be live and host visible, and the range must
    /// fit its size and its mapped memory.
    pub fn copy_from_slice(&mut self, src: &[u8], offset: usize)
        requires
            access_outcome(old(self).is_live(), old(self).mapped(), old(self).size as int, offset as int, src@.len() as int) is Ok,
        ensures
            final(self).mapped() == Some(spliced(old(self).mapped()->Some_0, offset as int, src@)),
            final(self).mapped()->Some_0.len() == old(self).mapped()->Some_0.len(),
            final(self).has_been_written_to,
            final(self).allocation matches Some(b) && old(self).allocation matches Some(a) && alloc_offset(b)
                == alloc_offset(a) && forall|al: Allocator| allocated_from(a, al) ==> #[trigger] allocated_from(b, al),
            final(self).buffer == old(self).buffer,
            final(self).size == old(self).size,
            final(self).device_addr == old(self).device_addr,
            final(self).offset == old(self).offset,
    {
        match &mut self.allocation {
            Some(a) => {
                mapped_write(a, offset, src);
            },
            None => {},
        }
        self.has_been_written_to = true;
    }

    /// Reads `len` bytes of the mapped memory from `offset` on. The buffer
    /// must be live and host visible, and the range must fit its size and its
    /// mapped memory.
    pub fn read_bytes(&self, offset: usize, len: usize) -> (r: Vec<u8>)
        requires
            access_outcome(self.is_live(), self.mapped(), self.size as int, offset as int, len as int) is Ok,
        ensures
            r@ == self.mapped()->Some_0.subrange(offset as int, offset + len),
    {
        match &self.allocation {
            Some(a) => mapped_read(a, offset, len),
            None => Vec::new(),
        }
    }

    /// Takes the allocation out of a live buffer, which is destroyed from then on.
    pub fn release(&mut self) -> (r: Allocation)
        requires
            old(self).is_live(),
        ensures
            final(self).allocation is None,
            old(self).allocation == Some(r),
            final(self).buffer == old(self).buffer,
            final(self).size == old(self).size,
            final(self).device_addr == old(self).device_addr,
            final(self).offset == old(self).offset,
            final(self).has_been_written_to == old(self).has_been_written_to,
    {
        self.allocation.take().unwrap()
    }

    /// Returns the memory of a live buffer to `allocator`, the one it was
    /// allocated from, and hands back the buffer handle, which the caller
    /// destroys next. Only a live buffer can be destroyed, so a second
    /// destroy is ruled out.
    pub fn destroy(&mut self, allocator: &mut Allocator) -> (r: u64)
        requires
            old(self).allocation matches Some(a) && allocated_from(a, *old(allocator)),
        ensures
            r == old(self).buffer,
            final(self).allocation is None,
            !allocated_from(old(self).allocation->Some_0, *final(allocator)),
            forall|b: Allocation|
                b != old(self).allocation->Some_0 && allocated_from(b, *old(allocator)) ==> #[trigger] allocated_from(
                    b,
                    *final(allocator),
                ),
            final(self).buffer == old(self).buffer,
            final(self).size == old(self).size,
            final(self).device_addr == old(self).device_addr,
            final(self).offset == old(self).offset,
            final(self).has_been_written_to == old(self).has_been_written_to,
    {
        let a = self.release();
        let _freed = free_allocation(allocator, a);
        self.buffer
    }
}

/// Raw format numbers of the graphics API that textures use here.
pub const FORMAT_R8G8B8A8_UNORM: i32 = 37;
pub const FORMAT_R8G8B8A8_SNORM: i32 = 38;
pub const FORMAT_R8G8B8A8_SRGB: i32 = 43;
pub const FORMAT_B8G8R8A8_SRGB: i32 = 50;
pub const FORMAT_R16G16B16A16_SFLOAT: i32 = 97;
pub const FORMAT_R32G32B32A32_SFLOAT: i32 = 109;

/// The size of one texel of `format`, `None` for a format not handled.
pub open spec fn texel_size(format: i32) -> Option<u32> {
    if format == FORMAT_R8G8B8A8_UNORM || format == FORMAT_R8G8B8A8_SNORM || format
        == FORMAT_R8G8B8A8_SRGB || format == FORMAT_B8G8R8A8_SRGB {
        Some(4)
    } else if format == FORMAT_R16G16B16A16_SFLOAT {
        Some(8)
    } else if format == FORMAT_R32G32B32A32_SFLOAT {
        Some(16)
    } else {
        None
    }
}

/// Width, height and depth of an image in texels.
#[derive(Clone, Copy, Debug, PartialEq, Eq, Structural)]
pub struct Extent3D {
    pub width: u32,
    pub height: u32,
    pub depth: u32,
}

/// A tiled device resource that owns its memory allocation and caches its
/// view once created.
#[derive(Debug)]
pub struct Image {
    pub image: u64,
    pub allocation: Option<Allocation>,
    pub view: Option<u64>,
    pub format: i32,
    pub extent: Extent3D,
    pub offset: u64,
}

impl Image {
    pub open spec fn is_live(&self) -> bool {
        self.allocation is Some
    }

    /// How an image's memory is allocated: device-local and not linear.
    pub fn creation_plan() -> (r: AllocationPlan)
        ensures
            r == (AllocationPlan { class: MemoryClass::GpuOnly, linear: false }),
    {
        AllocationPlan { class: MemoryClass::GpuOnly, linear: false }
    }

    /// Wraps an image handle bound to `allocation`; no view exists yet.
    pub fn new(image: u64, allocation: Allocation, format: i32, extent: Extent3D) -> (r: Image)
        ensures
            r.allocation == Some(allocation),
            r.image == image,
            r.view is None,
            r.format == format,
            r.extent == extent,
            r.offset == alloc_offset(allocation),
    {
        let offset = allocation.offset();
        Image { image, allocation: Some(allocation), view: None, format, extent, offset }
    }

    /// The image's view: the cached one if it exists, else the one that
    /// `make` creates, which is cached from then on.
    pub fn create_view<F: FnOnce() -> u64>(&mut self, make: F) -> (r: u64)
        requires
            old(self).view is None ==> make.requires(()),
        ensures
            final(self).view == Some(r),
            old(self).view matches Some(v) ==> r == v,
            old(self).view is None ==> make.ensures((), r),
            final(self).image == old(self).image,
            final(self).allocation == old(self).allocation,
            final(self).format == old(self).format,
            final(self).extent == old(self).extent,
            final(self).offset == old(self).offset,
    {
        match self.view {
            Some(v) => v,
            None => {
                let v = make();
                self.view = Some(v);
                v
            },
        }
    }

    /// Bytes per texel of the image's format, which must be one handled here.
    pub fn bytes_per_texel(&self) -> (r: u32)
        requires
            texel_size(self.format) is Some,
        ensures
            Some(r) == texel_size(self.format),
    {
        match format_texel_size(self.format) {
            Some(n) => n,
            None => 0,
        }
    }

    /// Takes the view and the allocation out of a live image, which is
    /// destroyed from then on.
    pub fn release(&mut self) -> (r: (Option<u64>, Allocation))
        requires
            old(self).is_live(),
        ensures
            final(self).allocation is None,
            final(self).view is None,
            r.0 == old(self).view,
            old(self).allocation == Some(r.1),
            final(self).image == old(self).image,
            final(self).format == old(self).format,
            final(self).extent == old(self).extent,
            final(self).offset == old(self).offset,
    {
        let view = self.view.take();
        (view, self.allocation.take().unwrap())
    }

    /// Destroys a live image's view with `destroy_view`, if it has one, then
    /// returns its memory to `allocator`, the one it was allocated from, and
    /// hands back the image handle, which the caller destroys last. Only a
    /// live image can be destroyed, so a second destroy is ruled out.
    pub fn destroy<F: FnOnce(u64)>(&mut self, allocator: &mut Allocator, destroy_view: F) -> (r: u64)
        requires
            old(self).allocation matches Some(a) && allocated_from(a, *old(allocator)),
            old(self).view matches Some(v) ==> destroy_view.requires((v,)),
        ensures
            r == old(self).image,
            old(self).view matches Some(v) ==> destroy_view.ensures((v,), ()),
            final(self).allocation is None,
            final(self).view is None,
            !allocated_from(old(self).allocation->Some_0, *final(allocator)),
            forall|b: Allocation|
                b != old(self).allocation->Some_0 && allocated_from(b, *old(allocator)) ==> #[trigger] allocated_from(
                    b,
                    *final(allocator),
                ),
            final(self).image == old(self).image,
            final(self).format == old(self).format,
            final(self).extent == old(self).extent,
            final(self).offset == old(self).offset,
    {
        let (view, a) = self.release();
        match view {
            Some(v) => destroy_view(v),
            None => {},
        }
        let _freed = free_allocation(allocator, a);
        self.image
    }
}

/// The texel size of `format`, `None` for a format not handled.
pub fn format_texel_size(format: i32) -> (r: Option<u32>)
    ensures
        r == texel_size(format),
{
    if format == FORMAT_R8G8B8A8_UNORM || format == FORMAT_R8G8B8A8_SNORM || format == FORMAT_R8G8B8A8_SRGB
        || format == FORMAT_B8G8R8A8_SRGB {
        Some(4)
    } else if format == FORMAT_R16G16B16A16_SFLOAT {
        Some(8)
    } else if format == FORMAT_R32G32B32A32_SFLOAT {
        Some(16)
    } else {
        None
    }
}

/// What a host access of `len` bytes at `offset` gives on a buffer of `size`
/// bytes.
pub open spec fn access_outcome(live: bool, mapped: Option<Seq<u8>>, size: int, offset: int, len: int) -> Result<
    (),
    AccessError,
> {
    if !live {
        Err(AccessError::Destroyed)
    } else {
        match mapped {
            None => Err(AccessError::NotHostVisible),
            Some(m) => if offset + len <= m.len() && offset + len <= size {
                Ok(())
            } else {
                Err(AccessError::OutOfRange)
            },
        }
    }
}

/// Reading back a range of a host-visible buffer right after a copy into it
/// succeeded is accepted and gives the bytes copied; the copy keeps the
/// mapped length.
pub proof fn lemma_copy_read_round_trip(m: Seq<u8>, size: int, offset: int, src: Seq<u8>)
    requires
        0 <= offset,
        access_outcome(true, Some(m), size, offset, src.len() as int) is Ok,
    ensures
        access_outcome(true, Some(spliced(m, offset, src)), size, offset, src.len() as int) is Ok,
        spliced(m, offset, src).subrange(offset, offset + src.len()) == src,
        spliced(m, offset, src).len() == m.len(),
{
    assert(spliced(m, offset, src).subrange(offset, offset + src.len()) =~= src);
}

/// A copy into a buffer of host-visible memory whose mapped length is at
/// least its size succeeds exactly when the range fits the size.
pub proof fn lemma_copy_fits_size(m: Seq<u8>, size: int, offset: int, len: int)
    requires
        size <= m.len(),
    ensures
        access_outcome(true, Some(m), size, offset, len) is Ok <==> offset + len <= size,
{
}

/// Host access to a buffer whose memory is device-local only always fails.
pub proof fn lemma_device_local_refuses_access(live: bool, size: int, offset: int, len: int)
    ensures
        access_outcome(live, None, size, offset, len) is Err,
{
}

} // verus!
