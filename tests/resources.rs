use vkcore::memory::{find_memorytype_index, AllocationPlan, MemoryClass};
use vkcore::mesh::{DrawCall, GpuMesh};
use gpu_allocator::vulkan::Allocation;
use vkcore::resource::{format_texel_size, usage_with_device_address, AccessError, Buffer, Extent3D, Image};
use vkcore::sampler::{sampler_params, AddressMode, Filter, MipmapMode, SamplerDesc};

fn extent() -> Extent3D {
    Extent3D { width: 4, height: 4, depth: 1 }
}

#[test]
fn device_local_buffer_refuses_copy() {
    let b = Buffer::new(7, Allocation::default(), 64, 0x1000);
    assert_eq!(b.offset, 0);
    assert_eq!(b.check_access(0, 3), Err(AccessError::NotHostVisible));
    assert!(!b.has_been_written_to);
    assert_eq!(b.buffer, 7);
    assert_eq!(b.size, 64);
    assert_eq!(b.device_addr, 0x1000);
}

#[test]
fn buffer_release_is_take_once() {
    let mut b = Buffer::new(7, Allocation::default(), 64, 0);
    assert!(b.allocation.is_some());
    let _memory = b.release();
    assert!(b.allocation.is_none());
    assert_eq!(b.buffer, 7);
    assert_eq!(b.size, 64);
    assert_eq!(b.check_access(0, 1), Err(AccessError::Destroyed));
}

#[test]
fn image_release_is_take_once() {
    let mut img = Image::new(9, Allocation::default(), 43, extent());
    img.create_view(|| 55);
    let (view, _memory) = img.release();
    assert_eq!(view, Some(55));
    assert!(img.view.is_none());
    assert!(img.allocation.is_none());
}

#[test]
fn creation_plans() {
    let (usage, plan) = Buffer::creation_plan(0x1, MemoryClass::CpuToGpu);
    assert_eq!(usage, 0x20001);
    assert_eq!(plan, AllocationPlan { class: MemoryClass::CpuToGpu, linear: true });
    assert_eq!(Image::creation_plan(), AllocationPlan { class: MemoryClass::GpuOnly, linear: false });
}

#[test]
fn sampler_parameters_follow_the_combination() {
    let p = sampler_params(SamplerDesc {
        texel_filter: Filter::Linear,
        mipmap_mode: MipmapMode::Nearest,
        address_modes: AddressMode::ClampToEdge,
    });
    assert_eq!(p.mag_filter, Filter::Linear);
    assert_eq!(p.min_filter, Filter::Linear);
    assert_eq!(p.mipmap_mode, MipmapMode::Nearest);
    assert_eq!(p.address_mode_u, AddressMode::ClampToEdge);
    assert_eq!(p.address_mode_w, AddressMode::ClampToEdge);
    assert!(p.anisotropy_enable);
    let n = sampler_params(SamplerDesc {
        texel_filter: Filter::Nearest,
        mipmap_mode: MipmapMode::Linear,
        address_modes: AddressMode::Repeat,
    });
    assert!(!n.anisotropy_enable);
    assert_eq!(n.address_mode_v, AddressMode::Repeat);
}

#[test]
fn create_view_is_idempotent() {
    let mut img = Image::new(9, Allocation::default(), 43, extent());
    let mut made = 0;
    let first = img.create_view(|| {
        made += 1;
        31
    });
    let second = img.create_view(|| {
        made += 1;
        32
    });
    assert_eq!(first, 31);
    assert_eq!(second, 31);
    assert_eq!(made, 1);
    assert_eq!(img.view, Some(31));
}

#[test]
fn texel_sizes() {
    let size = |format: i32| Image::new(1, Allocation::default(), format, extent()).bytes_per_texel();
    assert_eq!(size(37), 4);
    assert_eq!(size(43), 4);
    assert_eq!(size(50), 4);
    assert_eq!(size(38), 4);
    assert_eq!(size(97), 8);
    assert_eq!(size(109), 16);
    assert_eq!(format_texel_size(100), None);
    assert_eq!(format_texel_size(97), Some(8));
}

#[test]
fn usage_always_gains_device_address() {
    assert_eq!(usage_with_device_address(0x1), 0x20001);
    assert_eq!(usage_with_device_address(0x20000), 0x20000);
    assert_eq!(usage_with_device_address(0), 0x20000);
}

#[test]
fn memory_type_search_takes_first_fit() {
    let props = vec![0x1, 0x6, 0x7, 0x6];
    assert_eq!(find_memorytype_index(0b1111, &props, 0x6), Some(1));
    assert_eq!(find_memorytype_index(0b1101, &props, 0x6), Some(2));
    assert_eq!(find_memorytype_index(0b0001, &props, 0x6), None);
    assert_eq!(find_memorytype_index(0b1111, &props, 0x8), None);
    assert_eq!(find_memorytype_index(0b1111, &vec![], 0), None);
}

#[test]
fn meshes_draw_indexed_exactly_with_indices() {
    let vb = Buffer::new(1, Allocation::default(), 64, 0);
    let plain = GpuMesh::new(vb, None, 3, 0, 3);
    assert_eq!(plain.draw_call(), DrawCall::NonIndexed { vertex_count: 3 });
    let vb = Buffer::new(2, Allocation::default(), 64, 0);
    let ib = Buffer::new(3, Allocation::default(), 24, 0);
    let indexed = GpuMesh::new(vb, Some(ib), 4, 6, 3);
    assert_eq!(indexed.draw_call(), DrawCall::Indexed { index_count: 6 });
    assert_eq!(indexed.vertex_count, 4);
}
