use vkcore::layout::{
    binding_layout, check_bindings, synthesize_layouts, DescriptorKind, LayoutError, REFLECT_ACCELERATION_STRUCTURE,
    REFLECT_COMBINED_IMAGE_SAMPLER, REFLECT_SAMPLER, REFLECT_STORAGE_BUFFER, REFLECT_UNIFORM_BUFFER, STAGE_ALL,
};
use vkcore::reflect::{BindingCount, ReflectedBinding};
use vkcore::sampler::{
    parse_sampler_name, standard_sampler_descs, AddressMode, Filter, MipmapMode, SamplerCache,
    SamplerDesc,
};
use vkcore::shader::{descriptor_pool_sizes, Shader, ShaderKind};

fn rb(set: u32, binding: u32, ty: u32, count: BindingCount, name: &str) -> ReflectedBinding {
    ReflectedBinding { set, binding, ty, count, name: name.to_string() }
}

fn standard_cache() -> SamplerCache {
    let mut cache = SamplerCache::new();
    for (i, d) in standard_sampler_descs().into_iter().enumerate() {
        cache.insert(d, 100 + i as u64);
    }
    cache
}

#[test]
fn sets_zero_and_two_leave_no_gap() {
    let bs = vec![
        rb(0, 0, REFLECT_UNIFORM_BUFFER, BindingCount::One, "camera"),
        rb(2, 0, REFLECT_COMBINED_IMAGE_SAMPLER, BindingCount::One, "albedo"),
    ];
    let ls = synthesize_layouts(&bs, 1024, &SamplerCache::new());
    assert_eq!(ls.len(), 3);
    assert_eq!(ls[0].bindings.len(), 1);
    assert!(ls[1].bindings.is_empty());
    assert!(!ls[1].update_after_bind_pool);
    assert_eq!(ls[2].bindings.len(), 1);
    assert_eq!(ls[2].bindings[0].kind, DescriptorKind::CombinedImageSampler);
}

#[test]
fn no_bindings_give_no_sets() {
    let ls = synthesize_layouts(&vec![], 1024, &SamplerCache::new());
    assert!(ls.is_empty());
}

#[test]
fn bindless_marker_uses_device_maximum() {
    let bs = vec![rb(0, 3, REFLECT_COMBINED_IMAGE_SAMPLER, BindingCount::StaticSized(4), "u_textures")];
    let ls = synthesize_layouts(&bs, 1024, &SamplerCache::new());
    let b = ls[0].bindings[0];
    assert_eq!(b.binding, 3);
    assert_eq!(b.count, 1024);
    assert_eq!(b.stages, STAGE_ALL);
    assert!(b.partially_bound);
    assert!(b.update_after_bind);
    assert!(ls[0].update_after_bind_pool);
}

#[test]
fn unbounded_array_uses_device_maximum() {
    let b = binding_layout(
        &rb(0, 0, REFLECT_STORAGE_BUFFER, BindingCount::Unbounded, "objects"),
        500,
        &SamplerCache::new(),
    )
    .unwrap();
    assert_eq!(b.count, 500);
    assert!(b.update_after_bind);
}

#[test]
fn static_and_single_counts() {
    let cache = SamplerCache::new();
    let s = binding_layout(&rb(0, 0, REFLECT_UNIFORM_BUFFER, BindingCount::StaticSized(4), "lights"), 9, &cache)
        .unwrap();
    assert_eq!(s.count, 4);
    assert!(s.partially_bound);
    assert!(!s.update_after_bind);
    let o = binding_layout(&rb(0, 1, REFLECT_UNIFORM_BUFFER, BindingCount::One, "camera"), 9, &cache).unwrap();
    assert_eq!(o.count, 1);
    assert_eq!(o.kind, DescriptorKind::UniformBuffer);
}

#[test]
fn dynamic_suffix_selects_dynamic_storage_buffer() {
    let cache = SamplerCache::new();
    let d = binding_layout(&rb(0, 0, REFLECT_STORAGE_BUFFER, BindingCount::One, "objects_dyn"), 9, &cache).unwrap();
    assert_eq!(d.kind, DescriptorKind::StorageBufferDynamic);
    let p = binding_layout(&rb(0, 0, REFLECT_STORAGE_BUFFER, BindingCount::One, "objects"), 9, &cache).unwrap();
    assert_eq!(p.kind, DescriptorKind::StorageBuffer);
    let a = binding_layout(&rb(0, 0, REFLECT_ACCELERATION_STRUCTURE, BindingCount::One, "tlas"), 9, &cache).unwrap();
    assert_eq!(a.kind, DescriptorKind::AccelerationStructure);
    assert_eq!(a.kind.to_raw(), 1000150000);
}

#[test]
fn sampler_binding_takes_cached_sampler() {
    let cache = standard_cache();
    let want = SamplerDesc {
        texel_filter: Filter::Nearest,
        mipmap_mode: MipmapMode::Linear,
        address_modes: AddressMode::ClampToEdge,
    };
    let b = binding_layout(&rb(1, 2, REFLECT_SAMPLER, BindingCount::One, "sampler_nlc"), 9, &cache).unwrap();
    assert_eq!(b.kind, DescriptorKind::Sampler);
    assert_eq!(b.count, 1);
    assert_eq!(b.stages, STAGE_ALL);
    assert!(!b.partially_bound);
    assert_eq!(b.immutable_sampler, cache.get_sampler(want));
    assert!(b.immutable_sampler.is_some());
}

#[test]
fn unknown_address_token_fails() {
    let bs = vec![
        rb(0, 0, REFLECT_UNIFORM_BUFFER, BindingCount::One, "camera"),
        rb(0, 1, REFLECT_SAMPLER, BindingCount::One, "sampler_llx"),
    ];
    let r = check_bindings(&bs, 1024, &standard_cache());
    assert_eq!(r.unwrap_err(), LayoutError::BadSamplerName { set: 0, binding: 1 });
    let again = check_bindings(&bs, 1024, &standard_cache());
    assert_eq!(again.unwrap_err(), LayoutError::BadSamplerName { set: 0, binding: 1 });
}

#[test]
fn sampler_without_cached_entry_fails() {
    let r = binding_layout(&rb(0, 4, REFLECT_SAMPLER, BindingCount::One, "sampler_llmr"), 9, &standard_cache());
    assert_eq!(r.unwrap_err(), LayoutError::SamplerNotCached { set: 0, binding: 4 });
}

#[test]
fn unsupported_kind_and_huge_set_fail() {
    let cache = SamplerCache::new();
    let r = binding_layout(&rb(0, 0, 10, BindingCount::One, "input"), 9, &cache);
    assert_eq!(r.unwrap_err(), LayoutError::UnsupportedKind { set: 0, binding: 0, ty: 10 });
    let r = binding_layout(&rb(u32::MAX, 0, REFLECT_UNIFORM_BUFFER, BindingCount::One, "x"), 9, &cache);
    assert_eq!(r.unwrap_err(), LayoutError::SetIndexTooLarge { set: u32::MAX });
}

#[test]
fn first_error_wins() {
    let bs = vec![
        rb(0, 0, 10, BindingCount::One, "input"),
        rb(0, 1, REFLECT_SAMPLER, BindingCount::One, "sampler_zz"),
    ];
    let r = check_bindings(&bs, 9, &SamplerCache::new());
    assert_eq!(r.unwrap_err(), LayoutError::UnsupportedKind { set: 0, binding: 0, ty: 10 });
}

#[test]
fn sampler_names_parse() {
    assert_eq!(
        parse_sampler_name("sampler_lnr"),
        Some(SamplerDesc {
            texel_filter: Filter::Linear,
            mipmap_mode: MipmapMode::Nearest,
            address_modes: AddressMode::Repeat,
        })
    );
    assert_eq!(
        parse_sampler_name("sampler_nncb").map(|d| d.address_modes),
        Some(AddressMode::ClampToBorder)
    );
    assert_eq!(
        parse_sampler_name("sampler_nnmr").map(|d| d.address_modes),
        Some(AddressMode::MirroredRepeat)
    );
    assert_eq!(parse_sampler_name("sampler_ll"), None);
    assert_eq!(parse_sampler_name("sampler_xlr"), None);
    assert_eq!(parse_sampler_name("sampler_lxr"), None);
    assert_eq!(parse_sampler_name("sampler_llrr"), None);
    assert_eq!(parse_sampler_name("samples_llr"), None);
    assert_eq!(parse_sampler_name(""), None);
}

#[test]
fn standard_samplers_cover_eight_combinations() {
    let ds = standard_sampler_descs();
    assert_eq!(ds.len(), 8);
    for (i, a) in ds.iter().enumerate() {
        assert!(a.address_modes == AddressMode::Repeat || a.address_modes == AddressMode::ClampToEdge);
        for b in ds.iter().skip(i + 1) {
            assert_ne!(a, b);
        }
    }
    let cache = standard_cache();
    assert_eq!(cache.get_default_sampler(), Some(106));
}

#[test]
fn cache_insert_replaces() {
    let d = SamplerDesc {
        texel_filter: Filter::Linear,
        mipmap_mode: MipmapMode::Linear,
        address_modes: AddressMode::Repeat,
    };
    let mut cache = SamplerCache::new();
    assert_eq!(cache.get_sampler(d), None);
    cache.insert(d, 5);
    cache.insert(d, 6);
    assert_eq!(cache.get_sampler(d), Some(6));
}

#[test]
fn pool_sizes_sum_counts_per_kind() {
    let bs = vec![
        rb(0, 0, REFLECT_UNIFORM_BUFFER, BindingCount::One, "camera"),
        rb(0, 1, REFLECT_COMBINED_IMAGE_SAMPLER, BindingCount::Unbounded, "textures"),
        rb(1, 0, REFLECT_UNIFORM_BUFFER, BindingCount::StaticSized(3), "lights"),
    ];
    let ls = synthesize_layouts(&bs, 1000, &SamplerCache::new());
    let sizes = descriptor_pool_sizes(&ls);
    assert_eq!(
        sizes,
        vec![(DescriptorKind::UniformBuffer, 4), (DescriptorKind::CombinedImageSampler, 1000)]
    );
}

#[test]
fn pool_sizes_saturate() {
    let bs = vec![
        rb(0, 0, REFLECT_UNIFORM_BUFFER, BindingCount::Unbounded, "a"),
        rb(0, 1, REFLECT_UNIFORM_BUFFER, BindingCount::Unbounded, "b"),
    ];
    let ls = synthesize_layouts(&bs, u32::MAX, &SamplerCache::new());
    assert_eq!(descriptor_pool_sizes(&ls), vec![(DescriptorKind::UniformBuffer, u32::MAX)]);
}

#[test]
fn shader_layouts_come_from_its_bindings() {
    let bs = vec![rb(1, 0, REFLECT_UNIFORM_BUFFER, BindingCount::One, "camera")];
    let shader = Shader::new(ShaderKind::Fragment, bs, "main".to_string());
    assert_eq!(shader.kind, ShaderKind::Fragment);
    assert_eq!(shader.entry_point, "main");
    let ls = shader.create_descriptor_set_layouts(64, &SamplerCache::new());
    assert_eq!(ls.len(), 2);
    assert!(ls[0].bindings.is_empty());
    assert_eq!(ls[1].bindings[0].kind, DescriptorKind::UniformBuffer);
}

#[test]
fn stage_flags() {
    assert_eq!(ShaderKind::Vertex.to_vk_shader_stage_flag(), 0x1);
    assert_eq!(ShaderKind::Fragment.to_vk_shader_stage_flag(), 0x10);
    assert_eq!(ShaderKind::Compute.to_vk_shader_stage_flag(), 0x20);
}
