use vstd::prelude::*;
use vstd::string::StrSliceExecFns;
use crate::reflect::{BindingCount, ReflectedBinding};
use crate::sampler::{lookup_sampler, parse_sampler_name, sampler_desc_of, SamplerCache};

verus! {

/// Raw reflection numbers of the descriptor types the synthesizer handles.
pub const REFLECT_SAMPLER: u32 = 0;
pub const REFLECT_COMBINED_IMAGE_SAMPLER: u32 = 1;
pub const REFLECT_SAMPLED_IMAGE: u32 = 2;
pub const REFLECT_STORAGE_IMAGE: u32 = 3;
pub const REFLECT_UNIFORM_TEXEL_BUFFER: u32 = 4;
pub const REFLECT_UNIFORM_BUFFER: u32 = 6;
pub const REFLECT_STORAGE_BUFFER: u32 = 7;
pub const REFLECT_STORAGE_BUFFER_DYNAMIC: u32 = 9;
pub const REFLECT_ACCELERATION_STRUCTURE: u32 = 1000150000;

/// The descriptor type that a synthesized binding declares.
#[derive(Clone, Copy, Debug, PartialEq, Eq, Structural, Hash)]
pub enum DescriptorKind {
    Sampler,
    CombinedImageSampler,
    SampledImage,
    StorageImage,
    UniformTexelBuffer,
    UniformBuffer,
    StorageBuffer,
    StorageBufferDynamic,
    AccelerationStructure,
}

pub open spec fn kind_raw(k: DescriptorKind) -> i32 {
    match k {
        DescriptorKind::Sampler => 0,
        DescriptorKind::CombinedImageSampler => 1,
        DescriptorKind::SampledImage => 2,
        DescriptorKind::StorageImage => 3,
        DescriptorKind::UniformTexelBuffer => 4,
        DescriptorKind::UniformBuffer => 6,
        DescriptorKind::StorageBuffer => 7,
        DescriptorKind::StorageBufferDynamic => 9,
        DescriptorKind::AccelerationStructure => 1000150000,
    }
}

impl DescriptorKind {
    /// The graphics API's number for this descriptor type.
    pub fn to_raw(&self) -> (r: i32)
        ensures
            r == kind_raw(*self),
    {
        match self {
            DescriptorKind::Sampler => 0,
            DescriptorKind::CombinedImageSampler => 1,
            DescriptorKind::SampledImage => 2,
            DescriptorKind::StorageImage => 3,
            DescriptorKind::UniformTexelBuffer => 4,
            DescriptorKind::UniformBuffer => 6,
            DescriptorKind::StorageBuffer => 7,
            DescriptorKind::StorageBufferDynamic => 9,
            DescriptorKind::AccelerationStructure => 1000150000,
        }
    }
}

/// The shader-stage bits that make a binding visible to every stage.
pub const STAGE_ALL: u32 = 0x7fff_ffff;

/// One binding of a synthesized set layout.
#[derive(Clone, Copy, Debug, PartialEq, Eq, Structural)]
pub struct BindingLayout {
    pub binding: u32,
    pub kind: DescriptorKind,
    pub count: u32,
    /// The shader stages that see the binding.
    pub stages: u32,
    pub partially_bound: bool,
    pub update_after_bind: bool,
    /// The immutable sampler of a sampler binding, drawn from the cache.
    pub immutable_sampler: Option<u64>,
}

/// The description of one descriptor-set layout.
#[derive(Clone, Debug)]
pub struct SetLayout {
    pub bindings: Vec<BindingLayout>,
    /// Set when a binding of this set may be updated after it is bound.
    pub update_after_bind_pool: bool,
}

/// Why synthesis refused a shader's interface.
#[derive(Clone, Copy, Debug, PartialEq, Eq, Structural)]
pub enum LayoutError {
    /// A sampler binding whose name does not encode filter, mipmap and address mode.
    BadSamplerName { set: u32, binding: u32 },
    /// A sampler binding whose encoded parameters have no sampler in the cache.
    SamplerNotCached { set: u32, binding: u32 },
    /// A descriptor type that has no layout equivalent here.
    UnsupportedKind { set: u32, binding: u32, ty: u32 },
    /// A static array longer than a descriptor count can hold.
    CountTooLarge { set: u32, binding: u32 },
    /// A set index so large that the number of sets does not fit in 32 bits.
    SetIndexTooLarge { set: u32 },
}

/// A name starting with `u_` marks a bindless array.
pub open spec fn is_bindless_name(name: Seq<char>) -> bool {
    name.len() >= 2 && name[0] == 'u' && name[1] == '_'
}

/// A name ending in `_dyn` marks a storage buffer with dynamic offsets.
pub open spec fn is_dynamic_name(name: Seq<char>) -> bool {
    name.len() >= 4 && name.skip(name.len() - 4) == seq!['_', 'd', 'y', 'n']
}

/// A binding sized to the device maximum.
pub open spec fn is_bindless(b: ReflectedBinding) -> bool {
    is_bindless_name(b.name@) || b.count == BindingCount::Unbounded
}

pub open spec fn element_count(b: ReflectedBinding, max_count: u32) -> Option<u32> {
    if is_bindless(b) {
        Some(max_count)
    } else {
        match b.count {
            BindingCount::StaticSized(n) => if n <= u32::MAX {
                Some(n as u32)
            } else {
                None
            },
            _ => Some(1),
        }
    }
}

/// The descriptor type of a non-sampler binding.
pub open spec fn kind_of(ty: u32, name: Seq<char>) -> Option<DescriptorKind> {
    if ty == REFLECT_COMBINED_IMAGE_SAMPLER {
        Some(DescriptorKind::CombinedImageSampler)
    } else if ty == REFLECT_SAMPLED_IMAGE {
        Some(DescriptorKind::SampledImage)
    } else if ty == REFLECT_STORAGE_IMAGE {
        Some(DescriptorKind::StorageImage)
    } else if ty == REFLECT_UNIFORM_TEXEL_BUFFER {
        Some(DescriptorKind::UniformTexelBuffer)
    } else if ty == REFLECT_UNIFORM_BUFFER {
        Some(DescriptorKind::UniformBuffer)
    } else if ty == REFLECT_STORAGE_BUFFER {
        if is_dynamic_name(name) {
            Some(DescriptorKind::StorageBufferDynamic)
        } else {
            Some(DescriptorKind::StorageBuffer)
        }
    } else if ty == REFLECT_STORAGE_BUFFER_DYNAMIC {
        Some(DescriptorKind::StorageBufferDynamic)
    } else if ty == REFLECT_ACCELERATION_STRUCTURE {
        Some(DescriptorKind::AccelerationStructure)
    } else {
        None
    }
}

/// The layout of one reflected binding.
pub open spec fn layout_of(
    b: ReflectedBinding,
    max_count: u32,
    samplers: Seq<(crate::sampler::SamplerDesc, u64)>,
) -> Result<BindingLayout, LayoutError> {
    if b.set == u32::MAX {
        Err(LayoutError::SetIndexTooLarge { set: b.set })
    } else if b.ty == REFLECT_SAMPLER {
        match sampler_desc_of(b.name@) {
            None => Err(LayoutError::BadSamplerName { set: b.set, binding: b.binding }),
            Some(d) => match lookup_sampler(samplers, d) {
                None => Err(LayoutError::SamplerNotCached { set: b.set, binding: b.binding }),
                Some(h) => Ok(
                    BindingLayout {
                        binding: b.binding,
                        kind: DescriptorKind::Sampler,
                        count: 1,
                        stages: STAGE_ALL,
                        partially_bound: false,
                        update_after_bind: false,
                        immutable_sampler: Some(h),
                    },
                ),
            },
        }
    } else {
        match kind_of(b.ty, b.name@) {
            None => Err(LayoutError::UnsupportedKind { set: b.set, binding: b.binding, ty: b.ty }),
            Some(k) => match element_count(b, max_count) {
                None => Err(LayoutError::CountTooLarge { set: b.set, binding: b.binding }),
                Some(c) => Ok(
                    BindingLayout {
                        binding: b.binding,
                        kind: k,
                        count: c,
                        stages: STAGE_ALL,
                        partially_bound: true,
                        update_after_bind: is_bindless(b),
                        immutable_sampler: None,
                    },
                ),
            },
        }
    }
}

/// The error of the first binding of `bs` that has no layout.
pub open spec fn first_error(
    bs: Seq<ReflectedBinding>,
    max_count: u32,
    samplers: Seq<(crate::sampler::SamplerDesc, u64)>,
) -> Option<LayoutError>
    decreases bs.len(),
{
    if bs.len() == 0 {
        None
    } else {
        match layout_of(bs[0], max_count, samplers) {
            Err(e) => Some(e),
            Ok(_) => first_error(bs.skip(1), max_count, samplers),
        }
    }
}

/// One more than the highest set index referenced, or zero.
pub open spec fn set_count(bs: Seq<ReflectedBinding>) -> nat
    decreases bs.len(),
{
    if bs.len() == 0 {
        0
    } else {
        let rest = set_count(bs.drop_last());
        let here = bs.last().set as nat + 1;
        if here > rest {
            here
        } else {
            rest
        }
    }
}

/// The layouts of the bindings of `bs` that belong to set `s`, in order.
pub open spec fn set_bindings(
    bs: Seq<ReflectedBinding>,
    s: nat,
    max_count: u32,
    samplers: Seq<(crate::sampler::SamplerDesc, u64)>,
) -> Seq<BindingLayout>
    decreases bs.len(),
{
    if bs.len() == 0 {
        Seq::empty()
    } else {
        let rest = set_bindings(bs.drop_last(), s, max_count, samplers);
        if bs.last().set as nat == s {
            rest.push(layout_of(bs.last(), max_count, samplers)->Ok_0)
        } else {
            rest
        }
    }
}

/// Whether some binding of set `s` is a bindless array.
pub open spec fn set_has_bindless(bs: Seq<ReflectedBinding>, s: nat) -> bool {
    exists|i: int| 0 <= i < bs.len() && bs[i].set as nat == s && is_bindless(bs[i])
}

fn is_bindless_exec(b: &ReflectedBinding) -> (r: bool)
    ensures
        r == is_bindless(*b),
{
    let n = b.name.as_str().unicode_len();
    let marked = n >= 2 && b.name.as_str().get_char(0) == 'u' && b.name.as_str().get_char(1) == '_';
    marked || matches!(b.count, BindingCount::Unbounded)
}

fn is_dynamic_exec(name: &str) -> (r: bool)
    ensures
        r == is_dynamic_name(name@),
{
    let n = name.unicode_len();
    if n < 4 {
        return false;
    }
    let tail = Ghost(name@.skip(n - 4));
    let ghost want = seq!['_', 'd', 'y', 'n'];
    assert(want[0] == '_' && want[1] == 'd' && want[2] == 'y' && want[3] == 'n');
    let r = name.get_char(n - 4) == '_' && name.get_char(n - 3) == 'd' && name.get_char(n - 2)
        == 'y' && name.get_char(n - 1) == 'n';
    assert(tail@.len() == 4 && tail@[0] == name@[n - 4] && tail@[1] == name@[n - 3] && tail@[2]
        == name@[n - 2] && tail@[3] == name@[n - 1]);
    if r {
        assert(tail@ =~= want);
    }
    r
}

fn kind_exec(ty: u32, name: &str) -> (r: Option<DescriptorKind>)
    ensures
        r == kind_of(ty, name@),
{
    if ty == REFLECT_COMBINED_IMAGE_SAMPLER {
        Some(DescriptorKind::CombinedImageSampler)
    } else if ty == REFLECT_SAMPLED_IMAGE {
        Some(DescriptorKind::SampledImage)
    } else if ty == REFLECT_STORAGE_IMAGE {
        Some(DescriptorKind::StorageImage)
    } else if ty == REFLECT_UNIFORM_TEXEL_BUFFER {
        Some(DescriptorKind::UniformTexelBuffer)
    } else if ty == REFLECT_UNIFORM_BUFFER {
        Some(DescriptorKind::UniformBuffer)
    } else if ty == REFLECT_STORAGE_BUFFER {
        if is_dynamic_exec(name) {
            Some(DescriptorKind::StorageBufferDynamic)
        } else {
            Some(DescriptorKind::StorageBuffer)
        }
    } else if ty == REFLECT_STORAGE_BUFFER_DYNAMIC {
        Some(DescriptorKind::StorageBufferDynamic)
    } else if ty == REFLECT_ACCELERATION_STRUCTURE {
        Some(DescriptorKind::AccelerationStructure)
    } else {
        None
    }
}

/// Synthesizes the layout of one reflected binding.
pub fn binding_layout(b: &ReflectedBinding, max_count: u32, samplers: &SamplerCache) -> (r: Result<
    BindingLayout,
    LayoutError,
>)
    ensures
        r == layout_of(*b, max_count, samplers@),
{
    if b.set == u32::MAX {
        return Err(LayoutError::SetIndexTooLarge { set: b.set });
    }
    if b.ty == REFLECT_SAMPLER {
        match parse_sampler_name(b.name.as_str()) {
            None => Err(LayoutError::BadSamplerName { set: b.set, binding: b.binding }),
            Some(d) => match samplers.get_sampler(d) {
                None => Err(LayoutError::SamplerNotCached { set: b.set, binding: b.binding }),
                Some(h) => Ok(
                    BindingLayout {
                        binding: b.binding,
                        kind: DescriptorKind::Sampler,
                        count: 1,
                        stages: STAGE_ALL,
                        partially_bound: false,
                        update_after_bind: false,
                        immutable_sampler: Some(h),
                    },
                ),
            },
        }
    } else {
        match kind_exec(b.ty, b.name.as_str()) {
            None => Err(LayoutError::UnsupportedKind { set: b.set, binding: b.binding, ty: b.ty }),
            Some(k) => {
                let bindless = is_bindless_exec(b);
                let count: Option<u32> = if bindless {
                    Some(max_count)
                } else {
                    match b.count {
                        BindingCount::StaticSized(n) => if n <= u32::MAX as usize {
                            Some(n as u32)
                        } else {
                            None
                        },
                        _ => Some(1),
                    }
                };
                match count {
                    None => Err(LayoutError::CountTooLarge { set: b.set, binding: b.binding }),
                    Some(c) => Ok(
                        BindingLayout {
                            binding: b.binding,
                            kind: k,
                            count: c,
                            stages: STAGE_ALL,
                            partially_bound: true,
                            update_after_bind: bindless,
                            immutable_sampler: None,
                        },
                    ),
                }
            },
        }
    }
}

/// The first binding of `bs` that has no layout, as an error; `Ok` when
/// every binding has one and synthesis may proceed.
pub fn check_bindings(bs: &Vec<ReflectedBinding>, max_count: u32, samplers: &SamplerCache) -> (r: Result<
    (),
    LayoutError,
>)
    ensures
        r is Ok <==> first_error(bs@, max_count, samplers@) is None,
        r matches Err(e) ==> first_error(bs@, max_count, samplers@) == Some(e),
{
    let mut i: usize = 0;
    assert(bs@.skip(0) =~= bs@);
    while i < bs.len()
        invariant
            i <= bs@.len(),
            first_error(bs@, max_count, samplers@) == first_error(bs@.skip(i as int), max_count, samplers@),
        decreases bs@.len() - i,
    {
        let ghost rest = bs@.skip(i as int);
        assert(rest[0] == bs@[i as int]);
        assert(rest.skip(1) =~= bs@.skip(i + 1));
        match binding_layout(&bs[i], max_count, samplers) {
            Err(e) => {
                return Err(e);
            },
            Ok(_) => {},
        }
        i = i + 1;
    }
    assert(bs@.skip(i as int).len() == 0);
    Ok(())
}

/// Synthesizes one layout per set index from zero to the highest referenced,
/// an empty one for an index without bindings, so that the sets have no gap.
/// Every binding must have a layout (`check_bindings` says which does not),
/// and bindless arrays hold at least one descriptor.
pub fn synthesize_layouts(
    bs: &Vec<ReflectedBinding>,
    max_count: u32,
    samplers: &SamplerCache,
) -> (r: Vec<SetLayout>)
    requires
        max_count > 0,
        first_error(bs@, max_count, samplers@) is None,
    ensures
        r@.len() == set_count(bs@),
        forall|s: int|
            0 <= s < r@.len() ==> {
                &&& (#[trigger] r@[s]).bindings@ == set_bindings(bs@, s as nat, max_count, samplers@)
                &&& r@[s].update_after_bind_pool == set_has_bindless(bs@, s as nat)
            },
{
    let mut lays: Vec<BindingLayout> = Vec::new();
    let mut count: u32 = 0;
    let mut i: usize = 0;
    assert(bs@.skip(0) =~= bs@);
    while i < bs.len()
        invariant
            i <= bs@.len(),
            lays@.len() == i,
            first_error(bs@, max_count, samplers@) is None,
            first_error(bs@, max_count, samplers@) == first_error(bs@.skip(i as int), max_count, samplers@),
            forall|j: int| 0 <= j < i ==> (#[trigger] layout_of(bs@[j], max_count, samplers@)) == Ok::<BindingLayout, LayoutError>(lays@[j]),
            count as nat == set_count(bs@.take(i as int)),
        decreases bs@.len() - i,
    {
        let ghost rest = bs@.skip(i as int);
        assert(rest[0] == bs@[i as int]);
        assert(rest.skip(1) =~= bs@.skip(i + 1));
        assert(bs@.take(i + 1).drop_last() =~= bs@.take(i as int));
        match binding_layout(&bs[i], max_count, samplers) {
            Err(_) => {
                proof {
                    assert(first_error(bs@.skip(i as int), max_count, samplers@) is Some);
                    assert(false);
                }
            },
            Ok(l) => {
                lays.push(l);
            },
        }
        if bs[i].set + 1 > count {
            count = bs[i].set + 1;
        }
        i = i + 1;
    }
    assert(bs@.skip(i as int).len() == 0);
    assert(bs@.take(i as int) =~= bs@);
    let mut ls: Vec<SetLayout> = Vec::new();
    let mut s: u32 = 0;
    while s < count
        invariant
            s <= count,
            count as nat == set_count(bs@),
            lays@.len() == bs@.len(),
            forall|j: int| 0 <= j < bs@.len() ==> (#[trigger] layout_of(bs@[j], max_count, samplers@)) == Ok::<BindingLayout, LayoutError>(lays@[j]),
            ls@.len() == s,
            forall|t: int|
                0 <= t < s ==> {
                    &&& (#[trigger] ls@[t]).bindings@ == set_bindings(bs@, t as nat, max_count, samplers@)
                    &&& ls@[t].update_after_bind_pool == set_has_bindless(bs@, t as nat)
                },
        decreases count - s,
    {
        let mut here: Vec<BindingLayout> = Vec::new();
        let mut uab = false;
        let mut j: usize = 0;
        while j < bs.len()
            invariant
                j <= bs@.len(),
                lays@.len() == bs@.len(),
                forall|k: int| 0 <= k < bs@.len() ==> (#[trigger] layout_of(bs@[k], max_count, samplers@)) == Ok::<BindingLayout, LayoutError>(lays@[k]),
                here@ == set_bindings(bs@.take(j as int), s as nat, max_count, samplers@),
                uab == set_has_bindless(bs@.take(j as int), s as nat),
            decreases bs@.len() - j,
        {
            assert(bs@.take(j + 1).drop_last() =~= bs@.take(j as int));
            assert(bs@.take(j + 1).last() == bs@[j as int]);
            assert(layout_of(bs@[j as int], max_count, samplers@) == Ok::<BindingLayout, LayoutError>(lays@[j as int]));
            if bs[j].set == s {
                here.push(lays[j]);
                if is_bindless_exec(&bs[j]) {
                    uab = true;
                }
            }
            proof {
                let t = bs@.take(j + 1);
                if uab {
                    if !set_has_bindless(bs@.take(j as int), s as nat) {
                        assert(t[j as int].set as nat == s as nat && is_bindless(t[j as int]));
                    }
                } else {
                    assert forall|k: int| 0 <= k < t.len() && t[k].set as nat == s as nat implies !is_bindless(t[k]) by {
                        if k < j {
                            assert(t[k] == bs@.take(j as int)[k]);
                        }
                    }
                }
            }
            j = j + 1;
        }
        assert(bs@.take(j as int) =~= bs@);
        ls.push(SetLayout { bindings: here, update_after_bind_pool: uab });
        s = s + 1;
    }
    ls
}

proof fn lemma_set_count_bounds(bs: Seq<ReflectedBinding>)
    ensures
        forall|i: int| 0 <= i < bs.len() ==> bs[i].set < set_count(bs),
        bs.len() > 0 ==> exists|i: int| 0 <= i < bs.len() && set_count(bs) == bs[i].set + 1,
        bs.len() == 0 ==> set_count(bs) == 0,
    decreases bs.len(),
{
    if bs.len() > 0 {
        let p = bs.drop_last();
        lemma_set_count_bounds(p);
        assert forall|i: int| 0 <= i < bs.len() implies bs[i].set < set_count(bs) by {
            if i < bs.len() - 1 {
                assert(bs[i] == p[i]);
            }
        }
        if set_count(bs) != bs.last().set + 1 {
            let i = choose|i: int| 0 <= i < p.len() && set_count(p) == p[i].set + 1;
            assert(bs[i] == p[i]);
        }
    }
}

proof fn lemma_set_without_bindings(
    bs: Seq<ReflectedBinding>,
    s: nat,
    max_count: u32,
    samplers: Seq<(crate::sampler::SamplerDesc, u64)>,
)
    requires
        forall|i: int| 0 <= i < bs.len() ==> bs[i].set as nat != s,
    ensures
        set_bindings(bs, s, max_count, samplers) == Seq::<BindingLayout>::empty(),
        !set_has_bindless(bs, s),
    decreases bs.len(),
{
    if bs.len() > 0 {
        lemma_set_without_bindings(bs.drop_last(), s, max_count, samplers);
    }
}

/// A shader whose bindings reference exactly the sets 0 and 2 gets three
/// layouts, and the one at index 1 is empty.
pub proof fn lemma_no_gap_between_sets(
    bs: Seq<ReflectedBinding>,
    max_count: u32,
    samplers: Seq<(crate::sampler::SamplerDesc, u64)>,
)
    requires
        forall|i: int| 0 <= i < bs.len() ==> bs[i].set == 0 || bs[i].set == 2,
        exists|i: int| 0 <= i < bs.len() && bs[i].set == 0,
        exists|i: int| 0 <= i < bs.len() && bs[i].set == 2,
    ensures
        set_count(bs) == 3,
        set_bindings(bs, 1, max_count, samplers) == Seq::<BindingLayout>::empty(),
        !set_has_bindless(bs, 1),
{
    lemma_set_count_bounds(bs);
    lemma_set_without_bindings(bs, 1, max_count, samplers);
}

/// A binding named with the bindless marker is sized to the device maximum
/// and is both partially bound and updatable after bind.
pub proof fn lemma_bindless_marker(
    b: ReflectedBinding,
    max_count: u32,
    samplers: Seq<(crate::sampler::SamplerDesc, u64)>,
)
    requires
        is_bindless_name(b.name@),
        b.ty != REFLECT_SAMPLER,
        kind_of(b.ty, b.name@) is Some,
        b.set != u32::MAX,
    ensures
        layout_of(b, max_count, samplers) is Ok,
        layout_of(b, max_count, samplers)->Ok_0.count == max_count,
        layout_of(b, max_count, samplers)->Ok_0.partially_bound,
        layout_of(b, max_count, samplers)->Ok_0.update_after_bind,
{
}

proof fn lemma_error_found(
    bs: Seq<ReflectedBinding>,
    k: int,
    max_count: u32,
    samplers: Seq<(crate::sampler::SamplerDesc, u64)>,
)
    requires
        0 <= k < bs.len(),
        layout_of(bs[k], max_count, samplers) is Err,
    ensures
        first_error(bs, max_count, samplers) is Some,
    decreases k,
{
    if k > 0 {
        if layout_of(bs[0], max_count, samplers) is Ok {
            assert(bs.skip(1)[k - 1] == bs[k]);
            lemma_error_found(bs.skip(1), k - 1, max_count, samplers);
        }
    }
}

/// A sampler binding whose address-mode token is not one of the known ones
/// makes synthesis fail, with no fallback sampler.
pub proof fn lemma_unknown_address_mode_fails(
    bs: Seq<ReflectedBinding>,
    k: int,
    max_count: u32,
    samplers: Seq<(crate::sampler::SamplerDesc, u64)>,
)
    requires
        0 <= k < bs.len(),
        bs[k].ty == REFLECT_SAMPLER,
        bs[k].name@.len() >= 10,
        crate::sampler::address_token(bs[k].name@.skip(10)) is None,
    ensures
        layout_of(bs[k], max_count, samplers) is Err,
        first_error(bs, max_count, samplers) is Some,
{
    lemma_error_found(bs, k, max_count, samplers);
}

} // verus!
