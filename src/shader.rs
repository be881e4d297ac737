use vstd::prelude::*;
use crate::layout::{
    first_error, set_bindings, set_count, set_has_bindless, synthesize_layouts, BindingLayout,
    DescriptorKind, SetLayout,
};
use crate::reflect::ReflectedBinding;
use crate::sampler::SamplerCache;

verus! {

/// Shader-stage bits of the graphics API.
pub const STAGE_VERTEX: u32 = 0x1;
pub const STAGE_FRAGMENT: u32 = 0x10;
pub const STAGE_COMPUTE: u32 = 0x20;

/// The pipeline stage a shader runs in.
#[derive(Clone, Copy, Debug, PartialEq, Eq, Structural)]
pub enum ShaderKind {
    Vertex,
    Fragment,
    Compute,
}

pub open spec fn stage_bit(k: ShaderKind) -> u32 {
    match k {
        ShaderKind::Vertex => STAGE_VERTEX,
        ShaderKind::Fragment => STAGE_FRAGMENT,
        ShaderKind::Compute => STAGE_COMPUTE,
    }
}

impl ShaderKind {
    /// The stage bit of the graphics API for this kind.
    pub fn to_vk_shader_stage_flag(&self) -> (r: u32)
        ensures
            r == stage_bit(*self),
    {
        match self {
            ShaderKind::Vertex => STAGE_VERTEX,
            ShaderKind::Fragment => STAGE_FRAGMENT,
            ShaderKind::Compute => STAGE_COMPUTE,
        }
    }
}

/// A compiled shader with its reflected resource interface.
pub struct Shader {
    pub kind: ShaderKind,
    pub bindings: Vec<ReflectedBinding>,
    pub entry_point: String,
}

impl Shader {
    /// A shader of `kind` whose resource interface reflection reported as
    /// `bindings`.
    pub fn new(kind: ShaderKind, bindings: Vec<ReflectedBinding>, entry_point: String) -> (r: Shader)
        ensures
            r.kind == kind,
            r.bindings == bindings,
            r.entry_point == entry_point,
    {
        Shader { kind, bindings, entry_point }
    }

    /// The set layouts of this shader: one per set index up to the highest
    /// referenced, without gaps. Every binding must have a layout.
    pub fn create_descriptor_set_layouts(&self, max_count: u32, samplers: &SamplerCache) -> (r: Vec<SetLayout>)
        requires
            max_count > 0,
            first_error(self.bindings@, max_count, samplers@) is None,
        ensures
            r@.len() == set_count(self.bindings@),
            forall|s: int|
                0 <= s < r@.len() ==> {
                    &&& (#[trigger] r@[s]).bindings@ == set_bindings(self.bindings@, s as nat, max_count, samplers@)
                    &&& r@[s].update_after_bind_pool == set_has_bindless(self.bindings@, s as nat)
                },
    {
        synthesize_layouts(&self.bindings, max_count, samplers)
    }
}

/// How many descriptor sets one pool serves.
pub const MAX_POOL_SETS: u32 = 2;

/// All bindings of `ls`, set after set.
pub open spec fn all_bindings(ls: Seq<SetLayout>) -> Seq<BindingLayout>
    decreases ls.len(),
{
    if ls.len() == 0 {
        Seq::empty()
    } else {
        all_bindings(ls.drop_last()) + ls.last().bindings@
    }
}

/// The descriptors of kind `k` that `bs` asks for.
pub open spec fn kind_total(bs: Seq<BindingLayout>, k: DescriptorKind) -> nat
    decreases bs.len(),
{
    if bs.len() == 0 {
        0
    } else {
        kind_total(bs.drop_last(), k) + if bs.last().kind == k {
            bs.last().count as nat
        } else {
            0
        }
    }
}

pub open spec fn saturate(n: nat) -> u32 {
    if n <= u32::MAX {
        n as u32
    } else {
        u32::MAX
    }
}

/// The pool sizes for `bs`: each kind used once, in order of first use, with
/// the sum of its counts.
pub open spec fn pool_sizes_ok(bs: Seq<BindingLayout>, r: Seq<(DescriptorKind, u32)>) -> bool {
    &&& forall|i: int, j: int| 0 <= i < j < r.len() ==> r[i].0 != r[j].0
    &&& forall|i: int| 0 <= i < r.len() ==> (#[trigger] r[i]).1 == saturate(kind_total(bs, r[i].0))
    &&& forall|k: DescriptorKind| has_entry(r, k) <==> uses_kind(bs, k)
    &&& forall|i: int, j: int| 0 <= i < j < r.len() ==> first_use(bs, r[i].0) < first_use(bs, r[j].0)
}

/// The position of the first binding of kind `k` in `bs` (the length of `bs`
/// when there is none).
pub open spec fn first_use(bs: Seq<BindingLayout>, k: DescriptorKind) -> int
    decreases bs.len(),
{
    if bs.len() == 0 {
        0
    } else if uses_kind(bs.drop_last(), k) {
        first_use(bs.drop_last(), k)
    } else {
        bs.len() - 1
    }
}

proof fn lemma_first_use_bound(bs: Seq<BindingLayout>, k: DescriptorKind)
    requires
        uses_kind(bs, k),
    ensures
        0 <= first_use(bs, k) < bs.len(),
    decreases bs.len(),
{
    if uses_kind(bs.drop_last(), k) {
        lemma_first_use_bound(bs.drop_last(), k);
    }
}

pub open spec fn has_entry(r: Seq<(DescriptorKind, u32)>, k: DescriptorKind) -> bool {
    exists|i: int| 0 <= i < r.len() && r[i].0 == k
}

pub open spec fn uses_kind(bs: Seq<BindingLayout>, k: DescriptorKind) -> bool {
    exists|j: int| 0 <= j < bs.len() && bs[j].kind == k
}

fn add_binding(r: &mut Vec<(DescriptorKind, u32)>, b: BindingLayout, bs: Ghost<Seq<BindingLayout>>)
    requires
        pool_sizes_ok(bs@, old(r)@),
    ensures
        pool_sizes_ok(bs@.push(b), final(r)@),
{
    let ghost nbs = bs@.push(b);
    proof {
        assert(nbs.drop_last() =~= bs@);
        assert(nbs.last() == b);
        assert forall|k: DescriptorKind| uses_kind(nbs, k) <==> uses_kind(bs@, k) || k == b.kind by {
            if uses_kind(nbs, k) {
                let j = choose|j: int| 0 <= j < nbs.len() && nbs[j].kind == k;
                if j < bs@.len() {
                    assert(bs@[j] == nbs[j]);
                }
            }
            if uses_kind(bs@, k) {
                let j = choose|j: int| 0 <= j < bs@.len() && bs@[j].kind == k;
                assert(nbs[j] == bs@[j]);
            }
            if k == b.kind {
                assert(nbs[bs@.len() as int].kind == k);
            }
        }
        assert forall|k: DescriptorKind| kind_total(nbs, k) == kind_total(bs@, k) + if k == b.kind {
            b.count as nat
        } else {
            0
        } by {}
        assert forall|k: DescriptorKind| uses_kind(bs@, k) implies first_use(nbs, k) == first_use(bs@, k) && first_use(bs@, k) < bs@.len() by {
            lemma_first_use_bound(bs@, k);
        }
        assert(!uses_kind(bs@, b.kind) ==> first_use(nbs, b.kind) == bs@.len());
    }
    let mut i: usize = 0;
    while i < r.len()
        invariant
            r@ == old(r)@,
            pool_sizes_ok(bs@, old(r)@),
            nbs == bs@.push(b),
            forall|k: DescriptorKind| uses_kind(nbs, k) <==> uses_kind(bs@, k) || k == b.kind,
            forall|k: DescriptorKind| kind_total(nbs, k) == kind_total(bs@, k) + if k == b.kind {
                b.count as nat
            } else {
                0
            },
            forall|k: DescriptorKind| uses_kind(bs@, k) ==> first_use(nbs, k) == first_use(bs@, k) && first_use(bs@, k) < bs@.len(),
            !uses_kind(bs@, b.kind) ==> first_use(nbs, b.kind) == bs@.len(),
            i <= r@.len(),
            forall|j: int| 0 <= j < i ==> r@[j].0 != b.kind,
        decreases r@.len() - i,
    {
        if r[i].0 == b.kind {
            let total = r[i].1.saturating_add(b.count);
            let ghost before = r@;
            r.set(i, (b.kind, total));
            proof {
                assert(before == old(r)@);
                assert(before[i as int].0 == b.kind);
                let e = old(r)@[i as int];
                assert(e.1 == saturate(kind_total(bs@, e.0)));
                assert(before[i as int].1 == saturate(kind_total(bs@, b.kind)));
                assert(total == saturate(kind_total(nbs, b.kind)));
                assert forall|j: int| 0 <= j < r@.len() implies (#[trigger] r@[j]).1 == saturate(kind_total(nbs, r@[j].0)) by {
                    if j != i {
                        assert(r@[j] == before[j]);
                        if j < i {
                            assert(before[j].0 != before[i as int].0);
                        } else {
                            let ii = i as int;
                            assert(0 <= ii < j < old(r)@.len());
                            assert(old(r)@[ii].0 != old(r)@[j].0);
                        }
                    }
                }
                assert forall|x: int, y: int| 0 <= x < y < r@.len() implies r@[x].0 != r@[y].0 by {
                    assert(before[x].0 != before[y].0);
                }
                assert forall|x: int, y: int| 0 <= x < y < r@.len() implies first_use(nbs, r@[x].0) < first_use(nbs, r@[y].0) by {
                    assert(r@[x].0 == before[x].0 && r@[y].0 == before[y].0);
                    assert(has_entry(before, before[x].0));
                    assert(has_entry(before, before[y].0));
                    assert(first_use(bs@, before[x].0) < first_use(bs@, before[y].0));
                }
                assert forall|k: DescriptorKind| has_entry(r@, k) <==> uses_kind(nbs, k) by {
                    if has_entry(r@, k) {
                        let x = choose|x: int| 0 <= x < r@.len() && r@[x].0 == k;
                        assert(before[x].0 == k);
                        assert(has_entry(before, k));
                    }
                    if has_entry(before, k) {
                        let x = choose|x: int| 0 <= x < before.len() && before[x].0 == k;
                        assert(r@[x].0 == k);
                    }
                }
            }
            return;
        }
        i = i + 1;
    }
    let ghost before = r@;
    r.push((b.kind, b.count));
    proof {
        assert(!has_entry(before, b.kind));
        assert(!uses_kind(bs@, b.kind));
        lemma_kind_total_absent(bs@, b.kind);
        assert(kind_total(nbs, b.kind) == b.count);
        assert forall|j: int| 0 <= j < r@.len() implies (#[trigger] r@[j]).1 == saturate(kind_total(nbs, r@[j].0)) by {
            if j < before.len() {
                assert(r@[j] == before[j]);
            }
        }
        assert forall|x: int, y: int| 0 <= x < y < r@.len() implies first_use(nbs, r@[x].0) < first_use(nbs, r@[y].0) by {
            assert(r@[x] == before[x]);
            assert(has_entry(before, before[x].0));
            if y < before.len() {
                assert(r@[y] == before[y]);
                assert(has_entry(before, before[y].0));
            } else {
                assert(r@[y].0 == b.kind);
            }
        }
        assert forall|k: DescriptorKind| has_entry(r@, k) <==> uses_kind(nbs, k) by {
            if has_entry(r@, k) {
                let x = choose|x: int| 0 <= x < r@.len() && r@[x].0 == k;
                if x < before.len() {
                    assert(before[x].0 == k);
                    assert(has_entry(before, k));
                }
            }
            if has_entry(before, k) {
                let x = choose|x: int| 0 <= x < before.len() && before[x].0 == k;
                assert(r@[x].0 == k);
            }
            if k == b.kind {
                assert(r@[before.len() as int].0 == k);
            }
        }
    }
}

proof fn lemma_kind_total_absent(bs: Seq<BindingLayout>, k: DescriptorKind)
    requires
        !uses_kind(bs, k),
    ensures
        kind_total(bs, k) == 0,
    decreases bs.len(),
{
    if bs.len() > 0 {
        assert(!uses_kind(bs.drop_last(), k)) by {
            if uses_kind(bs.drop_last(), k) {
                let j = choose|j: int| 0 <= j < bs.drop_last().len() && bs.drop_last()[j].kind == k;
                assert(bs[j].kind == k);
            }
        }
        lemma_kind_total_absent(bs.drop_last(), k);
        assert(bs[bs.len() - 1].kind != k);
    }
}

/// The pool sizes that the descriptor sets of `layouts` need: one entry per
/// descriptor kind used, in order of first use, with the summed count
/// (saturated to 32 bits).
pub fn descriptor_pool_sizes(layouts: &Vec<SetLayout>) -> (r: Vec<(DescriptorKind, u32)>)
    ensures
        pool_sizes_ok(all_bindings(layouts@), r@),
{
    let mut r: Vec<(DescriptorKind, u32)> = Vec::new();
    let mut s: usize = 0;
    assert(all_bindings(layouts@.take(0)) =~= Seq::<BindingLayout>::empty());
    while s < layouts.len()
        invariant
            s <= layouts@.len(),
            pool_sizes_ok(all_bindings(layouts@.take(s as int)), r@),
        decreases layouts@.len() - s,
    {
        let set = &layouts[s];
        let ghost base = all_bindings(layouts@.take(s as int));
        let mut j: usize = 0;
        assert(base + set.bindings@.take(0) =~= base);
        while j < set.bindings.len()
            invariant
                j <= set.bindings@.len(),
                pool_sizes_ok(base + set.bindings@.take(j as int), r@),
            decreases set.bindings@.len() - j,
        {
            assert(base + set.bindings@.take(j + 1) =~= (base + set.bindings@.take(j as int)).push(set.bindings@[j as int]));
            add_binding(&mut r, set.bindings[j], Ghost(base + set.bindings@.take(j as int)));
            j = j + 1;
        }
        assert(layouts@.take(s + 1).drop_last() =~= layouts@.take(s as int));
        assert(set.bindings@.take(j as int) =~= set.bindings@);
        s = s + 1;
    }
    assert(layouts@.take(s as int) =~= layouts@);
    r
}

} // verus!
