use vstd::prelude::*;
use crate::global_descriptors::{GlobalDescriptorSet, TextureWrite};
use crate::layout::DescriptorKind;

verus! {

/// How many draw items one recording task handles.
pub const DRAW_CHUNK_SIZE: usize = 50;

/// `n / c` rounded up.
pub open spec fn ceil_div(n: int, c: int) -> int {
    (n + c - 1) / c
}

proof fn lemma_ceil_div(n: int, c: int, k: int)
    requires
        c > 0,
        k >= 0,
        (k - 1) * c < n <= k * c,
    ensures
        ceil_div(n, c) == k,
{
    assert((n + c - 1) / c == k) by (nonlinear_arith)
        requires
            c > 0,
            k >= 0,
            (k - 1) * c < n <= k * c,
    ;
}

/// Splits `item_count` draw items into consecutive chunks of `chunk_size`,
/// the last one possibly shorter; each chunk is a half-open index range.
pub fn chunk_ranges(item_count: usize, chunk_size: usize) -> (r: Vec<(usize, usize)>)
    requires
        chunk_size > 0,
    ensures
        r@.len() == ceil_div(item_count as int, chunk_size as int),
        forall|k: int|
            0 <= k < r@.len() ==> {
                &&& (#[trigger] r@[k]).0 == k * chunk_size
                &&& r@[k].1 == if (k + 1) * chunk_size < item_count {
                    (k + 1) * chunk_size
                } else {
                    item_count as int
                }
                &&& r@[k].0 < r@[k].1
            },
{
    let mut r: Vec<(usize, usize)> = Vec::new();
    let mut start: usize = 0;
    assert(r@.len() * chunk_size == 0) by (nonlinear_arith)
        requires
            r@.len() == 0,
    ;
    while start < item_count
        invariant
            chunk_size > 0,
            start <= item_count,
            start < item_count ==> start == r@.len() * chunk_size,
            start == item_count && r@.len() > 0 ==> (r@.len() - 1) * chunk_size < item_count <= r@.len() * chunk_size,
            r@.len() == 0 ==> start == 0,
            forall|k: int|
                0 <= k < r@.len() ==> {
                    &&& (#[trigger] r@[k]).0 == k * chunk_size
                    &&& r@[k].1 == if (k + 1) * chunk_size < item_count {
                        (k + 1) * chunk_size
                    } else {
                        item_count as int
                    }
                    &&& r@[k].0 < r@[k].1
                },
        decreases item_count - start,
    {
        let ghost k = r@.len() as int;
        let end: usize = if item_count - start > chunk_size {
            start + chunk_size
        } else {
            item_count
        };
        assert((k + 1) * chunk_size == k * chunk_size + chunk_size) by (nonlinear_arith);
        r.push((start, end));
        start = end;
    }
    if r.len() > 0 {
        proof {
            lemma_ceil_div(item_count as int, chunk_size as int, r@.len() as int);
        }
    } else {
        assert(ceil_div(0, chunk_size as int) == 0) by (nonlinear_arith)
            requires
                chunk_size > 0,
        ;
    }
    r
}

/// The secondary-buffer slot that records chunk `k` when `slots` buffers exist.
pub open spec fn slot_of_chunk(k: int, slots: int) -> int {
    k % slots
}

/// The elements of `s` in order of first occurrence, each once.
pub open spec fn first_occurrences(s: Seq<usize>) -> Seq<usize>
    decreases s.len(),
{
    if s.len() == 0 {
        Seq::empty()
    } else {
        let d = first_occurrences(s.drop_last());
        if d.contains(s.last()) {
            d
        } else {
            d.push(s.last())
        }
    }
}

proof fn lemma_first_occurrences(s: Seq<usize>)
    ensures
        first_occurrences(s).no_duplicates(),
        forall|x: usize| first_occurrences(s).contains(x) <==> s.contains(x),
    decreases s.len(),
{
    if s.len() > 0 {
        let p = s.drop_last();
        let d = first_occurrences(p);
        let l = s.last();
        lemma_first_occurrences(p);
        assert forall|x: usize| first_occurrences(s).contains(x) <==> s.contains(x) by {
            if s.contains(x) {
                let i = choose|i: int| 0 <= i < s.len() && s[i] == x;
                if i < s.len() - 1 {
                    assert(p[i] == x);
                    assert(p.contains(x));
                    let k = choose|k: int| 0 <= k < d.len() && d[k] == x;
                    if !d.contains(l) {
                        assert(d.push(l)[k] == x);
                    }
                } else if !d.contains(l) {
                    assert(d.push(l)[d.len() as int] == x);
                }
            }
            if first_occurrences(s).contains(x) {
                if d.contains(x) {
                    assert(p.contains(x));
                    let i = choose|i: int| 0 <= i < p.len() && p[i] == x;
                    assert(s[i] == x);
                } else {
                    let k = choose|k: int| 0 <= k < d.push(l).len() && d.push(l)[k] == x;
                    assert(x == l);
                    assert(s[s.len() - 1] == x);
                }
            }
        }
        if !d.contains(l) {
            assert forall|i: int, j: int| 0 <= i < j < d.push(l).len() implies d.push(l)[i] != d.push(l)[j] by {
                if j == d.len() {
                    assert(d[i] == d.push(l)[i]);
                }
            }
        }
    }
}

/// The distinct slots that reported completion, in the order the completion
/// queue was drained.
pub fn touched_slots(completions: &Vec<usize>) -> (r: Vec<usize>)
    ensures
        r@ == first_occurrences(completions@),
        r@.no_duplicates(),
        forall|x: usize| r@.contains(x) <==> completions@.contains(x),
{
    let mut r: Vec<usize> = Vec::new();
    let mut i: usize = 0;
    while i < completions.len()
        invariant
            i <= completions@.len(),
            r@ == first_occurrences(completions@.take(i as int)),
        decreases completions@.len() - i,
    {
        assert(completions@.take(i + 1).drop_last() =~= completions@.take(i as int));
        let x = completions[i];
        let mut seen = false;
        let mut j: usize = 0;
        while j < r.len()
            invariant
                j <= r@.len(),
                seen <==> r@.take(j as int).contains(x),
            decreases r@.len() - j,
        {
            let ghost t = r@.take(j as int);
            assert(r@.take(j + 1) =~= t.push(r@[j as int]));
            assert(t.push(r@[j as int])[j as int] == r@[j as int]);
            assert forall|y: usize| t.contains(y) implies t.push(r@[j as int]).contains(y) by {
                let q = choose|q: int| 0 <= q < t.len() && t[q] == y;
                assert(t.push(r@[j as int])[q] == y);
            }
            assert forall|y: usize| t.push(r@[j as int]).contains(y) && y != r@[j as int] implies t.contains(y) by {
                let q = choose|q: int| 0 <= q < t.len() + 1 && t.push(r@[j as int])[q] == y;
                assert(q < t.len());
                assert(t[q] == y);
            }
            if r[j] == x {
                seen = true;
            }
            j = j + 1;
        }
        assert(r@.take(j as int) =~= r@);
        if !seen {
            r.push(x);
        }
        i = i + 1;
    }
    assert(completions@.take(i as int) =~= completions@);
    proof {
        lemma_first_occurrences(completions@);
    }
    r
}

/// The secondary command buffers that the primary buffer executes: the
/// buffer of each touched slot, in the order given. `None` when a slot has
/// no buffer.
pub fn secondary_buffers_to_execute(buffers: &Vec<u64>, touched: &Vec<usize>) -> (r: Option<Vec<u64>>)
    ensures
        r is Some <==> forall|k: int| 0 <= k < touched@.len() ==> touched@[k] < buffers@.len(),
        r matches Some(v) ==> v@.len() == touched@.len() && forall|k: int|
            0 <= k < v@.len() ==> v@[k] == buffers@[touched@[k] as int],
{
    let mut r: Vec<u64> = Vec::new();
    let mut k: usize = 0;
    while k < touched.len()
        invariant
            k <= touched@.len(),
            r@.len() == k,
            forall|j: int| 0 <= j < k ==> #[trigger] touched@[j] < buffers@.len(),
            forall|j: int| 0 <= j < k ==> #[trigger] r@[j] == buffers@[touched@[j] as int],
        decreases touched@.len() - k,
    {
        if touched[k] >= buffers.len() {
            assert(!(touched@[k as int] < buffers@.len()));
            return None;
        }
        let b = buffers[touched[k]];
        let ghost before = r@;
        r.push(b);
        assert forall|j: int| 0 <= j < k + 1 implies #[trigger] r@[j] == buffers@[touched@[j] as int] by {
            if j < k {
                assert(r@[j] == before[j]);
            }
        }
        k = k + 1;
    }
    Some(r)
}

/// How many slots record in a frame of `chunk_count` chunks.
pub fn slots_in_use(chunk_count: usize, slots: usize) -> (r: usize)
    ensures
        r == if chunk_count < slots { chunk_count } else { slots },
{
    if chunk_count < slots {
        chunk_count
    } else {
        slots
    }
}

/// The indices of the chunks that `slot` records, in order: `slot`,
/// `slot + slots`, ... below `chunk_count`.
pub fn chunks_for_slot(chunk_count: usize, slots: usize, slot: usize) -> (r: Vec<usize>)
    requires
        slot < slots,
    ensures
        forall|j: int| 0 <= j < r@.len() ==> r@[j] == slot + j * slots && r@[j] < chunk_count,
        slot + r@.len() * slots >= chunk_count,
{
    let mut r: Vec<usize> = Vec::new();
    let mut k: usize = slot;
    assert(slot + r@.len() * slots == slot) by (nonlinear_arith)
        requires
            r@.len() == 0,
    ;
    while k < chunk_count
        invariant
            slot < slots,
            k < chunk_count ==> k == slot + r@.len() * slots,
            k >= chunk_count ==> slot + r@.len() * slots >= chunk_count,
            forall|j: int| 0 <= j < r@.len() ==> r@[j] == slot + j * slots && r@[j] < chunk_count,
        decreases chunk_count - k,
    {
        let ghost len = r@.len();
        r.push(k);
        assert(slot + (len + 1) * slots == slot + len * slots + slots) by (nonlinear_arith);
        if chunk_count - k <= slots {
            k = chunk_count;
        } else {
            k = k + slots;
        }
    }
    r
}

proof fn lemma_first_occurrences_distinct(s: Seq<usize>)
    requires
        s.no_duplicates(),
    ensures
        first_occurrences(s) == s,
    decreases s.len(),
{
    if s.len() > 0 {
        let p = s.drop_last();
        assert(p.no_duplicates()) by {
            assert forall|i: int, j: int| 0 <= i < j < p.len() implies p[i] != p[j] by {
                assert(p[i] == s[i] && p[j] == s[j]);
            }
        }
        lemma_first_occurrences_distinct(p);
        assert(!p.contains(s.last())) by {
            if p.contains(s.last()) {
                let i = choose|i: int| 0 <= i < p.len() && p[i] == s.last();
                assert(s[i] == s[s.len() - 1]);
            }
        }
        assert(p.push(s.last()) =~= s);
    }
}

/// A frame of `item_count` draws in chunks of `chunk_size`, with at least as
/// many slots as chunks: each slot in use records exactly one chunk, and when
/// every slot in use reports completion once, the primary buffer executes
/// exactly one secondary buffer per chunk, each once.
pub proof fn lemma_frame_executes_one_buffer_per_chunk(
    item_count: nat,
    chunk_size: nat,
    slots: nat,
    completions: Seq<usize>,
)
    requires
        chunk_size > 0,
        ceil_div(item_count as int, chunk_size as int) <= slots,
        completions.no_duplicates(),
        completions.len() == ceil_div(item_count as int, chunk_size as int),
        forall|i: int| 0 <= i < completions.len() ==> completions[i] < ceil_div(item_count as int, chunk_size as int),
    ensures
        first_occurrences(completions) == completions,
        first_occurrences(completions).len() == ceil_div(item_count as int, chunk_size as int),
        forall|k: int|
            0 <= k < ceil_div(item_count as int, chunk_size as int) ==> #[trigger] slot_of_chunk(k, slots as int) == k,
{
    lemma_first_occurrences_distinct(completions);
    assert forall|k: int| 0 <= k < ceil_div(item_count as int, chunk_size as int) implies #[trigger] slot_of_chunk(k, slots as int) == k by {
        vstd::arithmetic::div_mod::lemma_small_mod(k as nat, slots);
    }
}

/// The node that draws the frame's draw list and presents it. Handles are raw
/// values of the graphics API's handles; set 0 holds the bindless textures.
pub struct PresentNode {
    pub descriptor_sets: Vec<u64>,
    pub pipeline_layout: u64,
}

impl PresentNode {
    pub fn new(descriptor_sets: Vec<u64>, pipeline_layout: u64) -> (r: PresentNode)
        ensures
            r.descriptor_sets == descriptor_sets,
            r.pipeline_layout == pipeline_layout,
    {
        PresentNode { descriptor_sets, pipeline_layout }
    }

    /// The texture writes to issue before drawing: one per resident texture
    /// into the node's first set when residency changed, none otherwise.
    pub fn update(&self, global: &mut GlobalDescriptorSet, default_sampler: u64) -> (r: Vec<TextureWrite>)
        requires
            old(global).wf(),
            self.descriptor_sets@.len() > 0,
        ensures
            final(global).wf(),
            !final(global).is_changed(),
            final(global).keys() == old(global).keys(),
            !old(global).is_changed() ==> r@.len() == 0,
            old(global).is_changed() ==> r@.len() == old(global).keys().len() && forall|i: int|
                0 <= i < r@.len() ==> {
                    &&& (#[trigger] r@[i]).dst_set == self.descriptor_sets@[0]
                    &&& r@[i].dst_binding == 0
                    &&& r@[i].dst_array_element == i as u32
                    &&& r@[i].kind == DescriptorKind::CombinedImageSampler
                    &&& final(global).info_at(i) == Some(r@[i].info)
                },
    {
        if global.needs_update() {
            global.update_descriptor_set(self.descriptor_sets[0], default_sampler)
        } else {
            Vec::new()
        }
    }
}

} // verus!
