use vstd::prelude::*;
use crate::layout::DescriptorKind;
use crate::resource::Image;

verus! {

/// The image layout that sampled textures are read in.
pub const LAYOUT_SHADER_READ_ONLY_OPTIMAL: i32 = 5;

/// What a descriptor write points a texture slot at.
#[derive(Clone, Copy, Debug, PartialEq, Eq, Structural)]
pub struct ImageInfo {
    pub view: u64,
    pub sampler: u64,
    pub layout: i32,
}

/// One descriptor write of the bindless texture array.
#[derive(Clone, Copy, Debug, PartialEq, Eq, Structural)]
pub struct TextureWrite {
    pub dst_set: u64,
    pub dst_binding: u32,
    pub dst_array_element: u32,
    pub kind: DescriptorKind,
    pub info: ImageInfo,
}

/// A resident texture: its key, its image, and the image info of its most
/// recent descriptor write.
pub struct ResidentTexture {
    pub key: u64,
    pub image: Image,
    pub info: Option<ImageInfo>,
}

/// All resident textures, kept in ascending key order; a texture's slot in
/// the bindless array is its position in that order.
pub struct GlobalDescriptorSet {
    entries: Vec<ResidentTexture>,
    changed: bool,
}

impl GlobalDescriptorSet {
    /// The keys of the resident textures, in slot order.
    pub closed spec fn keys(&self) -> Seq<u64> {
        self.entries@.map_values(|e: ResidentTexture| e.key)
    }

    /// Whether residency changed since the last descriptor update.
    pub closed spec fn is_changed(&self) -> bool {
        self.changed
    }

    /// The view of the texture in slot `i`.
    pub closed spec fn view_at(&self, i: int) -> Option<u64> {
        self.entries@[i].image.view
    }

    /// The image of the texture in slot `i`.
    pub closed spec fn image_at(&self, i: int) -> Image {
        self.entries@[i].image
    }

    /// The cached image info of the texture in slot `i`.
    pub closed spec fn info_at(&self, i: int) -> Option<ImageInfo> {
        self.entries@[i].info
    }

    /// Keys strictly ascend, every texture has a view, and slots fit in 32 bits.
    pub closed spec fn wf(&self) -> bool {
        &&& self.entries@.len() < u32::MAX
        &&& forall|i: int, j: int|
            0 <= i < j < self.entries@.len() ==> self.entries@[i].key < self.entries@[j].key
        &&& forall|i: int| 0 <= i < self.entries@.len() ==> (#[trigger] self.entries@[i]).image.view is Some
    }

    pub fn new() -> (r: GlobalDescriptorSet)
        ensures
            r.wf(),
            r.keys() == Seq::<u64>::empty(),
            !r.is_changed(),
    {
        GlobalDescriptorSet { entries: Vec::new(), changed: false }
    }

    /// Whether the descriptor set must be rewritten: residency changed since
    /// the last update.
    pub fn needs_update(&self) -> (r: bool)
        ensures
            r == self.is_changed(),
    {
        self.changed
    }

    pub fn len(&self) -> (r: usize)
        ensures
            r == self.keys().len(),
    {
        self.entries.len()
    }

    /// Makes `image` resident under `key`. A texture already resident under
    /// `key` is replaced and handed back for destruction.
    pub fn insert_texture(&mut self, key: u64, image: Image) -> (r: Option<Image>)
        requires
            old(self).wf(),
            old(self).keys().len() + 1 < u32::MAX,
            image.view is Some,
        ensures
            final(self).wf(),
            final(self).is_changed(),
            forall|i: int| 0 <= i < final(self).keys().len() ==> (#[trigger] final(self).view_at(i)) is Some,
            final(self).keys().to_set() == old(self).keys().to_set().insert(key),
            r is Some <==> old(self).keys().contains(key),
            forall|i: int|
                0 <= i < old(self).keys().len() && old(self).keys()[i] == key ==> r == Some(old(self).image_at(i)),
            forall|i: int|
                0 <= i < final(self).keys().len() && final(self).keys()[i] == key ==> final(self).view_at(i)
                    == image.view && final(self).info_at(i) is None,
            forall|i: int, j: int|
                0 <= i < old(self).keys().len() && 0 <= j < final(self).keys().len() && old(self).keys()[i]
                    == final(self).keys()[j] && old(self).keys()[i] != key ==> final(self).view_at(j)
                    == old(self).view_at(i) && final(self).info_at(j) == old(self).info_at(i),
    {
        let mut i: usize = 0;
        while i < self.entries.len() && self.entries[i].key < key
            invariant
                self.wf(),
                *self == *old(self),
                i <= self.entries@.len(),
                forall|j: int| 0 <= j < i ==> self.entries@[j].key < key,
            decreases self.entries@.len() - i,
        {
            i = i + 1;
        }
        proof {
            assert forall|j: int| 0 <= j < self.keys().len() implies self.keys()[j] == self.entries@[j].key by {}
        }
        self.changed = true;
        if i < self.entries.len() && self.entries[i].key == key {
            let fresh = ResidentTexture { key, image, info: None };
            let old_entry = self.entries.remove(i);
            self.entries.insert(i, fresh);
            proof {
                assert(self.entries@ =~= old(self).entries@.update(i as int, ResidentTexture { key, image, info: None }));
                assert(old(self).keys()[i as int] == key);
                assert(self.keys() =~= old(self).keys());
                assert(self.keys().to_set() =~= old(self).keys().to_set().insert(key));
                assert forall|a: int, b: int|
                    0 <= a < old(self).keys().len() && 0 <= b < self.keys().len() && old(self).keys()[a]
                        == self.keys()[b] && old(self).keys()[a] != key implies self.view_at(b)
                        == old(self).view_at(a) && self.info_at(b) == old(self).info_at(a) by {
                    assert(old(self).entries@[a].key == old(self).entries@[b].key);
                    if a < b {
                        assert(old(self).entries@[a].key < old(self).entries@[b].key);
                    } else if b < a {
                        assert(old(self).entries@[b].key < old(self).entries@[a].key);
                    }
                }
            }
            Some(old_entry.image)
        } else {
            self.entries.insert(i, ResidentTexture { key, image, info: None });
            proof {
                assert(self.keys() =~= old(self).keys().insert(i as int, key));
                assert forall|a: int, b: int|
                    0 <= a < old(self).keys().len() && 0 <= b < self.keys().len() && old(self).keys()[a]
                        == self.keys()[b] && old(self).keys()[a] != key implies self.view_at(b)
                        == old(self).view_at(a) && self.info_at(b) == old(self).info_at(a) by {
                    let ii = i as int;
                    let c = if b < ii { b } else { b - 1 };
                    assert(b != ii);
                    assert(self.entries@[b] == old(self).entries@[c]);
                    assert(old(self).entries@[a].key == old(self).entries@[c].key);
                    if a < c {
                        assert(old(self).entries@[a].key < old(self).entries@[c].key);
                    } else if c < a {
                        assert(old(self).entries@[c].key < old(self).entries@[a].key);
                    }
                }
                assert forall|j: int| 0 <= j < old(self).keys().len() implies old(self).keys()[j] != key by {
                    if j >= i {
                        assert(old(self).entries@[j].key >= old(self).entries@[i as int].key);
                    }
                }
                assert(self.keys().to_set() =~= old(self).keys().to_set().insert(key)) by {
                    assert forall|k: u64| self.keys().contains(k) implies old(self).keys().to_set().insert(key).contains(k) by {
                        let j = choose|j: int| 0 <= j < self.keys().len() && self.keys()[j] == k;
                        if j < i {
                            assert(old(self).keys()[j] == k);
                        } else if j > i {
                            assert(old(self).keys()[j - 1] == k);
                        }
                    }
                    assert forall|k: u64| old(self).keys().to_set().insert(key).contains(k) implies self.keys().contains(k) by {
                        if k == key {
                            assert(self.keys()[i as int] == key);
                        } else {
                            let j = choose|j: int| 0 <= j < old(self).keys().len() && old(self).keys()[j] == k;
                            if j < i {
                                assert(self.keys()[j] == k);
                            } else {
                                assert(self.keys()[j + 1] == k);
                            }
                        }
                    }
                }
            }
            None
        }
    }

    /// The slot of `key`: its position in ascending key order.
    pub fn get_texture_index(&self, key: u64) -> (r: Option<usize>)
        requires
            self.wf(),
        ensures
            r is None <==> !self.keys().contains(key),
            r matches Some(i) ==> i < self.keys().len() && self.keys()[i as int] == key,
    {
        let mut i: usize = 0;
        while i < self.entries.len()
            invariant
                i <= self.entries@.len(),
                forall|j: int| 0 <= j < i ==> self.entries@[j].key != key,
            decreases self.entries@.len() - i,
        {
            if self.entries[i].key == key {
                assert(self.keys()[i as int] == key);
                return Some(i);
            }
            i = i + 1;
        }
        proof {
            assert forall|j: int| 0 <= j < self.keys().len() implies self.keys()[j] != key by {}
        }
        None
    }

    /// Builds the image info of every resident texture that has none yet,
    /// then returns one write per resident texture, at binding 0 and array
    /// element equal to its slot.
    pub fn update_descriptor_set(&mut self, set: u64, default_sampler: u64) -> (r: Vec<TextureWrite>)
        requires
            old(self).wf(),
        ensures
            final(self).wf(),
            !final(self).is_changed(),
            final(self).keys() == old(self).keys(),
            r@.len() == old(self).keys().len(),
            forall|i: int| 0 <= i < final(self).keys().len() ==> (#[trigger] final(self).view_at(i)) is Some,
            forall|i: int|
                0 <= i < r@.len() ==> {
                    &&& final(self).view_at(i) == old(self).view_at(i)
                    &&& final(self).info_at(i) == Some(
                        match old(self).info_at(i) {
                            Some(info) => info,
                            None => ImageInfo {
                                view: old(self).view_at(i)->Some_0,
                                sampler: default_sampler,
                                layout: LAYOUT_SHADER_READ_ONLY_OPTIMAL,
                            },
                        },
                    )
                    &&& (#[trigger] r@[i]) == TextureWrite {
                        dst_set: set,
                        dst_binding: 0,
                        dst_array_element: i as u32,
                        kind: DescriptorKind::CombinedImageSampler,
                        info: final(self).info_at(i)->Some_0,
                    }
                },
    {
        let mut writes: Vec<TextureWrite> = Vec::new();
        let mut i: usize = 0;
        while i < self.entries.len()
            invariant
                self.wf(),
                self.entries@.len() == old(self).entries@.len(),
                i <= self.entries@.len(),
                writes@.len() == i,
                forall|j: int| 0 <= j < self.entries@.len() ==> (#[trigger] self.entries@[j]).key == old(self).entries@[j].key
                    && self.entries@[j].image.view == old(self).entries@[j].image.view,
                forall|j: int| i <= j < self.entries@.len() ==> (#[trigger] self.entries@[j]).info == old(self).entries@[j].info,
                forall|j: int|
                    0 <= j < i ==> {
                        &&& (#[trigger] self.entries@[j]).info == Some(
                            match old(self).entries@[j].info {
                                Some(info) => info,
                                None => ImageInfo {
                                    view: old(self).entries@[j].image.view->Some_0,
                                    sampler: default_sampler,
                                    layout: LAYOUT_SHADER_READ_ONLY_OPTIMAL,
                                },
                            },
                        )
                        &&& writes@[j] == TextureWrite {
                            dst_set: set,
                            dst_binding: 0,
                            dst_array_element: j as u32,
                            kind: DescriptorKind::CombinedImageSampler,
                            info: self.entries@[j].info->Some_0,
                        }
                    },
            decreases self.entries@.len() - i,
        {
            let info = match self.entries[i].info {
                Some(info) => info,
                None => {
                    let view = match self.entries[i].image.view {
                        Some(v) => v,
                        None => 0,
                    };
                    ImageInfo { view, sampler: default_sampler, layout: LAYOUT_SHADER_READ_ONLY_OPTIMAL }
                },
            };
            let ghost before = self.entries@;
            self.entries[i].info = Some(info);
            assert(self.entries@ =~= before.update(i as int, ResidentTexture { key: before[i as int].key, image: before[i as int].image, info: Some(info) }));
            writes.push(
                TextureWrite {
                    dst_set: set,
                    dst_binding: 0,
                    dst_array_element: i as u32,
                    kind: DescriptorKind::CombinedImageSampler,
                    info,
                },
            );
            i = i + 1;
        }
        self.changed = false;
        proof {
            assert(self.keys() =~= old(self).keys());
        }
        writes
    }
}

/// In a well-formed set, slots follow ascending key order: the slot of the
/// smaller of two resident keys comes first, so distinct keys get distinct
/// slots.
pub proof fn lemma_slots_follow_key_order(g: &GlobalDescriptorSet, i: int, j: int)
    requires
        g.wf(),
        0 <= i < g.keys().len(),
        0 <= j < g.keys().len(),
    ensures
        g.keys()[i] < g.keys()[j] <==> i < j,
        g.keys()[i] == g.keys()[j] <==> i == j,
{
    assert(g.keys()[i] == g.entries@[i].key);
    assert(g.keys()[j] == g.entries@[j].key);
}

} // verus!
