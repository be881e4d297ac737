use vstd::prelude::*;
use vstd::string::StrSliceExecFns;

verus! {

/// Texel filter of a sampler.
#[derive(Clone, Copy, Debug, PartialEq, Eq, Structural, Hash)]
pub enum Filter {
    Nearest,
    Linear,
}

/// How a sampler blends between mip levels.
#[derive(Clone, Copy, Debug, PartialEq, Eq, Structural, Hash)]
pub enum MipmapMode {
    Nearest,
    Linear,
}

/// How a sampler treats coordinates outside `[0, 1]`.
#[derive(Clone, Copy, Debug, PartialEq, Eq, Structural, Hash)]
pub enum AddressMode {
    Repeat,
    MirroredRepeat,
    ClampToEdge,
    ClampToBorder,
}

/// The three parameters that select an immutable sampler.
#[derive(Clone, Copy, Debug, PartialEq, Eq, Structural, Hash)]
pub struct SamplerDesc {
    pub texel_filter: Filter,
    pub mipmap_mode: MipmapMode,
    pub address_modes: AddressMode,
}

/// The fixed prefix of a sampler binding name.
pub open spec fn sampler_prefix() -> Seq<char> {
    seq!['s', 'a', 'm', 'p', 'l', 'e', 'r', '_']
}

pub open spec fn filter_token(c: char) -> Option<Filter> {
    if c == 'n' {
        Some(Filter::Nearest)
    } else if c == 'l' {
        Some(Filter::Linear)
    } else {
        None
    }
}

pub open spec fn mipmap_token(c: char) -> Option<MipmapMode> {
    if c == 'n' {
        Some(MipmapMode::Nearest)
    } else if c == 'l' {
        Some(MipmapMode::Linear)
    } else {
        None
    }
}

pub open spec fn address_token(t: Seq<char>) -> Option<AddressMode> {
    if t == seq!['r'] {
        Some(AddressMode::Repeat)
    } else if t == seq!['m', 'r'] {
        Some(AddressMode::MirroredRepeat)
    } else if t == seq!['c'] {
        Some(AddressMode::ClampToEdge)
    } else if t == seq!['c', 'b'] {
        Some(AddressMode::ClampToBorder)
    } else {
        None
    }
}

/// The sampler that a binding name encodes: the prefix, then one filter
/// token, one mipmap token, and an address-mode token that ends the name.
pub open spec fn sampler_desc_of(name: Seq<char>) -> Option<SamplerDesc> {
    let p: int = sampler_prefix().len() as int;
    if name.len() >= p + 2 && name.take(p) == sampler_prefix() {
        match (
            filter_token(name[p]),
            mipmap_token(name[p + 1]),
            address_token(name.skip(p + 2)),
        ) {
            (Some(f), Some(m), Some(a)) => Some(
                SamplerDesc { texel_filter: f, mipmap_mode: m, address_modes: a },
            ),
            _ => None,
        }
    } else {
        None
    }
}

fn parse_filter(c: char) -> (r: Option<Filter>)
    ensures
        r == filter_token(c),
{
    if c == 'n' {
        Some(Filter::Nearest)
    } else if c == 'l' {
        Some(Filter::Linear)
    } else {
        None
    }
}

fn parse_mipmap(c: char) -> (r: Option<MipmapMode>)
    ensures
        r == mipmap_token(c),
{
    if c == 'n' {
        Some(MipmapMode::Nearest)
    } else if c == 'l' {
        Some(MipmapMode::Linear)
    } else {
        None
    }
}

/// Reads the address-mode token held by `name[start..]`.
fn parse_address(name: &str, start: usize) -> (r: Option<AddressMode>)
    requires
        start <= name@.len(),
    ensures
        r == address_token(name@.skip(start as int)),
{
    let n = name.unicode_len();
    let k = n - start;
    let t = Ghost(name@.skip(start as int));
    let ghost r1 = seq!['r'];
    let ghost c1 = seq!['c'];
    let ghost mr = seq!['m', 'r'];
    let ghost cb = seq!['c', 'b'];
    assert(r1[0] == 'r' && c1[0] == 'c' && mr[0] == 'm' && mr[1] == 'r' && cb[0] == 'c' && cb[1] == 'b');
    if k == 1 {
        let c = name.get_char(start);
        assert(t@.len() == 1 && t@[0] == c);
        if c == 'r' {
            assert(t@ =~= r1);
            Some(AddressMode::Repeat)
        } else if c == 'c' {
            assert(t@ =~= c1);
            Some(AddressMode::ClampToEdge)
        } else {
            None
        }
    } else if k == 2 {
        let c0 = name.get_char(start);
        let c1 = name.get_char(start + 1);
        assert(t@.len() == 2 && t@[0] == c0 && t@[1] == c1);
        if c0 == 'm' && c1 == 'r' {
            assert(t@ =~= mr);
            Some(AddressMode::MirroredRepeat)
        } else if c0 == 'c' && c1 == 'b' {
            assert(t@ =~= cb);
            Some(AddressMode::ClampToBorder)
        } else {
            None
        }
    } else {
        assert(t@.len() != 1 && t@.len() != 2);
        None
    }
}

/// Decodes the sampler that a binding name selects; `None` when the name
/// does not follow the encoding.
pub fn parse_sampler_name(name: &str) -> (r: Option<SamplerDesc>)
    ensures
        r == sampler_desc_of(name@),
{
    let prefix: [char; 8] = ['s', 'a', 'm', 'p', 'l', 'e', 'r', '_'];
    assert(prefix@ =~= sampler_prefix());
    let n = name.unicode_len();
    if n < 10 {
        return None;
    }
    let mut i: usize = 0;
    while i < 8
        invariant
            i <= 8,
            n == name@.len(),
            n >= 10,
            prefix@ == sampler_prefix(),
            forall|j: int| 0 <= j < i ==> name@[j] == sampler_prefix()[j],
        decreases 8 - i,
    {
        let c = name.get_char(i);
        if c != prefix[i] {
            assert(name@.take(8)[i as int] != sampler_prefix()[i as int]);
            return None;
        }
        i = i + 1;
    }
    assert(name@.take(8) =~= sampler_prefix());
    let f = parse_filter(name.get_char(8));
    let m = parse_mipmap(name.get_char(9));
    let a = parse_address(name, 10);
    match (f, m, a) {
        (Some(f), Some(m), Some(a)) => Some(
            SamplerDesc { texel_filter: f, mipmap_mode: m, address_modes: a },
        ),
        _ => None,
    }
}

/// The sampler that the last entry for `d` in `entries` names.
pub open spec fn lookup_sampler(entries: Seq<(SamplerDesc, u64)>, d: SamplerDesc) -> Option<u64>
    decreases entries.len(),
{
    if entries.len() == 0 {
        None
    } else if entries.last().0 == d {
        Some(entries.last().1)
    } else {
        lookup_sampler(entries.drop_last(), d)
    }
}

/// The combinations that a device context creates once at start-up: both
/// filters, both mipmap modes, and the repeat and clamp-to-edge address modes.
pub open spec fn is_standard_desc(d: SamplerDesc) -> bool {
    d.address_modes == AddressMode::Repeat || d.address_modes == AddressMode::ClampToEdge
}

/// The sampler used for textures of the bindless set.
pub open spec fn default_desc() -> SamplerDesc {
    SamplerDesc {
        texel_filter: Filter::Linear,
        mipmap_mode: MipmapMode::Linear,
        address_modes: AddressMode::Repeat,
    }
}

/// Immutable samplers keyed by their parameters; the handles are raw device
/// handles.
pub struct SamplerCache {
    entries: Vec<(SamplerDesc, u64)>,
}

impl View for SamplerCache {
    type V = Seq<(SamplerDesc, u64)>;

    closed spec fn view(&self) -> Seq<(SamplerDesc, u64)> {
        self.entries@
    }
}

impl SamplerCache {
    pub fn new() -> (r: SamplerCache)
        ensures
            r@ == Seq::<(SamplerDesc, u64)>::empty(),
    {
        SamplerCache { entries: Vec::new() }
    }

    /// Records `sampler` as the handle for `desc`, replacing an earlier one.
    pub fn insert(&mut self, desc: SamplerDesc, sampler: u64)
        ensures
            final(self)@ == old(self)@.push((desc, sampler)),
            forall|d: SamplerDesc|
                lookup_sampler(final(self)@, d) == if d == desc {
                    Some(sampler)
                } else {
                    lookup_sampler(old(self)@, d)
                },
    {
        self.entries.push((desc, sampler));
        assert forall|d: SamplerDesc|
            lookup_sampler(self@, d) == if d == desc {
                Some(sampler)
            } else {
                lookup_sampler(old(self)@, d)
            } by {
            assert(self@.drop_last() =~= old(self)@);
        }
    }

    pub fn get_sampler(&self, desc: SamplerDesc) -> (r: Option<u64>)
        ensures
            r == lookup_sampler(self@, desc),
    {
        let mut i: usize = self.entries.len();
        assert(self@.take(i as int) =~= self@);
        while i > 0
            invariant
                i <= self.entries.len(),
                lookup_sampler(self@, desc) == lookup_sampler(self@.take(i as int), desc),
            decreases i,
        {
            let e = self.entries[i - 1];
            assert(self@.take(i as int).drop_last() =~= self@.take(i - 1));
            if e.0 == desc {
                return Some(e.1);
            }
            i = i - 1;
        }
        None
    }

    pub fn get_default_sampler(&self) -> (r: Option<u64>)
        ensures
            r == lookup_sampler(self@, default_desc()),
    {
        self.get_sampler(SamplerDesc {
            texel_filter: Filter::Linear,
            mipmap_mode: MipmapMode::Linear,
            address_modes: AddressMode::Repeat,
        })
    }
}

/// Every standard combination exactly once, in filter, mipmap, address order.
pub fn standard_sampler_descs() -> (r: Vec<SamplerDesc>)
    ensures
        r@.len() == 8,
        forall|d: SamplerDesc| is_standard_desc(d) <==> r@.contains(d),
        forall|i: int, j: int| 0 <= i < j < r@.len() ==> r@[i] != r@[j],
{
    let mut r: Vec<SamplerDesc> = Vec::new();
    let filters = [Filter::Nearest, Filter::Linear];
    let mips = [MipmapMode::Nearest, MipmapMode::Linear];
    let addrs = [AddressMode::Repeat, AddressMode::ClampToEdge];
    for fi in 0..2usize
        invariant
            filters@ == seq![Filter::Nearest, Filter::Linear],
            mips@ == seq![MipmapMode::Nearest, MipmapMode::Linear],
            addrs@ == seq![AddressMode::Repeat, AddressMode::ClampToEdge],
            r@.len() == 4 * fi,
            forall|k: int| 0 <= k < r@.len() ==> r@[k] == standard_at(k),
    {
        for mi in 0..2usize
            invariant
                0 <= fi < 2,
                filters@ == seq![Filter::Nearest, Filter::Linear],
                mips@ == seq![MipmapMode::Nearest, MipmapMode::Linear],
                addrs@ == seq![AddressMode::Repeat, AddressMode::ClampToEdge],
                r@.len() == 4 * fi + 2 * mi,
                forall|k: int| 0 <= k < r@.len() ==> r@[k] == standard_at(k),
        {
            for ai in 0..2usize
                invariant
                    0 <= fi < 2,
                    0 <= mi < 2,
                    filters@ == seq![Filter::Nearest, Filter::Linear],
                    mips@ == seq![MipmapMode::Nearest, MipmapMode::Linear],
                    addrs@ == seq![AddressMode::Repeat, AddressMode::ClampToEdge],
                    r@.len() == 4 * fi + 2 * mi + ai,
                    forall|k: int| 0 <= k < r@.len() ==> r@[k] == standard_at(k),
            {
                r.push(
                    SamplerDesc {
                        texel_filter: filters[fi],
                        mipmap_mode: mips[mi],
                        address_modes: addrs[ai],
                    },
                );
            }
        }
    }
    assert forall|d: SamplerDesc| is_standard_desc(d) implies r@.contains(d) by {
        lemma_standard_index_of(d);
        assert(r@[standard_index(d)] == d);
    }
    assert forall|i: int, j: int| 0 <= i < j < r@.len() implies r@[i] != r@[j] by {
        lemma_standard_at(i);
        lemma_standard_at(j);
    }
    assert forall|d: SamplerDesc| r@.contains(d) implies is_standard_desc(d) by {
        let k = choose|k: int| 0 <= k < r@.len() && r@[k] == d;
        lemma_standard_at(k);
    }
    r
}

/// Position `k` of the standard enumeration.
pub open spec fn standard_at(k: int) -> SamplerDesc {
    SamplerDesc {
        texel_filter: if k / 4 == 0 { Filter::Nearest } else { Filter::Linear },
        mipmap_mode: if (k / 2) % 2 == 0 { MipmapMode::Nearest } else { MipmapMode::Linear },
        address_modes: if k % 2 == 0 { AddressMode::Repeat } else { AddressMode::ClampToEdge },
    }
}

proof fn lemma_standard_at(k: int)
    requires
        0 <= k < 8,
    ensures
        standard_index(standard_at(k)) == k,
        is_standard_desc(standard_at(k)),
{
    if k == 0 {
    } else if k == 1 {
    } else if k == 2 {
    } else if k == 3 {
    } else if k == 4 {
    } else if k == 5 {
    } else if k == 6 {
    } else {
    }
}

proof fn lemma_standard_index_of(d: SamplerDesc)
    requires
        is_standard_desc(d),
    ensures
        0 <= standard_index(d) < 8,
        standard_at(standard_index(d)) == d,
{
    let k = standard_index(d);
    if k == 0 {
    } else if k == 1 {
    } else if k == 2 {
    } else if k == 3 {
    } else if k == 4 {
    } else if k == 5 {
    } else if k == 6 {
    } else {
    }
}

spec fn standard_index(d: SamplerDesc) -> int {
    (if d.texel_filter == Filter::Nearest { 0int } else { 4 }) + (if d.mipmap_mode
        == MipmapMode::Nearest {
        0int
    } else {
        2
    }) + (if d.address_modes == AddressMode::Repeat { 0int } else { 1 })
}

/// The parameters of the immutable sampler created for one combination.
#[derive(Clone, Copy, Debug, PartialEq, Eq, Structural)]
pub struct SamplerParams {
    pub mag_filter: Filter,
    pub min_filter: Filter,
    pub mipmap_mode: MipmapMode,
    pub address_mode_u: AddressMode,
    pub address_mode_v: AddressMode,
    pub address_mode_w: AddressMode,
    pub anisotropy_enable: bool,
}

/// The sampler for `desc`: both filters and all three address modes as the
/// combination says, anisotropic filtering exactly for linear filtering.
pub fn sampler_params(desc: SamplerDesc) -> (r: SamplerParams)
    ensures
        r.mag_filter == desc.texel_filter,
        r.min_filter == desc.texel_filter,
        r.mipmap_mode == desc.mipmap_mode,
        r.address_mode_u == desc.address_modes,
        r.address_mode_v == desc.address_modes,
        r.address_mode_w == desc.address_modes,
        r.anisotropy_enable == (desc.texel_filter == Filter::Linear),
{
    SamplerParams {
        mag_filter: desc.texel_filter,
        min_filter: desc.texel_filter,
        mipmap_mode: desc.mipmap_mode,
        address_mode_u: desc.address_modes,
        address_mode_v: desc.address_modes,
        address_mode_w: desc.address_modes,
        anisotropy_enable: desc.texel_filter == Filter::Linear,
    }
}

} // verus!
