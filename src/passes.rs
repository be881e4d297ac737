use vstd::prelude::*;
use vstd::string::StrSliceExecFns;

verus! {

/// A unit of per-frame work: `update` refreshes its state before drawing,
/// `run` performs its submission.
pub trait SequentialNode<W> {
    fn update(&mut self, world: &mut W);

    fn run(&self, world: &mut W) -> Result<(), String>;
}

/// A node under the name it was added with.
pub struct SequentialPass<N> {
    pub id: String,
    pub node: N,
}

/// Whether two names hold the same characters.
pub fn same_name(a: &str, b: &str) -> (r: bool)
    ensures
        r == (a@ == b@),
{
    let n = a.unicode_len();
    if n != b.unicode_len() {
        return false;
    }
    let mut i: usize = 0;
    while i < n
        invariant
            n == a@.len(),
            n == b@.len(),
            i <= n,
            forall|j: int| 0 <= j < i ==> a@[j] == b@[j],
        decreases n - i,
    {
        if a.get_char(i) != b.get_char(i) {
            return false;
        }
        i = i + 1;
    }
    assert(a@ =~= b@);
    true
}

/// The names of `passes`, in order.
pub open spec fn pass_ids<N>(passes: Seq<SequentialPass<N>>) -> Seq<Seq<char>> {
    passes.map_values(|p: SequentialPass<N>| p.id@)
}

/// `passes` without those named `id`, the others in their order.
pub open spec fn without_id<N>(passes: Seq<SequentialPass<N>>, id: Seq<char>) -> Seq<SequentialPass<N>>
    decreases passes.len(),
{
    if passes.len() == 0 {
        Seq::empty()
    } else {
        let rest = without_id(passes.drop_last(), id);
        if passes.last().id@ == id {
            rest
        } else {
            rest.push(passes.last())
        }
    }
}

/// Render nodes in insertion order; the order is the only schedule.
pub struct SequentialPassSystem<N> {
    pub passes: Vec<SequentialPass<N>>,
}

impl<N> SequentialPassSystem<N> {
    pub fn new() -> (r: Self)
        ensures
            r.passes@.len() == 0,
    {
        SequentialPassSystem { passes: Vec::new() }
    }

    /// Appends `node` under `id` after the existing passes.
    pub fn add_pass(&mut self, id: String, node: N)
        ensures
            final(self).passes@ == old(self).passes@.push(SequentialPass { id, node }),
    {
        self.passes.push(SequentialPass { id, node });
    }

    /// Removes every pass named `id`, keeping the order of the rest.
    pub fn remove_pass(&mut self, id: &str)
        ensures
            final(self).passes@ == without_id(old(self).passes@, id@),
    {
        let ghost orig = self.passes@;
        let mut i: usize = 0;
        let ghost mut done: int = 0;
        assert(orig.take(0) =~= Seq::<SequentialPass<N>>::empty());
        assert(orig.skip(0) =~= orig);
        while i < self.passes.len()
            invariant
                0 <= done <= orig.len(),
                self.passes@ == without_id(orig.take(done), id@) + orig.skip(done),
                i == without_id(orig.take(done), id@).len(),
            decreases orig.len() - done,
        {
            let ghost kept = without_id(orig.take(done), id@);
            assert(self.passes@[i as int] == orig[done]);
            assert(orig.take(done + 1).drop_last() =~= orig.take(done));
            assert(orig.take(done + 1).last() == orig[done]);
            if same_name(self.passes[i].id.as_str(), id) {
                let _removed = self.passes.remove(i);
                assert(self.passes@ =~= kept + orig.skip(done + 1));
            } else {
                assert(self.passes@ =~= kept.push(orig[done]) + orig.skip(done + 1));
                i = i + 1;
            }
            proof {
                done = done + 1;
            }
        }
        assert(orig.take(done) =~= orig);
        assert(self.passes@ =~= without_id(orig, id@));
    }

    /// The first pass named `id`.
    pub fn get_pass(&self, id: &str) -> (r: Option<&SequentialPass<N>>)
        ensures
            r is None <==> !pass_ids(self.passes@).contains(id@),
            r matches Some(p) ==> exists|i: int|
                0 <= i < self.passes@.len() && self.passes@[i] == *p && p.id@ == id@ && forall|j: int|
                    0 <= j < i ==> self.passes@[j].id@ != id@,
    {
        let mut i: usize = 0;
        while i < self.passes.len()
            invariant
                i <= self.passes@.len(),
                forall|j: int| 0 <= j < i ==> self.passes@[j].id@ != id@,
            decreases self.passes@.len() - i,
        {
            if same_name(self.passes[i].id.as_str(), id) {
                assert(pass_ids(self.passes@)[i as int] == id@);
                return Some(&self.passes[i]);
            }
            i = i + 1;
        }
        assert(!pass_ids(self.passes@).contains(id@)) by {
            if pass_ids(self.passes@).contains(id@) {
                let j = choose|j: int| 0 <= j < pass_ids(self.passes@).len() && pass_ids(self.passes@)[j] == id@;
                assert(self.passes@[j].id@ == id@);
            }
        }
        None
    }

    /// Calls `update` on every node, in order.
    pub fn update<W>(&mut self, world: &mut W)
        where
            N: SequentialNode<W>,
        ensures
            pass_ids(final(self).passes@) == pass_ids(old(self).passes@),
    {
        let mut i: usize = 0;
        while i < self.passes.len()
            invariant
                i <= self.passes@.len(),
                pass_ids(self.passes@) == pass_ids(old(self).passes@),
            decreases self.passes@.len() - i,
        {
            let ghost before = self.passes@;
            self.passes[i].node.update(world);
            assert(pass_ids(self.passes@) =~= pass_ids(before));
            i = i + 1;
        }
    }

    /// Calls `run` on every node, in order, and stops at the first failure,
    /// which it returns with the position of the failing pass.
    pub fn run<W>(&self, world: &mut W) -> (r: Result<(), PassFailure>)
        where
            N: SequentialNode<W>,
        ensures
            self.passes@.len() == 0 ==> r is Ok,
            r matches Err(f) ==> f.index < self.passes@.len(),
    {
        let mut i: usize = 0;
        while i < self.passes.len()
            invariant
                i <= self.passes@.len(),
            decreases self.passes@.len() - i,
        {
            match self.passes[i].node.run(world) {
                Ok(()) => {},
                Err(message) => {
                    return Err(PassFailure { index: i, message });
                },
            }
            i = i + 1;
        }
        Ok(())
    }
}

/// A pass whose `run` failed: its position in the list and what it reported.
#[derive(Clone, Debug, PartialEq, Eq)]
pub struct PassFailure {
    pub index: usize,
    pub message: String,
}

} // verus!
