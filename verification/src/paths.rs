use vstd::prelude::*;

verus! {

/// An absolute, normalized path, held as its sequence of components.
///
/// All containment and equality questions are answered component-wise,
/// never by raw string prefix, so "ab" is no ancestor of "abc". The view
/// of a path is the sequence of its components' character sequences.
pub struct TreePath {
    pub segs: Vec<String>,
}

impl View for TreePath {
    type V = Seq<Seq<char>>;

    open spec fn view(&self) -> Seq<Seq<char>> {
        self.segs.deep_view()
    }
}

impl Clone for TreePath {
    fn clone(&self) -> (r: Self)
        ensures
            r@ == self@,
    {
        let mut segs: Vec<String> = Vec::new();
        let mut i: usize = 0;
        while i < self.segs.len()
            invariant
                i <= self.segs.len(),
                segs@.len() == i,
                forall|j: int| 0 <= j < i ==> segs@[j]@ == self.segs@[j]@,
            decreases self.segs.len() - i,
        {
            segs.push(self.segs[i].clone());
            i = i + 1;
        }
        assert forall|j: int| 0 <= j < segs@.len() implies segs.deep_view()[j] == self@[j] by {
            assert(segs.deep_view()[j] == segs@[j]@);
            assert(self@[j] == self.segs@[j]@);
        }
        assert(segs.deep_view() =~= self@);
        TreePath { segs }
    }
}

impl TreePath {
    pub fn from_segs(segs: Vec<String>) -> (r: Self)
        ensures
            r@ == segs.deep_view(),
    {
        TreePath { segs }
    }

    /// The number of components.
    pub fn depth(&self) -> (r: usize)
        ensures
            r == self@.len(),
    {
        self.segs.len()
    }

    /// Component-wise equality of two paths.
    pub fn eq_path(&self, other: &TreePath) -> (r: bool)
        ensures
            r == (self@ == other@),
    {
        if self.segs.len() != other.segs.len() {
            assert(self@ != other@) by {
                assert(self@.len() != other@.len());
            }
            return false;
        }
        let n = self.segs.len();
        let mut i: usize = 0;
        while i < n
            invariant
                i <= n,
                n == self@.len() == other@.len(),
                n == self.segs.len() == other.segs.len(),
                forall|j: int| 0 <= j < i ==> self@[j] == other@[j],
            decreases n - i,
        {
            if !(self.segs[i] == other.segs[i]) {
                assert(self@[i as int] != other@[i as int]);
                return false;
            }
            i = i + 1;
        }
        assert(self@ =~= other@);
        true
    }

    /// The ancestor of this path made of its first `k` components.
    pub fn prefix(&self, k: usize) -> (r: TreePath)
        requires
            k <= self@.len(),
        ensures
            r@ == self@.take(k as int),
    {
        let mut segs: Vec<String> = Vec::new();
        let mut i: usize = 0;
        while i < k
            invariant
                i <= k <= self.segs.len(),
                segs@.len() == i,
                forall|j: int| 0 <= j < i ==> segs@[j]@ == self.segs@[j]@,
            decreases k - i,
        {
            segs.push(self.segs[i].clone());
            i = i + 1;
        }
        assert forall|j: int| 0 <= j < segs@.len() implies segs.deep_view()[j] == self@.take(
            k as int,
        )[j] by {
            assert(segs.deep_view()[j] == segs@[j]@);
            assert(self@[j] == self.segs@[j]@);
        }
        assert(segs.deep_view() =~= self@.take(k as int));
        TreePath { segs }
    }
}

} // verus!
