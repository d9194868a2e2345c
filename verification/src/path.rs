//! Canonical filesystem paths, modelled as their ordered components.
//!
//! The filesystem backend compares and prefixes paths component by
//! component, the way the operating system's path type does. A canonical
//! absolute path is fully described by the sequence of its components after
//! the root, so the library carries exactly that; the host canonicalises
//! paths before handing them in and turns them back into its own path type
//! at the boundary.

use vstd::prelude::*;
use vstd::string::StringExecFns;

verus! {

/// A canonical absolute path: the ordered components after the root.
/// An empty component list is the root itself.
pub struct CanonPath {
    pub components: Vec<String>,
}

impl View for CanonPath {
    type V = Seq<Seq<char>>;

    open spec fn view(&self) -> Seq<Seq<char>> {
        self.components.deep_view()
    }
}

impl DeepView for CanonPath {
    type V = Seq<Seq<char>>;

    open spec fn deep_view(&self) -> Seq<Seq<char>> {
        self.view()
    }
}

/// `path` has `prefix` as an ancestor or is `prefix` itself: every
/// component of `prefix` appears at the same place in `path`.
pub open spec fn spec_path_starts_with(path: Seq<Seq<char>>, prefix: Seq<Seq<char>>) -> bool {
    &&& prefix.len() <= path.len()
    &&& forall|i: int| 0 <= i < prefix.len() ==> path[i] == prefix[i]
}

/// The textual form of the components strictly after the root:
/// one `/` before each component.
pub open spec fn spec_segments(components: Seq<Seq<char>>) -> Seq<char>
    decreases components.len(),
{
    if components.len() == 0 {
        Seq::empty()
    } else {
        spec_segments(components.drop_last()) + seq!['/'] + components.last()
    }
}

/// The textual form of a canonical path; the root alone is `/`.
pub open spec fn spec_path_string(components: Seq<Seq<char>>) -> Seq<char> {
    if components.len() == 0 {
        seq!['/']
    } else {
        spec_segments(components)
    }
}

impl CanonPath {
    /// Whether this path and `other` are the same path.
    pub fn path_eq(&self, other: &CanonPath) -> (r: bool)
        ensures
            r == (self@ == other@),
    {
        if self.components.len() != other.components.len() {
            assert(self@.len() != other@.len());
            return false;
        }
        let mut i: usize = 0;
        while i < self.components.len()
            invariant
                i <= self.components.len(),
                self.components.len() == other.components.len(),
                forall|j: int| 0 <= j < i ==> self@[j] == other@[j],
            decreases self.components.len() - i,
        {
            if !(self.components[i] == other.components[i]) {
                assert(self@[i as int] != other@[i as int]);
                return false;
            }
            i += 1;
        }
        proof {
            assert(self@ =~= other@);
        }
        true
    }

    /// Whether this path lies at or below `prefix`, component-wise.
    pub fn starts_with(&self, prefix: &CanonPath) -> (r: bool)
        ensures
            r == spec_path_starts_with(self@, prefix@),
    {
        if prefix.components.len() > self.components.len() {
            return false;
        }
        let mut i: usize = 0;
        while i < prefix.components.len()
            invariant
                i <= prefix.components.len(),
                prefix.components.len() <= self.components.len(),
                forall|j: int| 0 <= j < i ==> self@[j] == prefix@[j],
            decreases prefix.components.len() - i,
        {
            if !(self.components[i] == prefix.components[i]) {
                assert(self@[i as int] != prefix@[i as int]);
                return false;
            }
            i += 1;
        }
        true
    }

    /// The textual form of the path, as the host and the scripts see it.
    pub fn path_string(&self) -> (r: String)
        ensures
            r@ == spec_path_string(self@),
    {
        if self.components.len() == 0 {
            let r = "/".to_owned();
            proof {
                reveal_strlit("/");
                assert(r@ =~= seq!['/']);
            }
            return r;
        }
        let mut s = String::new();
        let mut i: usize = 0;
        while i < self.components.len()
            invariant
                i <= self.components.len(),
                s@ == spec_segments(self@.subrange(0, i as int)),
            decreases self.components.len() - i,
        {
            s.append("/");
            s.append(self.components[i].as_str());
            proof {
                reveal_strlit("/");
                let pre = self@.subrange(0, i as int);
                let cur = self@.subrange(0, i as int + 1);
                assert(cur.drop_last() =~= pre);
                assert(cur.last() == self@[i as int]);
                assert(s@ =~= spec_segments(cur));
            }
            i += 1;
        }
        proof {
            assert(self@.subrange(0, self@.len() as int) =~= self@);
        }
        s
    }
}

} // verus!
