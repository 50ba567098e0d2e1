//! Virtual paths: a path that begins with a registered scheme, such as
//! `samples:`, stands for a path below the directory registered for it.

use vstd::prelude::*;
use vstd::string::{StrSliceExecFns, StringExecFns};

verus! {

/// The path that `path` stands for under a scheme registered for
/// `directory`: the directory, then what follows the scheme.
pub open spec fn resolved(scheme: Seq<char>, directory: Seq<char>, path: Seq<char>) -> Seq<char> {
    directory + path.skip(scheme.len() as int)
}

/// The registered schemes, each with its directory, in the order in which
/// they were registered.
#[derive(Debug)]
pub struct VirtualPaths {
    entries: Vec<(String, String)>,
}

impl View for VirtualPaths {
    type V = Seq<(Seq<char>, Seq<char>)>;

    closed spec fn view(&self) -> Seq<(Seq<char>, Seq<char>)> {
        Seq::new(self.entries@.len(), |i: int| (self.entries@[i].0@, self.entries@[i].1@))
    }
}

impl VirtualPaths {
    /// No scheme is registered.
    pub fn new() -> (paths: VirtualPaths)
        ensures
            paths@ == Seq::<(Seq<char>, Seq<char>)>::empty(),
    {
        let paths = VirtualPaths { entries: Vec::new() };
        assert(paths@ =~= Seq::empty());
        paths
    }

    /// Registers `directory` for `scheme`. A scheme that is registered
    /// already keeps its place and gets the new directory.
    pub fn insert(&mut self, scheme: String, directory: String)
        ensures
            (forall|j: int| 0 <= j < old(self)@.len() ==> (#[trigger] old(self)@[j]).0 != scheme@)
                ==> final(self)@ == old(self)@.push((scheme@, directory@)),
            forall|i: int|
                #![trigger old(self)@[i]]
                (0 <= i < old(self)@.len() && old(self)@[i].0 == scheme@ && forall|j: int|
                    0 <= j < i ==> (#[trigger] old(self)@[j]).0 != scheme@) ==> final(self)@ == old(
                    self,
                )@.update(i, (scheme@, directory@)),
    {
        let mut i: usize = 0;
        while i < self.entries.len()
            invariant
                i <= self.entries.len(),
                self.entries == old(self).entries,
                forall|j: int| 0 <= j < i ==> (#[trigger] old(self)@[j]).0 != scheme@,
            decreases self.entries.len() - i,
        {
            if self.entries[i].0 == scheme {
                assert(old(self)@[i as int].0 == scheme@);
                self.entries[i].1 = directory;
                assert(final(self)@ =~= old(self)@.update(i as int, (scheme@, directory@)));
                return ;
            }
            assert(old(self)@[i as int].0 != scheme@);
            i += 1;
        }
        self.entries.push((scheme, directory));
        assert(final(self)@ =~= old(self)@.push((scheme@, directory@)));
    }

    /// The path that `path` stands for: that of the first registered scheme
    /// that `path` begins with. Nothing where it begins with none of them.
    pub fn translate(&self, path: &str) -> (r: Option<String>)
        ensures
            (forall|j: int| 0 <= j < self@.len() ==> !(#[trigger] self@[j]).0.is_prefix_of(path@))
                ==> r.is_none(),
            forall|i: int|
                #![trigger self@[i]]
                (0 <= i < self@.len() && self@[i].0.is_prefix_of(path@) && forall|j: int|
                    0 <= j < i ==> !(#[trigger] self@[j]).0.is_prefix_of(path@)) ==> r.is_some()
                    && r.unwrap()@ == resolved(self@[i].0, self@[i].1, path@),
    {
        let path_len = path.unicode_len();
        let mut i: usize = 0;
        while i < self.entries.len()
            invariant
                i <= self.entries.len(),
                path_len == path@.len(),
                forall|j: int| 0 <= j < i ==> !(#[trigger] self@[j]).0.is_prefix_of(path@),
            decreases self.entries.len() - i,
        {
            let scheme = &self.entries[i].0;
            let scheme_len = scheme.as_str().unicode_len();
            assert(self@[i as int].0 == scheme@);
            if scheme_len <= path_len {
                let head = String::from_str(path.substring_char(0, scheme_len));
                if head == *scheme {
                    let rest = path.substring_char(scheme_len, path_len);
                    let found = self.entries[i].1.clone().concat(rest);
                    assert(self@[i as int].0.is_prefix_of(path@));
                    assert(found@ =~= resolved(self@[i as int].0, self@[i as int].1, path@));
                    return Some(found);
                }
            }
            assert(!self@[i as int].0.is_prefix_of(path@));
            i += 1;
        }
        None
    }
}

} // verus!
