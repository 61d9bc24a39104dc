//! Paths as a root directory and the names that are joined to it.
use vstd::prelude::*;

use crate::text::{texts, Text};

verus! {

/// A directory that the operating system or the installation provides.
#[derive(Clone, Copy, Debug, PartialEq, Eq, Structural)]
pub enum Root {
    /// The home directory of the user.
    Home,
    /// The directory of the resources bundled with the application.
    Resources,
}

/// A path: the names in `parts`, joined one after the other to `root`.
#[derive(Debug, PartialEq, Eq)]
pub struct FilePath {
    pub root: Root,
    pub parts: Vec<String>,
}

/// The mathematical model of a `FilePath`.
#[verifier::ext_equal]
pub struct PathView {
    pub root: Root,
    pub parts: Seq<Text>,
}

impl View for FilePath {
    type V = PathView;

    open spec fn view(&self) -> PathView {
        PathView { root: self.root, parts: texts(self.parts@) }
    }
}

/// A file name that joins as exactly one component: it is not empty, is neither `.` nor
/// `..`, and holds no separator.
pub open spec fn is_plain_name(name: Text) -> bool {
    &&& name.len() > 0
    &&& name != seq!['.']
    &&& name != seq!['.', '.']
    &&& !name.contains('/')
    &&& !name.contains('\\')
}

impl PathView {
    /// The path of the entry `name` in the directory `self`.
    pub open spec fn join(self, name: Text) -> PathView {
        PathView { root: self.root, parts: self.parts.push(name) }
    }

    /// The directory that `self` is an entry of, where `self` is not a root.
    pub open spec fn parent(self) -> Option<PathView> {
        if self.parts.len() == 0 {
            None
        } else {
            Some(PathView { root: self.root, parts: self.parts.drop_last() })
        }
    }

    /// `self` is `dir` or lies somewhere below it.
    pub open spec fn within(self, dir: PathView) -> bool {
        &&& self.root == dir.root
        &&& dir.parts.is_prefix_of(self.parts)
    }

    /// Every name joins as one component.
    pub open spec fn plain(self) -> bool {
        forall|i: int| 0 <= i < self.parts.len() ==> is_plain_name(#[trigger] self.parts[i])
    }
}

impl FilePath {
    /// The root directory itself.
    pub fn at(root: Root) -> (r: FilePath)
        ensures
            r@ == (PathView { root, parts: Seq::empty() }),
    {
        let r = FilePath { root, parts: Vec::new() };
        assert(r@.parts =~= Seq::<Text>::empty());
        r
    }

    /// The path of the entry `name` in the directory `self`.
    pub fn join(&self, name: &str) -> (r: FilePath)
        ensures
            r@ == self@.join(name@),
    {
        let mut r = self.clone();
        r.parts.push(name.to_owned());
        assert(r@.parts =~= self@.join(name@).parts);
        r
    }

    /// The directory that `self` is an entry of, where `self` is not a root.
    pub fn parent(&self) -> (r: Option<FilePath>)
        ensures
            match r {
                Some(p) => self@.parent() == Some(p@),
                None => self@.parent() is None,
            },
    {
        let mut r = self.clone();
        match r.parts.pop() {
            Some(_) => {
                assert(r@.parts =~= self@.parts.drop_last());
                Some(r)
            },
            None => None,
        }
    }
}

impl Clone for FilePath {
    fn clone(&self) -> (r: FilePath)
        ensures
            r@ == self@,
    {
        let mut parts: Vec<String> = Vec::new();
        let mut i: usize = 0;
        while i < self.parts.len()
            invariant
                i <= self.parts@.len(),
                texts(parts@) == self@.parts.take(i as int),
            decreases self.parts.len() - i,
        {
            parts.push(self.parts[i].clone());
            assert(texts(parts@) =~= self@.parts.take(i + 1)) by {
                assert(texts(parts@).drop_last() =~= self@.parts.take(i as int));
            }
            i += 1;
        }
        assert(texts(parts@) =~= self@.parts);
        FilePath { root: self.root, parts }
    }
}

} // verus!
