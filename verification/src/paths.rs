//! Paths below a portable root.
//!
//! Every file of the runtime stands below one root directory. A path is that
//! root, as the operating system gave it, and the names that lead down from
//! it.
use vstd::prelude::*;

use crate::text;

verus! {

/// A path below a root.
#[derive(Debug, PartialEq, Eq)]
pub struct RuntimePath {
    pub root: String,
    pub parts: Vec<String>,
}

/// What a path is: its root and the names below it.
pub struct PathModel {
    pub root: Seq<char>,
    pub parts: Seq<Seq<char>>,
}

impl PathModel {
    /// The path one name further down.
    pub open spec fn join(self, part: Seq<char>) -> PathModel {
        PathModel { root: self.root, parts: self.parts.push(part) }
    }

    /// The path one name further up.
    pub open spec fn parent(self) -> PathModel {
        PathModel { root: self.root, parts: self.parts.drop_last() }
    }

    /// Whether this path is `base` or stands below it.
    pub open spec fn is_below(self, base: PathModel) -> bool {
        &&& self.root == base.root
        &&& base.parts.len() <= self.parts.len()
        &&& self.parts.take(base.parts.len() as int) == base.parts
    }
}

/// The path of the root itself.
pub open spec fn root_path(root: Seq<char>) -> PathModel {
    PathModel { root, parts: Seq::empty() }
}

impl View for RuntimePath {
    type V = PathModel;

    open spec fn view(&self) -> PathModel {
        PathModel { root: self.root@, parts: text::views(self.parts@) }
    }
}

impl RuntimePath {
    /// The path of the root itself.
    pub fn from_root(root: &str) -> (res: RuntimePath)
        ensures
            res@ == root_path(root@),
    {
        let res = RuntimePath { root: root.to_owned(), parts: Vec::new() };
        assert(text::views(res.parts@) == Seq::<Seq<char>>::empty());
        res
    }

    /// The path one name further down.
    pub fn join(&self, part: &str) -> (res: RuntimePath)
        ensures
            res@ == self@.join(part@),
    {
        let mut parts: Vec<String> = Vec::new();
        let mut i: usize = 0;
        while i < self.parts.len()
            invariant
                i <= self.parts@.len(),
                parts@ == self.parts@.take(i as int),
            decreases self.parts@.len() - i,
        {
            parts.push(self.parts[i].clone());
            i += 1;
            assert(self.parts@.take(i as int) == self.parts@.take(i - 1).push(self.parts@[i - 1]));
        }
        assert(parts@ == self.parts@);
        parts.push(part.to_owned());
        let res = RuntimePath { root: self.root.clone(), parts };
        assert(text::views(res.parts@) == text::views(self.parts@).push(part@));
        res
    }

    /// The path one name further up; `None` at the root.
    pub fn parent(&self) -> (res: Option<RuntimePath>)
        ensures
            match res {
                Some(path) => self@.parts.len() > 0 && path@ == self@.parent(),
                None => self@.parts.len() == 0,
            },
    {
        if self.parts.len() == 0 {
            return None;
        }
        let mut path = self.duplicate();
        let ghost before = path.parts@;
        let _ = path.parts.pop();
        assert(text::views(path.parts@) == text::views(before).drop_last());
        Some(path)
    }

    /// The same path again.
    pub fn duplicate(&self) -> (res: RuntimePath)
        ensures
            res@ == self@,
    {
        let mut parts: Vec<String> = Vec::new();
        let mut i: usize = 0;
        while i < self.parts.len()
            invariant
                i <= self.parts@.len(),
                parts@ == self.parts@.take(i as int),
            decreases self.parts@.len() - i,
        {
            parts.push(self.parts[i].clone());
            i += 1;
            assert(self.parts@.take(i as int) == self.parts@.take(i - 1).push(self.parts@[i - 1]));
        }
        assert(parts@ == self.parts@);
        RuntimePath { root: self.root.clone(), parts }
    }
}

/// A name that is joined to a path stands at its end; leaving it leads back.
pub proof fn law_joined_names_can_be_left(path: PathModel, name: Seq<char>)
    ensures
        path.join(name).parent() == path,
        path.join(name).root == path.root,
        path.join(name).parts.len() == path.parts.len() + 1,
        path.join(name).parts.last() == name,
        path.join(name).is_below(path),
        !path.is_below(path.join(name)),
        root_path(name).parts.len() == 0,
        root_path(name).root == name,
{
    assert(path.join(name).parts.drop_last() == path.parts);
    assert(path.join(name).parts.take(path.parts.len() as int) == path.parts);
}

} // verus!
