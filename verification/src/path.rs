use vstd::prelude::*;
use vstd::string::StringExecFns;
use crate::error::SyncError;

verus! {

/// A path, held as the sequence of its components.
///
/// The view of a path is the sequence of its components' characters; two
/// paths are the same path when their views are equal.
#[derive(Debug, PartialEq, Eq)]
pub struct SyncPath {
    pub components: Vec<String>,
}

impl View for SyncPath {
    type V = Seq<Seq<char>>;

    open spec fn view(&self) -> Seq<Seq<char>> {
        Seq::new(self.components@.len(), |i: int| self.components@[i]@)
    }
}

impl Clone for SyncPath {
    fn clone(&self) -> (r: Self)
        ensures
            r@ == self@,
    {
        let mut components: Vec<String> = Vec::new();
        let mut i: usize = 0;
        while i < self.components.len()
            invariant
                i <= self.components.len(),
                components@.len() == i,
                forall|k: int| 0 <= k < i ==> components@[k]@ == self.components@[k]@,
            decreases self.components.len() - i,
        {
            components.push(self.components[i].clone());
            i += 1;
        }
        let r = SyncPath { components };
        assert(r@ =~= self@);
        r
    }
}

/// The text of a path: its components with a `/` between each two.
pub open spec fn path_text(path: Seq<Seq<char>>) -> Seq<char>
    decreases path.len(),
{
    if path.len() == 0 {
        Seq::empty()
    } else if path.len() == 1 {
        path[0]
    } else {
        path_text(path.drop_last()) + "/"@ + path.last()
    }
}

impl SyncPath {
    /// The text of the path: its components with a `/` between each two.
    pub fn to_text(&self) -> (text: String)
        ensures
            text@ == path_text(self@),
    {
        let mut text = String::new();
        let mut i: usize = 0;
        while i < self.components.len()
            invariant
                i <= self.components.len(),
                text@ == path_text(self@.take(i as int)),
            decreases self.components.len() - i,
        {
            proof {
                assert(self@.take(i + 1).drop_last() =~= self@.take(i as int));
                assert(self@.take(i + 1).last() == self@[i as int]);
            }
            if i > 0 {
                text.append("/");
            }
            text.append(self.components[i].as_str());
            assert(text@ =~= path_text(self@.take(i + 1)));
            i += 1;
        }
        assert(self@.take(i as int) =~= self@);
        text
    }

    /// The path with the given components.
    pub fn new(components: Vec<String>) -> (r: Self)
        ensures
            r.components == components,
    {
        SyncPath { components }
    }

    /// The path of what is called `name` directly under this path.
    pub fn child(&self, name: &str) -> (r: SyncPath)
        ensures
            r@ == self@.push(name@),
    {
        let mut r = self.clone();
        let ghost before = r@;
        r.components.push(String::from_str(name));
        assert(r@ =~= before.push(name@));
        r
    }

    /// The number of components.
    pub fn len(&self) -> (n: usize)
        ensures
            n == self@.len(),
    {
        self.components.len()
    }

    /// Whether both are the same path.
    pub fn same_as(&self, other: &SyncPath) -> (b: bool)
        ensures
            b == (self@ == other@),
    {
        if self.components.len() != other.components.len() {
            assert(self@.len() != other@.len());
            return false;
        }
        let mut i: usize = 0;
        while i < self.components.len()
            invariant
                i <= self.components.len(),
                self.components.len() == other.components.len(),
                forall|k: int| 0 <= k < i ==> self@[k] == other@[k],
            decreases self.components.len() - i,
        {
            if self.components[i] != other.components[i] {
                assert(self@[i as int] != other@[i as int]);
                return false;
            }
            i += 1;
        }
        assert(self@ =~= other@);
        true
    }

    /// Whether `base` is a leading part of this path, component by component.
    pub fn starts_with(&self, base: &SyncPath) -> (b: bool)
        ensures
            b == base@.is_prefix_of(self@),
    {
        if base.components.len() > self.components.len() {
            return false;
        }
        let mut i: usize = 0;
        while i < base.components.len()
            invariant
                i <= base.components.len(),
                base.components.len() <= self.components.len(),
                forall|k: int| 0 <= k < i ==> self@[k] == base@[k],
            decreases base.components.len() - i,
        {
            if self.components[i] != base.components[i] {
                assert(self@.subrange(0, base@.len() as int)[i as int] != base@[i as int]);
                return false;
            }
            i += 1;
        }
        assert(base@ =~= self@.subrange(0, base@.len() as int));
        true
    }
}

/// The part of `path` below `base`.
///
/// Fails with `InvalidPath` exactly when `path` does not lie under `base`.
pub fn relativize(path: &SyncPath, base: &SyncPath) -> (r: Result<SyncPath, SyncError>)
    ensures
        match r {
            Ok(rel) => base@.is_prefix_of(path@) && rel@ == path@.skip(base@.len() as int),
            Err(e) => !base@.is_prefix_of(path@) && e == SyncError::InvalidPath,
        },
{
    if !path.starts_with(base) {
        return Err(SyncError::InvalidPath);
    }
    let mut components: Vec<String> = Vec::new();
    let mut i: usize = base.components.len();
    while i < path.components.len()
        invariant
            base.components.len() <= i <= path.components.len(),
            components@.len() == i - base.components.len(),
            forall|k: int| 0 <= k < components@.len() ==> components@[k]@ == path@[k + base@.len()],
        decreases path.components.len() - i,
    {
        components.push(path.components[i].clone());
        i += 1;
    }
    let rel = SyncPath { components };
    assert(rel@ =~= path@.skip(base@.len() as int));
    Ok(rel)
}

/// `relative` placed under `new_base`: the components of the base followed
/// by those of the relative path.
pub fn remap(relative: &SyncPath, new_base: &SyncPath) -> (r: SyncPath)
    ensures
        r@ == new_base@ + relative@,
{
    let mut components: Vec<String> = Vec::new();
    let mut i: usize = 0;
    while i < new_base.components.len()
        invariant
            i <= new_base.components.len(),
            components@.len() == i,
            forall|k: int| 0 <= k < i ==> components@[k]@ == new_base@[k],
        decreases new_base.components.len() - i,
    {
        components.push(new_base.components[i].clone());
        i += 1;
    }
    let mut j: usize = 0;
    while j < relative.components.len()
        invariant
            j <= relative.components.len(),
            components@.len() == new_base@.len() + j,
            forall|k: int| 0 <= k < new_base@.len() ==> components@[k]@ == new_base@[k],
            forall|k: int| 0 <= k < j ==> components@[new_base@.len() + k]@ == relative@[k],
        decreases relative.components.len() - j,
    {
        components.push(relative.components[j].clone());
        j += 1;
    }
    let r = SyncPath { components };
    assert(r@ =~= new_base@ + relative@);
    r
}

/// Mapping and relativizing undo each other: what was placed under a base
/// lies under it, and its part below the base is what was placed there.
pub proof fn lemma_remap_then_relativize(relative: Seq<Seq<char>>, base: Seq<Seq<char>>)
    ensures
        base.is_prefix_of(base + relative),
        (base + relative).skip(base.len() as int) == relative,
{
    assert(base =~= (base + relative).subrange(0, base.len() as int));
    assert((base + relative).skip(base.len() as int) =~= relative);
}

/// A path that lies under a base is the base followed by its part below
/// the base.
pub proof fn lemma_relativize_then_remap(path: Seq<Seq<char>>, base: Seq<Seq<char>>)
    requires
        base.is_prefix_of(path),
    ensures
        base + path.skip(base.len() as int) == path,
{
    assert(base + path.skip(base.len() as int) =~= path) by {
        assert forall|i: int| 0 <= i < base.len() implies base[i] == path[i] by {
            assert(base[i] == path.subrange(0, base.len() as int)[i]);
        }
    }
}

} // verus!
