use vstd::prelude::*;
use crate::enums::entry_type::EntryType;
use crate::error::SyncError;
use crate::functions::file_utils::{classify, spec_classify};
use crate::path::SyncPath;

verus! {

/// One filesystem object found by a traversal: where it is, what it is,
/// and how many directories lie between it and the root of the traversal.
#[derive(Debug, PartialEq, Eq)]
pub struct Entry {
    pub path: SyncPath,
    pub kind: EntryType,
    pub depth: i32,
}

/// An entry with its path as a component sequence.
pub struct EntryView {
    pub path: Seq<Seq<char>>,
    pub kind: EntryType,
    pub depth: int,
}

impl View for Entry {
    type V = EntryView;

    open spec fn view(&self) -> EntryView {
        EntryView { path: self.path@, kind: self.kind, depth: self.depth as int }
    }
}

/// The views of a list of entries, in order.
pub open spec fn entries_view(entries: Seq<Entry>) -> Seq<EntryView> {
    Seq::new(entries.len(), |i: int| entries[i]@)
}

/// A snapshot of a directory tree: one node per filesystem object, a
/// directory holding its children in the order in which they were listed.
#[derive(Debug, PartialEq, Eq)]
pub struct DirEntry {
    /// The number of directories above the node, up to the root of the
    /// tree that it was built into.
    pub depth: i32,
    pub path: SyncPath,
    /// The last component of the path.
    pub file_name: String,
    pub entry_type: EntryType,
    /// What the directory holds, in listing order; empty for a file.
    pub child_entries: Vec<DirEntry>,
}

/// The last component of a path; empty for the empty path.
pub open spec fn file_name_of(path: Seq<Seq<char>>) -> Seq<char> {
    if path.len() == 0 {
        Seq::empty()
    } else {
        path.last()
    }
}

/// Whether the nodes can be the children of a directory at `path`: each
/// lies directly under it, and no two share a name.
pub open spec fn children_fit(path: Seq<Seq<char>>, children: Seq<DirEntry>) -> bool {
    &&& forall|k: int|
        0 <= k < children.len() ==> (#[trigger] children[k]).path@ == path.push(
            children[k].file_name@,
        )
    &&& forall|j: int, k: int|
        0 <= j < k < children.len() ==> (#[trigger] children[j]).file_name@
            != (#[trigger] children[k]).file_name@
}

/// The children that a node of the given kind keeps: a file keeps none.
pub open spec fn kept_children(kind: EntryType, children: Seq<DirEntry>) -> Seq<DirEntry> {
    if kind == EntryType::D {
        children
    } else {
        Seq::empty()
    }
}

/// Whether `child` lies directly under `path` under its own name.
fn lies_under(child: &DirEntry, path: &SyncPath) -> (b: bool)
    ensures
        b == (child.path@ == path@.push(child.file_name@)),
{
    let n: usize = path.components.len();
    if child.path.components.len() == 0 || child.path.components.len() - 1 != n {
        assert(child.path@.len() != path@.push(child.file_name@).len());
        return false;
    }
    if !child.path.starts_with(path) {
        assert(path@.push(child.file_name@).subrange(0, n as int) =~= path@);
        return false;
    }
    if child.path.components[n] != child.file_name {
        assert(child.path@[n as int] != path@.push(child.file_name@)[n as int]);
        return false;
    }
    assert(child.path@ =~= path@.push(child.file_name@));
    true
}

/// Whether no two of the nodes share a name.
fn names_differ(children: &Vec<DirEntry>) -> (b: bool)
    ensures
        b == (forall|j: int, k: int|
            0 <= j < k < children@.len() ==> (#[trigger] children@[j]).file_name@
                != (#[trigger] children@[k]).file_name@),
{
    let mut k: usize = 0;
    while k < children.len()
        invariant
            k <= children.len(),
            forall|a: int, b: int|
                0 <= a < b < k ==> (#[trigger] children@[a]).file_name@
                    != (#[trigger] children@[b]).file_name@,
        decreases children.len() - k,
    {
        let mut j: usize = 0;
        while j < k
            invariant
                j <= k < children.len(),
                forall|a: int|
                    0 <= a < j ==> (#[trigger] children@[a]).file_name@ != children@[k as int].file_name@,
            decreases k - j,
        {
            if children[j].file_name == children[k].file_name {
                return false;
            }
            j += 1;
        }
        k += 1;
    }
    true
}

impl DirEntry {
    /// Builds the node for `path` from what a look at the filesystem found
    /// there and from the nodes of what the directory listing gave.
    ///
    /// A path that is neither file nor directory is `NotFound`. A
    /// directory keeps the children in their order, a file keeps none.
    /// Children that do not lie directly under `path`, or two children of
    /// one name, are an `InvalidPath`.
    ///
    /// Depth counts the directories above a node: the node itself gets
    /// depth 0 and every node below it one more than its parent, whatever
    /// depth it carried before. Nothing else changes at any level. The
    /// kept children must be shallow enough for the depth counter.
    pub fn new(path: SyncPath, is_file: bool, is_dir: bool, children: Vec<DirEntry>) -> (r: Result<
        DirEntry,
        SyncError,
    >)
        requires
            spec_classify(is_file, is_dir) == Ok::<EntryType, SyncError>(EntryType::D) ==> forall|
                k: int,
            | 0 <= k < children@.len() ==> (#[trigger] children@[k]).spec_levels_fit(1),
        ensures
            match r {
                Ok(node) => {
                    &&& spec_classify(is_file, is_dir) == Ok::<EntryType, SyncError>(node.entry_type)
                    &&& children_fit(path@, kept_children(node.entry_type, children@))
                    &&& node.stamped(0)
                    &&& node.path == path
                    &&& node.file_name@ == file_name_of(path@)
                    &&& node.child_entries@.len() == kept_children(node.entry_type, children@).len()
                    &&& forall|k: int|
                        0 <= k < node.child_entries@.len() ==> (#[trigger] node.child_entries@[k]).same_but_depth(
                            children@[k],
                        )
                    &&& (forall|k: int| 0 <= k < children@.len() ==> (#[trigger] children@[k]).wf())
                        ==> node.wf()
                    &&& node.spec_fits(0)
                },
                Err(e) => match spec_classify(is_file, is_dir) {
                    Err(_) => e == SyncError::NotFound,
                    Ok(kind) => e == SyncError::InvalidPath && !children_fit(
                        path@,
                        kept_children(kind, children@),
                    ),
                },
            },
    {
        let kind = match classify(is_file, is_dir) {
            Ok(kind) => kind,
            Err(e) => {
                return Err(e);
            },
        };
        let file_name = if path.components.len() == 0 {
            String::new()
        } else {
            path.components[path.components.len() - 1].clone()
        };
        let mut child_entries: Vec<DirEntry> = Vec::new();
        if kind == EntryType::D {
            if !names_differ(&children) {
                return Err(SyncError::InvalidPath);
            }
            let ghost given = children@;
            for child in it: children
                invariant
                    it.seq() == given,
                    kind == EntryType::D,
                    spec_classify(is_file, is_dir) == Ok::<EntryType, SyncError>(kind),
                    file_name@ == file_name_of(path@),
                    forall|k: int| 0 <= k < given.len() ==> (#[trigger] given[k]).spec_levels_fit(1),
                    forall|j: int, k: int|
                        0 <= j < k < given.len() ==> (#[trigger] given[j]).file_name@
                            != (#[trigger] given[k]).file_name@,
                    child_entries@.len() == it.index(),
                    forall|k: int|
                        0 <= k < child_entries@.len() ==> (#[trigger] child_entries@[k]).stamped(1)
                            && child_entries@[k].same_but_depth(given[k]),
                    forall|k: int|
                        0 <= k < child_entries@.len() ==> (#[trigger] given[k]).path@ == path@.push(
                            given[k].file_name@,
                        ),
            {
                assert(child == given[it.index() as int]);
                if !lies_under(&child, &path) {
                    return Err(SyncError::InvalidPath);
                }
                child_entries.push(child.restamp(1));
            }
        }
        let node = DirEntry { depth: 0, path, file_name, entry_type: kind, child_entries };
        proof {
            assert forall|k: int| 0 <= k < node.child_entries@.len() implies (
            #[trigger] node.child_entries@[k]).wf() == children@[k].wf() by {
                lemma_same_but_depth_wf(node.child_entries@[k], children@[k]);
            }
            lemma_stamped_fits(node, 0);
        }
        Ok(node)
    }

    /// The same tree with depth counted from `depth`: this node gets
    /// `depth`, every node below it one more than its parent.
    fn restamp(self, depth: i32) -> (r: DirEntry)
        requires
            self.spec_levels_fit(depth as int),
        ensures
            r.stamped(depth as int),
            r.same_but_depth(self),
        decreases self,
    {
        let ghost given = self.child_entries@;
        let DirEntry { depth: _, path, file_name, entry_type, child_entries: children } = self;
        let mut child_entries: Vec<DirEntry> = Vec::new();
        for child in it: children
            invariant
                it.seq() == given,
                given == self.child_entries@,
                forall|k: int|
                    0 <= k < given.len() ==> (#[trigger] given[k]).spec_levels_fit(depth + 1),
                child_entries@.len() == it.index(),
                forall|k: int|
                    0 <= k < child_entries@.len() ==> (#[trigger] child_entries@[k]).stamped(
                        depth + 1,
                    ) && child_entries@[k].same_but_depth(given[k]),
        {
            assert(child == given[it.index() as int]);
            child_entries.push(child.restamp(depth + 1));
        }
        DirEntry { depth, path, file_name, entry_type, child_entries }
    }

    /// Whether depth counts the directories above each node, this node
    /// being at `depth`: every node is one deeper than its parent.
    pub open spec fn stamped(&self, depth: int) -> bool
        decreases self,
    {
        &&& self.depth == depth
        &&& forall|k: int|
            0 <= k < self.child_entries@.len() ==> (#[trigger] self.child_entries@[k]).stamped(
                depth + 1,
            )
    }

    /// Whether both are the same tree but for the depth that the nodes
    /// carry: path, name and kind agree at every node, and every node has
    /// the same children in the same order.
    pub open spec fn same_but_depth(&self, other: DirEntry) -> bool
        decreases self,
    {
        &&& self.path == other.path
        &&& self.file_name == other.file_name
        &&& self.entry_type == other.entry_type
        &&& self.child_entries@.len() == other.child_entries@.len()
        &&& forall|k: int|
            0 <= k < self.child_entries@.len() ==> (#[trigger] self.child_entries@[k]).same_but_depth(
                other.child_entries@[k],
            )
    }

    /// Whether the depth counter can hold the depth of every node when
    /// this node is at `depth`.
    pub open spec fn spec_levels_fit(&self, depth: int) -> bool
        decreases self,
    {
        &&& depth <= i32::MAX
        &&& forall|k: int|
            0 <= k < self.child_entries@.len() ==> (#[trigger] self.child_entries@[k]).spec_levels_fit(
                depth + 1,
            )
    }

    /// Whether the depth counter can hold the depth of every node when
    /// this node is at `depth`.
    pub fn levels_fit(&self, depth: i32) -> (b: bool)
        ensures
            b == self.spec_levels_fit(depth as int),
        decreases self,
    {
        let mut i: usize = 0;
        while i < self.child_entries.len()
            invariant
                i <= self.child_entries.len(),
                forall|k: int|
                    0 <= k < i ==> (#[trigger] self.child_entries@[k]).spec_levels_fit(depth + 1),
            decreases self.child_entries.len() - i,
        {
            if depth == i32::MAX {
                assert(!self.child_entries@[i as int].spec_levels_fit(depth + 1));
                return false;
            }
            if !self.child_entries[i].levels_fit(depth + 1) {
                return false;
            }
            i += 1;
        }
        true
    }

    /// Whether the node is a file.
    pub fn is_file(&self) -> (b: bool)
        ensures
            b == (self.entry_type == EntryType::F),
    {
        matches!(self.entry_type, EntryType::F)
    }

    /// Whether the node is a directory.
    pub fn is_dir(&self) -> (b: bool)
        ensures
            b == (self.entry_type == EntryType::D),
    {
        matches!(self.entry_type, EntryType::D)
    }

    /// The entry that stands for this node at the given depth.
    pub open spec fn entry(&self, depth: int) -> EntryView {
        EntryView { path: self.path@, kind: self.entry_type, depth }
    }

    /// This node followed by everything below it, parents before children,
    /// children in listing order.
    pub open spec fn walk(&self, depth: int) -> Seq<EntryView>
        decreases self,
    {
        if self.entry_type == EntryType::D {
            seq![self.entry(depth)] + walk_all(self.child_entries@, depth + 1)
        } else {
            seq![self.entry(depth)]
        }
    }

    /// What a traversal rooted here yields, counting depth from `depth`:
    /// a file yields itself alone; a directory yields what lies below it,
    /// each directory right before its own contents, but not itself.
    pub open spec fn listing(&self, depth: int) -> Seq<EntryView> {
        if self.entry_type == EntryType::D {
            walk_all(self.child_entries@, depth)
        } else {
            seq![self.entry(depth)]
        }
    }

    /// Whether a traversal rooted here that counts depth from `depth`
    /// stays within the range of the depth counter: no directory below
    /// the root lies at the largest depth that the counter can hold.
    pub open spec fn spec_fits(&self, depth: int) -> bool
        decreases self,
    {
        self.entry_type == EntryType::D ==> forall|k: int|
            0 <= k < self.child_entries@.len() ==> ((#[trigger] self.child_entries@[k]).entry_type
                == EntryType::D ==> depth < i32::MAX && self.child_entries@[k].spec_fits(depth + 1))
    }

    /// Whether a traversal rooted here that counts depth from `depth`
    /// stays within the range of the depth counter.
    pub fn fits(&self, depth: i32) -> (b: bool)
        ensures
            b == self.spec_fits(depth as int),
        decreases self,
    {
        if self.is_file() {
            return true;
        }
        let mut i: usize = 0;
        while i < self.child_entries.len()
            invariant
                i <= self.child_entries.len(),
                self.entry_type == EntryType::D,
                forall|k: int|
                    0 <= k < i ==> ((#[trigger] self.child_entries@[k]).entry_type == EntryType::D
                        ==> depth < i32::MAX && self.child_entries@[k].spec_fits(depth + 1)),
            decreases self.child_entries.len() - i,
        {
            let child = &self.child_entries[i];
            if child.is_dir() {
                if depth == i32::MAX {
                    return false;
                }
                if !child.fits(depth + 1) {
                    return false;
                }
            }
            i += 1;
        }
        true
    }

    /// Whether the tree holds an object of the given path and kind, at
    /// this node or below it.
    pub open spec fn holds(&self, path: Seq<Seq<char>>, kind: EntryType) -> bool
        decreases self,
    {
        ||| (self.path@ == path && self.entry_type == kind)
        ||| (self.entry_type == EntryType::D && any_holds(self.child_entries@, path, kind))
    }

    /// Whether a traversal rooted here has an object of the given path and
    /// kind to visit: the root itself if it is a file, else anything below
    /// the root.
    pub open spec fn has_entry(&self, path: Seq<Seq<char>>, kind: EntryType) -> bool {
        if self.entry_type == EntryType::D {
            any_holds(self.child_entries@, path, kind)
        } else {
            self.path@ == path && kind == EntryType::F
        }
    }

    /// Whether the snapshot is one that a filesystem can show: a file has
    /// no children, each child lies directly under its parent and is named
    /// by its last component, no two children of one directory share a
    /// name, and all this holds below as well.
    pub open spec fn wf(&self) -> bool
        decreases self,
    {
        &&& self.file_name@ == file_name_of(self.path@)
        &&& self.entry_type == EntryType::F ==> self.child_entries@.len() == 0
        &&& forall|k: int|
            0 <= k < self.child_entries@.len() ==> (#[trigger] self.child_entries@[k]).path@
                == self.path@.push(self.child_entries@[k].file_name@)
        &&& forall|j: int, k: int|
            0 <= j < k < self.child_entries@.len() ==> (#[trigger] self.child_entries@[j]).file_name@
                != (#[trigger] self.child_entries@[k]).file_name@
        &&& forall|k: int|
            0 <= k < self.child_entries@.len() ==> (#[trigger] self.child_entries@[k]).wf()
    }
}

/// Well-formedness does not look at the depth that the nodes carry.
pub proof fn lemma_same_but_depth_wf(a: DirEntry, b: DirEntry)
    requires
        a.same_but_depth(b),
    ensures
        a.wf() == b.wf(),
    decreases a,
{
    assert forall|k: int| 0 <= k < a.child_entries@.len() implies (#[trigger] a.child_entries@[k]).wf()
        == b.child_entries@[k].wf() && a.child_entries@[k].path == b.child_entries@[k].path
        && a.child_entries@[k].file_name == b.child_entries@[k].file_name by {
        lemma_same_but_depth_wf(a.child_entries@[k], b.child_entries@[k]);
    }
    if a.wf() {
        assert forall|k: int| 0 <= k < b.child_entries@.len() implies (#[trigger] b.child_entries@[k]).wf()
            && b.child_entries@[k].path@ == b.path@.push(b.child_entries@[k].file_name@) by {
            assert(a.child_entries@[k].wf());
        }
        assert forall|j: int, k: int| 0 <= j < k < b.child_entries@.len() implies (
        #[trigger] b.child_entries@[j]).file_name@ != (#[trigger] b.child_entries@[k]).file_name@ by {
            assert(a.child_entries@[j].file_name@ != a.child_entries@[k].file_name@);
        }
    }
    if b.wf() {
        assert forall|k: int| 0 <= k < a.child_entries@.len() implies (#[trigger] a.child_entries@[k]).wf()
            && a.child_entries@[k].path@ == a.path@.push(a.child_entries@[k].file_name@) by {
            assert(b.child_entries@[k].wf());
        }
        assert forall|j: int, k: int| 0 <= j < k < a.child_entries@.len() implies (
        #[trigger] a.child_entries@[j]).file_name@ != (#[trigger] a.child_entries@[k]).file_name@ by {
            assert(b.child_entries@[j].file_name@ != b.child_entries@[k].file_name@);
        }
    }
}

/// The depth counter holds every depth of a tree whose depths count the
/// directories above each node.
pub proof fn lemma_stamped_levels_fit(node: DirEntry, depth: int)
    requires
        node.stamped(depth),
    ensures
        node.spec_levels_fit(depth),
    decreases node,
{
    assert forall|k: int| 0 <= k < node.child_entries@.len() implies (
    #[trigger] node.child_entries@[k]).spec_levels_fit(depth + 1) by {
        lemma_stamped_levels_fit(node.child_entries@[k], depth + 1);
    }
}

/// A tree whose depths count the directories above each node can be
/// traversed from the depth of its root: the depth counter holds every
/// depth that the traversal counts.
pub proof fn lemma_stamped_fits(node: DirEntry, depth: int)
    requires
        node.stamped(depth),
    ensures
        node.spec_fits(depth),
    decreases node,
{
    assert forall|k: int| 0 <= k < node.child_entries@.len() implies depth < i32::MAX && (
    #[trigger] node.child_entries@[k]).spec_fits(depth + 1) by {
        assert(node.child_entries@[k].stamped(depth + 1));
        lemma_stamped_fits(node.child_entries@[k], depth + 1);
    }
}

/// Whether one of the trees holds an object of the given path and kind.
pub open spec fn any_holds(nodes: Seq<DirEntry>, path: Seq<Seq<char>>, kind: EntryType) -> bool
    decreases nodes,
{
    exists|k: int| 0 <= k < nodes.len() && (#[trigger] nodes[k]).holds(path, kind)
}

/// The walks of the given nodes, one after the other.
pub open spec fn walk_all(nodes: Seq<DirEntry>, depth: int) -> Seq<EntryView>
    decreases nodes,
{
    if nodes.len() == 0 {
        Seq::empty()
    } else {
        walk_all(nodes.drop_last(), depth) + nodes.last().walk(depth)
    }
}

} // verus!
