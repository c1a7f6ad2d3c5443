use vstd::prelude::*;
use crate::enums::entry_type::EntryType;
use crate::structs::entry::{any_holds, children_fit, walk_all, DirEntry, EntryView};

verus! {

/// Whether `a` is a leading part of `b` and shorter than `b`: the path `b`
/// lies below the path `a`.
pub open spec fn is_proper_prefix(a: Seq<Seq<char>>, b: Seq<Seq<char>>) -> bool {
    a.len() < b.len() && a.is_prefix_of(b)
}

/// No path occurs twice.
pub open spec fn distinct_paths(s: Seq<EntryView>) -> bool {
    forall|i: int, j: int| 0 <= i < j < s.len() ==> (#[trigger] s[i]).path != (#[trigger] s[j]).path
}

/// Whatever lies below an entry comes after it.
pub open spec fn parents_first(s: Seq<EntryView>) -> bool {
    forall|i: int, j: int|
        0 <= i < s.len() && 0 <= j < s.len() && is_proper_prefix(
            (#[trigger] s[i]).path,
            (#[trigger] s[j]).path,
        ) ==> i < j
}

/// Whether an entry of the given path and kind occurs.
pub open spec fn occurs(s: Seq<EntryView>, path: Seq<Seq<char>>, kind: EntryType) -> bool {
    exists|i: int| 0 <= i < s.len() && (#[trigger] s[i]).path == path && s[i].kind == kind
}

/// Every entry lies strictly below `base`, at the depth that its distance
/// from `base` gives when the children of `base` are at `depth`.
pub open spec fn below(s: Seq<EntryView>, base: Seq<Seq<char>>, depth: int) -> bool {
    forall|i: int|
        0 <= i < s.len() ==> {
            &&& is_proper_prefix(base, (#[trigger] s[i]).path)
            &&& s[i].depth == depth + s[i].path.len() - base.len() - 1
        }
}

/// Every entry lies at `base` or below it, at the depth that its distance
/// from `base` gives when `base` itself is at `depth`.
spec fn within(s: Seq<EntryView>, base: Seq<Seq<char>>, depth: int) -> bool {
    forall|i: int|
        0 <= i < s.len() ==> {
            &&& base.is_prefix_of((#[trigger] s[i]).path)
            &&& s[i].depth == depth + s[i].path.len() - base.len()
        }
}

/// No entry has `name` as its component at position `at`.
spec fn avoids(s: Seq<EntryView>, at: int, name: Seq<char>) -> bool {
    forall|i: int| 0 <= i < s.len() ==> (#[trigger] s[i]).path[at] != name
}

/// None of the nodes is called `name`.
spec fn absent(nodes: Seq<DirEntry>, name: Seq<char>) -> bool {
    forall|k: int| 0 <= k < nodes.len() ==> (#[trigger] nodes[k]).file_name@ != name
}

/// A leading part agrees with the whole at each of its positions.
proof fn lemma_prefix_index(a: Seq<Seq<char>>, b: Seq<Seq<char>>, i: int)
    requires
        a.is_prefix_of(b),
        0 <= i < a.len(),
    ensures
        a[i] == b[i],
{
    assert(a[i] == b.subrange(0, a.len() as int)[i]);
}

/// A leading part of a leading part is a leading part.
proof fn lemma_prefix_transitive(a: Seq<Seq<char>>, b: Seq<Seq<char>>, c: Seq<Seq<char>>)
    requires
        a.is_prefix_of(b),
        b.is_prefix_of(c),
    ensures
        a.is_prefix_of(c),
{
    assert forall|i: int| 0 <= i < a.len() implies a[i] == c.subrange(0, a.len() as int)[i] by {
        lemma_prefix_index(a, b, i);
        lemma_prefix_index(b, c, i);
    }
    assert(a =~= c.subrange(0, a.len() as int));
}

/// A path is a leading part of each path directly under it.
proof fn lemma_push_prefix(base: Seq<Seq<char>>, name: Seq<char>)
    ensures
        base.is_prefix_of(base.push(name)),
{
    assert(base =~= base.push(name).subrange(0, base.len() as int));
}

/// What a directory's contents look like from the directory: a well-formed
/// node starts its walk with itself, and the rest lies strictly below it.
proof fn lemma_walk_shape(node: DirEntry, depth: int)
    requires
        node.wf(),
    ensures
        node.walk(depth).len() > 0,
        node.walk(depth)[0] == node.entry(depth),
        within(node.walk(depth), node.path@, depth),
        below(node.walk(depth).skip(1), node.path@, depth + 1),
    decreases node, 1int,
{
    let w = node.walk(depth);
    let base = node.path@;
    assert(base.is_prefix_of(base)) by {
        assert(base =~= base.subrange(0, base.len() as int));
    }
    if node.entry_type == EntryType::D {
        let rest = walk_all(node.child_entries@, depth + 1);
        lemma_walk_all_shape(node.child_entries@, base, depth + 1);
        assert(w.skip(1) =~= rest);
        assert forall|i: int| 0 <= i < w.len() implies {
            &&& base.is_prefix_of((#[trigger] w[i]).path)
            &&& w[i].depth == depth + w[i].path.len() - base.len()
        } by {
            if i > 0 {
                assert(w[i] == rest[i - 1]);
            }
        }
    } else {
        assert(w.skip(1) =~= Seq::<EntryView>::empty());
    }
}

/// The walks of the children of a directory at `base` lie strictly below
/// `base`.
proof fn lemma_walk_all_shape(nodes: Seq<DirEntry>, base: Seq<Seq<char>>, depth: int)
    requires
        children_fit(base, nodes),
        forall|k: int| 0 <= k < nodes.len() ==> (#[trigger] nodes[k]).wf(),
    ensures
        below(walk_all(nodes, depth), base, depth),
    decreases nodes, 0int,
{
    if nodes.len() > 0 {
        let front = nodes.drop_last();
        let last = nodes.last();
        let s1 = walk_all(front, depth);
        let s2 = last.walk(depth);
        lemma_front_fits(nodes, base);
        lemma_walk_all_shape(front, base, depth);
        assert(last == nodes[nodes.len() - 1]);
        lemma_walk_shape(last, depth);
        lemma_push_prefix(base, last.file_name@);
        let s = walk_all(nodes, depth);
        assert(s == s1 + s2);
        assert forall|i: int| 0 <= i < s.len() implies {
            &&& is_proper_prefix(base, (#[trigger] s[i]).path)
            &&& s[i].depth == depth + s[i].path.len() - base.len() - 1
        } by {
            if i < s1.len() {
                assert(s[i] == s1[i]);
            } else {
                let e = s2[i - s1.len()];
                assert(s[i] == e);
                lemma_prefix_transitive(base, last.path@, e.path);
            }
        }
    }
}

/// The front of a fitting list of children fits too, the last child has a
/// name that the front lacks, and what holds of all holds of the front.
proof fn lemma_front_fits(nodes: Seq<DirEntry>, base: Seq<Seq<char>>)
    requires
        nodes.len() > 0,
        children_fit(base, nodes),
        forall|k: int| 0 <= k < nodes.len() ==> (#[trigger] nodes[k]).wf(),
    ensures
        children_fit(base, nodes.drop_last()),
        forall|k: int| 0 <= k < nodes.drop_last().len() ==> (#[trigger] nodes.drop_last()[k]).wf(),
        absent(nodes.drop_last(), nodes.last().file_name@),
        nodes.last().wf(),
        nodes.last().path@ == base.push(nodes.last().file_name@),
{
    let front = nodes.drop_last();
    assert forall|k: int| 0 <= k < front.len() implies (#[trigger] front[k]).wf() by {
        assert(front[k] == nodes[k]);
    }
    assert forall|k: int| 0 <= k < front.len() implies (#[trigger] front[k]).path@ == base.push(
        front[k].file_name@,
    ) by {
        assert(front[k] == nodes[k]);
    }
    assert forall|j: int, k: int| 0 <= j < k < front.len() implies (#[trigger] front[j]).file_name@
        != (#[trigger] front[k]).file_name@ by {
        assert(front[j] == nodes[j]);
        assert(front[k] == nodes[k]);
    }
    assert(nodes.last() == nodes[nodes.len() - 1]);
    assert forall|k: int| 0 <= k < front.len() implies (#[trigger] front[k]).file_name@
        != nodes.last().file_name@ by {
        assert(front[k] == nodes[k]);
    }
}

/// Below a directory at `base`, the component right after `base` is the
/// name of one of the children: a name that no child has does not occur
/// there.
proof fn lemma_walk_all_avoids(
    nodes: Seq<DirEntry>,
    base: Seq<Seq<char>>,
    depth: int,
    name: Seq<char>,
)
    requires
        children_fit(base, nodes),
        forall|k: int| 0 <= k < nodes.len() ==> (#[trigger] nodes[k]).wf(),
        absent(nodes, name),
    ensures
        avoids(walk_all(nodes, depth), base.len() as int, name),
    decreases nodes.len(),
{
    if nodes.len() > 0 {
        let front = nodes.drop_last();
        let last = nodes.last();
        lemma_front_fits(nodes, base);
        assert(absent(front, name)) by {
            assert forall|k: int| 0 <= k < front.len() implies (#[trigger] front[k]).file_name@
                != name by {
                assert(front[k] == nodes[k]);
            }
        }
        lemma_walk_all_avoids(front, base, depth, name);
        lemma_walk_shape(last, depth);
        let s1 = walk_all(front, depth);
        let s2 = last.walk(depth);
        let s = walk_all(nodes, depth);
        assert(s == s1 + s2);
        assert(last == nodes[nodes.len() - 1]);
        assert forall|i: int| 0 <= i < s.len() implies (#[trigger] s[i]).path[base.len() as int]
            != name by {
            if i < s1.len() {
                assert(s[i] == s1[i]);
            } else {
                let e = s2[i - s1.len()];
                assert(s[i] == e);
                lemma_prefix_index(last.path@, e.path, base.len() as int);
            }
        }
    }
}

/// Two runs of entries that part ways at position `at`, each in order by
/// itself, are in order one after the other.
proof fn lemma_order_of_siblings(s1: Seq<EntryView>, s2: Seq<EntryView>, at: int, name: Seq<char>)
    requires
        distinct_paths(s1),
        distinct_paths(s2),
        parents_first(s1),
        parents_first(s2),
        0 <= at,
        forall|i: int| 0 <= i < s1.len() ==> at < (#[trigger] s1[i]).path.len(),
        forall|i: int| 0 <= i < s2.len() ==> at < (#[trigger] s2[i]).path.len(),
        avoids(s1, at, name),
        forall|i: int| 0 <= i < s2.len() ==> (#[trigger] s2[i]).path[at] == name,
    ensures
        distinct_paths(s1 + s2),
        parents_first(s1 + s2),
{
    let s = s1 + s2;
    assert forall|i: int, j: int| 0 <= i < j < s.len() implies (#[trigger] s[i]).path
        != (#[trigger] s[j]).path by {
        if j < s1.len() {
            assert(s[i] == s1[i] && s[j] == s1[j]);
        } else if i >= s1.len() {
            assert(s[i] == s2[i - s1.len()] && s[j] == s2[j - s1.len()]);
        } else {
            assert(s[i] == s1[i] && s[j] == s2[j - s1.len()]);
            assert(s[i].path[at] != s[j].path[at]);
        }
    }
    assert forall|i: int, j: int|
        0 <= i < s.len() && 0 <= j < s.len() && is_proper_prefix(
            (#[trigger] s[i]).path,
            (#[trigger] s[j]).path,
        ) implies i < j by {
        if i < s1.len() && j < s1.len() {
            assert(s[i] == s1[i] && s[j] == s1[j]);
        } else if i >= s1.len() && j >= s1.len() {
            assert(s[i] == s2[i - s1.len()] && s[j] == s2[j - s1.len()]);
        } else if i >= s1.len() {
            assert(s[i] == s2[i - s1.len()] && s[j] == s1[j]);
            lemma_prefix_index(s[i].path, s[j].path, at);
        }
    }
}

/// An entry followed by entries that all lie strictly below it, these in
/// order by themselves, is in order.
proof fn lemma_order_of_parent(e: EntryView, s2: Seq<EntryView>)
    requires
        distinct_paths(s2),
        parents_first(s2),
        forall|i: int| 0 <= i < s2.len() ==> e.path.len() < (#[trigger] s2[i]).path.len(),
    ensures
        distinct_paths(seq![e] + s2),
        parents_first(seq![e] + s2),
{
    let s = seq![e] + s2;
    assert forall|i: int, j: int| 0 <= i < j < s.len() implies (#[trigger] s[i]).path
        != (#[trigger] s[j]).path by {
        assert(s[j] == s2[j - 1]);
        if i > 0 {
            assert(s[i] == s2[i - 1]);
        }
    }
    assert forall|i: int, j: int|
        0 <= i < s.len() && 0 <= j < s.len() && is_proper_prefix(
            (#[trigger] s[i]).path,
            (#[trigger] s[j]).path,
        ) implies i < j by {
        if i > 0 {
            assert(s[i] == s2[i - 1]);
            if j > 0 {
                assert(s[j] == s2[j - 1]);
            }
        }
    }
}

/// The walk of a well-formed node holds no path twice and lists every
/// entry before what lies below it.
proof fn lemma_walk_order(node: DirEntry, depth: int)
    requires
        node.wf(),
    ensures
        distinct_paths(node.walk(depth)),
        parents_first(node.walk(depth)),
    decreases node, 1int,
{
    if node.entry_type == EntryType::D {
        let rest = walk_all(node.child_entries@, depth + 1);
        lemma_walk_all_order(node.child_entries@, node.path@, depth + 1);
        lemma_walk_all_shape(node.child_entries@, node.path@, depth + 1);
        lemma_order_of_parent(node.entry(depth), rest);
    } else {
        lemma_order_of_parent(node.entry(depth), Seq::empty());
        assert(seq![node.entry(depth)] + Seq::<EntryView>::empty() =~= seq![node.entry(depth)]);
    }
}

/// The walks of the children of one directory hold no path twice and list
/// every entry before what lies below it.
proof fn lemma_walk_all_order(nodes: Seq<DirEntry>, base: Seq<Seq<char>>, depth: int)
    requires
        children_fit(base, nodes),
        forall|k: int| 0 <= k < nodes.len() ==> (#[trigger] nodes[k]).wf(),
    ensures
        distinct_paths(walk_all(nodes, depth)),
        parents_first(walk_all(nodes, depth)),
    decreases nodes, 0int,
{
    if nodes.len() > 0 {
        let front = nodes.drop_last();
        let last = nodes.last();
        let at = base.len() as int;
        lemma_front_fits(nodes, base);
        lemma_walk_all_order(front, base, depth);
        lemma_walk_order(last, depth);
        lemma_walk_all_shape(front, base, depth);
        lemma_walk_all_avoids(front, base, depth, last.file_name@);
        lemma_walk_shape(last, depth);
        let s1 = walk_all(front, depth);
        let s2 = last.walk(depth);
        assert forall|i: int| 0 <= i < s2.len() implies at < (#[trigger] s2[i]).path.len()
            && s2[i].path[at] == last.file_name@ by {
            lemma_prefix_index(last.path@, s2[i].path, at);
        }
        lemma_order_of_siblings(s1, s2, at, last.file_name@);
    }
}

/// An entry occurs in a walk exactly if the tree holds it.
proof fn lemma_walk_occurs(node: DirEntry, depth: int, path: Seq<Seq<char>>, kind: EntryType)
    ensures
        occurs(node.walk(depth), path, kind) == node.holds(path, kind),
    decreases node, 1int,
{
    let w = node.walk(depth);
    assert(w[0] == node.entry(depth));
    if node.entry_type == EntryType::D {
        let rest = walk_all(node.child_entries@, depth + 1);
        lemma_walk_all_occurs(node.child_entries@, depth + 1, path, kind);
        if occurs(w, path, kind) {
            let i = choose|i: int| 0 <= i < w.len() && (#[trigger] w[i]).path == path && w[i].kind == kind;
            if i > 0 {
                assert(rest[i - 1] == w[i]);
                assert(occurs(rest, path, kind));
            }
        }
        if node.holds(path, kind) {
            if node.path@ == path && node.entry_type == kind {
                assert(w[0].path == path && w[0].kind == kind);
            } else {
                let i = choose|i: int| 0 <= i < rest.len() && (#[trigger] rest[i]).path == path && rest[i].kind == kind;
                assert(w[i + 1] == rest[i]);
            }
        }
    } else {
        if node.holds(path, kind) {
            assert(w[0].path == path && w[0].kind == kind);
        }
    }
}

/// An entry occurs in the walks of some trees exactly if one of the trees
/// holds it.
proof fn lemma_walk_all_occurs(
    nodes: Seq<DirEntry>,
    depth: int,
    path: Seq<Seq<char>>,
    kind: EntryType,
)
    ensures
        occurs(walk_all(nodes, depth), path, kind) == any_holds(nodes, path, kind),
    decreases nodes, 0int,
{
    if nodes.len() > 0 {
        let front = nodes.drop_last();
        let last = nodes.last();
        let s1 = walk_all(front, depth);
        let s2 = last.walk(depth);
        let s = walk_all(nodes, depth);
        assert(s == s1 + s2);
        lemma_walk_all_occurs(front, depth, path, kind);
        lemma_walk_occurs(last, depth, path, kind);
        assert(last == nodes[nodes.len() - 1]);
        if occurs(s, path, kind) {
            let i = choose|i: int| 0 <= i < s.len() && (#[trigger] s[i]).path == path && s[i].kind == kind;
            if i < s1.len() {
                assert(s1[i] == s[i]);
                assert(occurs(s1, path, kind));
                let k = choose|k: int| 0 <= k < front.len() && (#[trigger] front[k]).holds(path, kind);
                assert(nodes[k] == front[k]);
            } else {
                assert(s2[i - s1.len()] == s[i]);
                assert(occurs(s2, path, kind));
            }
        }
        if any_holds(nodes, path, kind) {
            let k = choose|k: int| 0 <= k < nodes.len() && (#[trigger] nodes[k]).holds(path, kind);
            if k < front.len() {
                assert(front[k] == nodes[k]);
                assert(any_holds(front, path, kind));
                let i = choose|i: int| 0 <= i < s1.len() && (#[trigger] s1[i]).path == path && s1[i].kind == kind;
                assert(s[i] == s1[i]);
            } else {
                let i = choose|i: int| 0 <= i < s2.len() && (#[trigger] s2[i]).path == path && s2[i].kind == kind;
                assert(s[i + s1.len()] == s2[i]);
            }
        }
    }
}

/// A traversal visits every entry exactly once: what it yields holds no
/// path twice, and an object occurs in it exactly if the snapshot has it
/// to visit.
pub proof fn lemma_every_entry_once(
    root: DirEntry,
    depth: int,
    path: Seq<Seq<char>>,
    kind: EntryType,
)
    requires
        root.wf(),
    ensures
        distinct_paths(root.listing(depth)),
        occurs(root.listing(depth), path, kind) == root.has_entry(path, kind),
{
    if root.entry_type == EntryType::D {
        lemma_walk_all_order(root.child_entries@, root.path@, depth);
        lemma_walk_all_occurs(root.child_entries@, depth, path, kind);
    } else {
        let s = root.listing(depth);
        if root.has_entry(path, kind) {
            assert(s[0].path == path && s[0].kind == kind);
        }
    }
}

/// A traversal is in pre-order: whatever lies below an entry comes after
/// it, so every directory precedes all of its descendants.
pub proof fn lemma_parents_first(root: DirEntry, depth: int)
    requires
        root.wf(),
    ensures
        parents_first(root.listing(depth)),
{
    if root.entry_type == EntryType::D {
        lemma_walk_all_order(root.child_entries@, root.path@, depth);
    }
}

/// The depth of an entry is the number of directories between it and the
/// root of the traversal, counted from the depth of the root's children.
pub proof fn lemma_depth_counts_ancestors(root: DirEntry, depth: int)
    requires
        root.wf(),
        root.entry_type == EntryType::D,
    ensures
        below(root.listing(depth), root.path@, depth),
{
    lemma_walk_all_shape(root.child_entries@, root.path@, depth);
}

} // verus!
