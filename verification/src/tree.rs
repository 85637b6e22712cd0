//! The directory tree of the file-tree section: a recursive tree whose
//! children are kept sorted by name (so output is alphabetical without
//! a sort step), rendered with box-drawing connectors.

use vstd::prelude::*;

use crate::layout::{
    lemma_prefix_trans, lemma_sc_centered_same_shape, lemma_sc_lines_n_same_shape, sc_break,
    sc_centered, sc_lines_n, sc_same_shape, sc_vspace, FontVariant, PageBuilder, SectionCursor,
    Span,
};
use crate::text::{spec_split, split_char, str_eq};
use crate::types::RgbColor;

verus! {

/// Is `a` lexicographically before `b` (by character value)?
pub open spec fn spec_str_lt(a: Seq<char>, b: Seq<char>) -> bool
    decreases a.len(),
{
    if b.len() == 0 {
        false
    } else if a.len() == 0 {
        true
    } else if a[0] != b[0] {
        (a[0] as u32) < (b[0] as u32)
    } else {
        spec_str_lt(a.skip(1), b.skip(1))
    }
}

/// Compares two strings lexicographically by character value.
pub fn str_lt(a: &str, b: &str) -> (r: bool)
    ensures
        r == spec_str_lt(a@, b@),
{
    let na = a.unicode_len();
    let nb = b.unicode_len();
    let mut i: usize = 0;
    proof {
        assert(a@.skip(0) =~= a@);
        assert(b@.skip(0) =~= b@);
    }
    loop
        invariant
            na == a@.len(),
            nb == b@.len(),
            i <= na,
            i <= nb,
            spec_str_lt(a@, b@) == spec_str_lt(a@.skip(i as int), b@.skip(i as int)),
        ensures
            spec_str_lt(a@, b@) == spec_str_lt(a@.skip(i as int), b@.skip(i as int)),
            i <= na && i <= nb,
            i < na && i < nb ==> a@[i as int] != b@[i as int],
        decreases na - i,
    {
        if i >= na || i >= nb {
            break ;
        }
        let ca = a.get_char(i);
        let cb = b.get_char(i);
        if ca != cb {
            break ;
        }
        proof {
            let sa = a@.skip(i as int);
            let sb = b@.skip(i as int);
            assert(sa[0] == a@[i as int] && sb[0] == b@[i as int]);
            assert(sa.skip(1) =~= a@.skip(i + 1));
            assert(sb.skip(1) =~= b@.skip(i + 1));
        }
        i = i + 1;
    }
    if i >= na {
        proof {
            assert(a@.skip(i as int).len() == 0);
        }
        i < nb
    } else if i >= nb {
        false
    } else {
        let ca = a.get_char(i);
        let cb = b.get_char(i);
        proof {
            let sa = a@.skip(i as int);
            let sb = b@.skip(i as int);
            assert(sa[0] == a@[i as int] && sb[0] == b@[i as int]);
        }
        (ca as u32) < (cb as u32)
    }
}

/// A recursive directory tree. Leaves (files) are nodes whose subtree
/// has no children.
pub struct Tree {
    pub children: Vec<TreeNode>,
}

/// One named child of a tree node.
pub struct TreeNode {
    pub name: String,
    pub child: Tree,
}

/// One child of a tree shape: its name and its subtree's shape.
#[verifier::ext_equal]
pub ghost struct ShapeNode {
    pub name: Seq<char>,
    pub sub: TreeShape,
}

/// The mathematical shape of a directory tree: the children, in order,
/// as name–subtree pairs. [`Tree::shape`] projects a tree onto it, and
/// [`shape_insert`] mirrors [`Tree::insert`] exactly, so the tree a
/// path list builds has the one shape [`spec_tree_shape_of`] gives —
/// which is what lets two rendering passes over the same paths be
/// known to lay out the same lines.
#[verifier::ext_equal]
pub ghost struct TreeShape {
    pub children: Seq<ShapeNode>,
}

/// The shape of an empty tree.
pub open spec fn shape_empty() -> TreeShape {
    TreeShape { children: Seq::empty() }
}

impl Tree {
    /// This tree's shape: names and subtree shapes, in child order.
    pub open spec fn shape(self) -> TreeShape
        decreases self,
    {
        TreeShape {
            children: Seq::new(
                self.children@.len(),
                |i: int|
                    ShapeNode {
                        name: self.children@[i].name@,
                        sub: if 0 <= i < self.children@.len() {
                            self.children@[i].child.shape()
                        } else {
                            shape_empty()
                        },
                    },
            ),
        }
    }
}

/// The first index at or after `i` of a child of `cs` whose name is not
/// lexicographically before `name` (or `cs.len()`): the sorted position
/// at which [`Tree::insert`] finds or places a component.
pub open spec fn shape_find(cs: Seq<ShapeNode>, name: Seq<char>, i: int) -> int
    decreases cs.len() - i,
{
    if i < 0 || i >= cs.len() {
        cs.len() as int
    } else if spec_str_lt(cs[i].name, name) {
        shape_find(cs, name, i + 1)
    } else {
        i
    }
}

/// The shape after inserting the path tail `parts[k..]`: find the
/// component's sorted position, then descend into an existing child of
/// that name or splice in a fresh one — the exact spec-level mirror of
/// the executable insertion.
pub open spec fn shape_insert(t: TreeShape, parts: Seq<Seq<char>>, k: int) -> TreeShape
    decreases parts.len() - k,
{
    if k >= parts.len() {
        t
    } else {
        let pos = shape_find(t.children, parts[k], 0);
        if pos < t.children.len() && t.children[pos].name == parts[k] {
            TreeShape {
                children: t.children.update(
                    pos,
                    ShapeNode {
                        name: parts[k],
                        sub: shape_insert(t.children[pos].sub, parts, k + 1),
                    },
                ),
            }
        } else {
            TreeShape {
                children: t.children.insert(
                    pos,
                    ShapeNode { name: parts[k], sub: shape_insert(shape_empty(), parts, k + 1) },
                ),
            }
        }
    }
}

/// A scan that saw only smaller names up to `p` and a not-smaller name
/// (or the end) at `p` stopped exactly at [`shape_find`]'s index.
proof fn lemma_shape_find_pins(cs: Seq<ShapeNode>, name: Seq<char>, i: int, p: int)
    requires
        0 <= i <= p <= cs.len(),
        forall|j: int| i <= j < p ==> spec_str_lt((#[trigger] cs[j]).name, name),
        p < cs.len() ==> !spec_str_lt(cs[p].name, name),
    ensures
        shape_find(cs, name, i) == p,
    decreases p - i,
{
    if i < p {
        lemma_shape_find_pins(cs, name, i + 1, p);
    }
}

impl Tree {
    /// Children are strictly sorted by name at every level, so names
    /// are unique and iteration is alphabetical.
    pub open spec fn wf(self) -> bool
        decreases self,
    {
        &&& (forall|i: int, j: int|
            0 <= i < j < self.children@.len() ==> spec_str_lt(
                (#[trigger] self.children@[i]).name@,
                (#[trigger] self.children@[j]).name@,
            ))
        &&& (forall|i: int|
            0 <= i < self.children@.len() ==> (#[trigger] self.children@[i]).child.wf())
    }

    /// Does the tree contain the path `parts[k..]`?
    pub open spec fn spec_contains_path(self, parts: Seq<Seq<char>>, k: int) -> bool
        decreases self,
    {
        if k >= parts.len() {
            true
        } else {
            exists|i: int|
                0 <= i < self.children@.len() && (#[trigger] self.children@[i]).name@ == parts[k]
                    && self.children@[i].child.spec_contains_path(parts, k + 1)
        }
    }

    /// An empty tree.
    pub fn new() -> (r: Tree)
        ensures
            r.wf(),
            r.children@.len() == 0,
    {
        Tree { children: Vec::new() }
    }

    /// Inserts the path `parts` (one component per element): every
    /// component becomes a child of the previous one; existing nodes
    /// are reused. Afterwards the tree's shape is exactly
    /// [`shape_insert`] of the old shape — in particular it contains
    /// the inserted path, every path it contained before, and nothing
    /// else: any contained path is an old one or a prefix of the
    /// inserted one, so inserting a path twice leaves the
    /// contained-path set unchanged.
    pub fn insert(&mut self, parts: &Vec<String>)
        requires
            old(self).wf(),
        ensures
            final(self).wf(),
            final(self).shape() == shape_insert(old(self).shape(), parts.deep_view(), 0),
            final(self).spec_contains_path(parts.deep_view(), 0),
            forall|q: Seq<Seq<char>>, j: int|
                old(self).spec_contains_path(q, j) ==> final(self).spec_contains_path(q, j),
            forall|q: Seq<Seq<char>>, j: int|
                final(self).spec_contains_path(q, j) ==> old(self).spec_contains_path(q, j)
                    || spec_suffix_prefix(q, j, parts.deep_view(), 0),
    {
        self.insert_from(parts, 0);
    }

    fn insert_from(&mut self, parts: &Vec<String>, k: usize)
        requires
            old(self).wf(),
            k <= parts@.len(),
        ensures
            final(self).wf(),
            final(self).shape() == shape_insert(old(self).shape(), parts.deep_view(), k as int),
            final(self).spec_contains_path(parts.deep_view(), k as int),
            forall|q: Seq<Seq<char>>, j: int|
                old(self).spec_contains_path(q, j) ==> final(self).spec_contains_path(q, j),
            forall|q: Seq<Seq<char>>, j: int|
                final(self).spec_contains_path(q, j) ==> old(self).spec_contains_path(q, j)
                    || spec_suffix_prefix(q, j, parts.deep_view(), k as int),
        decreases parts@.len() - k,
    {
        if k >= parts.len() {
            proof {
                assert(parts.deep_view().len() == parts@.len());
            }
            return ;
        }
        let name = &parts[k];
        proof {
            assert(parts.deep_view()[k as int] == parts@[k as int]@);
        }
        // Find the first child whose name is not before `name`.
        let mut pos: usize = 0;
        loop
            invariant
                pos <= self.children@.len(),
                forall|i: int|
                    0 <= i < pos ==> spec_str_lt((#[trigger] self.children@[i]).name@, name@),
            ensures
                pos <= self.children@.len(),
                forall|i: int|
                    0 <= i < pos ==> spec_str_lt((#[trigger] self.children@[i]).name@, name@),
                pos < self.children@.len() ==> !spec_str_lt(self.children@[pos as int].name@, name@),
            decreases self.children@.len() - pos,
        {
            if pos >= self.children.len() {
                break ;
            }
            if !str_lt(self.children[pos].name.as_str(), name.as_str()) {
                break ;
            }
            pos = pos + 1;
        }
        let found = if pos < self.children.len() {
            str_eq(self.children[pos].name.as_str(), name.as_str())
        } else {
            false
        };
        if found {
            let ghost before = *self;
            let mut node = self.children.remove(pos);
            let ghost sub0 = node.child;
            node.child.insert_from(parts, k + 1);
            self.children.insert(pos, node);
            proof {
                assert(self.children@ =~= before.children@.update(pos as int, self.children@[pos as int]));
                lemma_update_preserves(before, *self, pos as int, sub0, parts.deep_view(), k as int);
                let sh0 = before.shape();
                let pv = parts.deep_view();
                assert forall|j: int| 0 <= j < pos implies spec_str_lt(
                    (#[trigger] sh0.children[j]).name,
                    pv[k as int],
                ) by {
                    assert(sh0.children[j].name == before.children@[j].name@);
                }
                lemma_shape_find_pins(sh0.children, pv[k as int], 0, pos as int);
                assert(sh0.children[pos as int].name == pv[k as int]);
                assert(sub0.shape() == sh0.children[pos as int].sub);
                let new_node = ShapeNode {
                    name: pv[k as int],
                    sub: shape_insert(sh0.children[pos as int].sub, pv, k + 1),
                };
                assert forall|j: int|
                    0 <= j < self.children@.len() implies #[trigger] self.shape().children[j]
                    == sh0.children.update(pos as int, new_node)[j] by {
                    if j != pos {
                        assert(self.children@[j] == before.children@[j]);
                    } else {
                        assert(self.children@[pos as int].name@ == pv[k as int]);
                        assert(self.children@[pos as int].child.shape() == new_node.sub);
                    }
                }
                assert(self.shape().children =~= sh0.children.update(pos as int, new_node));
                assert(self.shape() == shape_insert(sh0, pv, k as int));
            }
        } else {
            let mut sub = Tree { children: Vec::new() };
            let ghost sub_empty = sub;
            sub.insert_from(parts, k + 1);
            let node = TreeNode { name: name.clone(), child: sub };
            let ghost node_g = node;
            let ghost before = *self;
            self.children.insert(pos, node);
            proof {
                assert forall|q: Seq<Seq<char>>, j: int|
                    self.children@[pos as int].child.spec_contains_path(q, j)
                        implies spec_suffix_prefix(q, j, parts.deep_view(), k + 1) || j
                        >= q.len() by {
                    if j < q.len() {
                        assert(!sub_empty.spec_contains_path(q, j));
                    }
                }
                lemma_insert_preserves(before, *self, pos as int, parts.deep_view(), k as int);
                let sh0 = before.shape();
                let pv = parts.deep_view();
                assert(sub_empty.shape().children =~= shape_empty().children);
                assert(sub_empty.shape() == shape_empty());
                assert forall|j: int| 0 <= j < pos implies spec_str_lt(
                    (#[trigger] sh0.children[j]).name,
                    pv[k as int],
                ) by {
                    assert(sh0.children[j].name == before.children@[j].name@);
                }
                if (pos as int) < sh0.children.len() {
                    assert(sh0.children[pos as int].name == before.children@[pos as int].name@);
                }
                lemma_shape_find_pins(sh0.children, pv[k as int], 0, pos as int);
                let new_node = ShapeNode {
                    name: pv[k as int],
                    sub: shape_insert(shape_empty(), pv, k + 1),
                };
                sh0.children.insert_ensures(pos as int, new_node);
                before.children@.insert_ensures(pos as int, node_g);
                assert forall|j: int|
                    0 <= j < self.children@.len() implies #[trigger] self.shape().children[j]
                    == sh0.children.insert(pos as int, new_node)[j] by {
                    if j < pos {
                        assert(self.children@[j] == before.children@[j]);
                        assert(sh0.children.insert(pos as int, new_node)[j] == sh0.children[j]);
                    } else if j == pos {
                        assert(self.children@[j] == node_g);
                        assert(node_g.child.shape() == new_node.sub);
                    } else {
                        assert(self.children@[j] == before.children@[j - 1]);
                        assert(sh0.children.insert(pos as int, new_node)[(j - 1) + 1]
                            == sh0.children[j - 1]);
                    }
                }
                assert(self.shape().children =~= sh0.children.insert(pos as int, new_node));
                assert(self.shape() == shape_insert(sh0, pv, k as int));
            }
        }
    }
}

/// The rendered lines of the children of `t` from index `i` on: each
/// child contributes its own connector line (a corner for the last
/// child, a tee otherwise) and, indented, the lines of its subtree.
pub open spec fn spec_tree_lines(t: Tree, i: int, prefix: Seq<char>) -> Seq<Seq<char>>
    decreases t, t.children@.len() - i,
{
    if i < 0 || i >= t.children@.len() {
        Seq::empty()
    } else {
        let node = t.children@[i];
        let last = i == t.children@.len() - 1;
        let connector = if last {
            "\u{2514}\u{2500}\u{2500} "@
        } else {
            "\u{251C}\u{2500}\u{2500} "@
        };
        let extension = if last {
            "    "@
        } else {
            "\u{2502}   "@
        };
        seq![prefix + connector + node.name@] + spec_tree_lines(node.child, 0, prefix + extension)
            + spec_tree_lines(t, i + 1, prefix)
    }
}

impl Tree {
    /// Renders the tree as indented lines with box-drawing connectors;
    /// `prefix` is prepended to every line.
    pub fn to_lines(&self, prefix: &str) -> (r: Vec<String>)
        ensures
            r.deep_view() == spec_tree_lines(*self, 0, prefix@),
        decreases *self,
    {
        let mut out: Vec<String> = Vec::new();
        let n = self.children.len();
        let mut i: usize = n;
        proof {
            assert(spec_tree_lines(*self, n as int, prefix@) =~= Seq::<Seq<char>>::empty());
            assert(out.deep_view() =~= spec_tree_lines(*self, n as int, prefix@));
        }
        // Children are rendered back to front so each step prepends,
        // matching the recursive definition.
        while i > 0
            invariant
                i <= n,
                n == self.children@.len(),
                out.deep_view() == spec_tree_lines(*self, i as int, prefix@),
            decreases i,
        {
            i = i - 1;
            let node = &self.children[i];
            let last = i == n - 1;
            let mut line = prefix.to_owned();
            if last {
                line.append("\u{2514}\u{2500}\u{2500} ");
            } else {
                line.append("\u{251C}\u{2500}\u{2500} ");
            }
            line.append(node.name.as_str());
            let mut ext = prefix.to_owned();
            if last {
                ext.append("    ");
            } else {
                ext.append("\u{2502}   ");
            }
            let sub = node.child.to_lines(ext.as_str());
            let mut fresh: Vec<String> = Vec::new();
            fresh.push(line);
            let mut k: usize = 0;
            while k < sub.len()
                invariant
                    k <= sub@.len(),
                    fresh.deep_view() == seq![prefix@ + (if i == n - 1 {
                        "\u{2514}\u{2500}\u{2500} "@
                    } else {
                        "\u{251C}\u{2500}\u{2500} "@
                    }) + self.children@[i as int].name@] + sub.deep_view().take(k as int),
                    n == self.children@.len(),
                    i < n,
                    sub.deep_view() == spec_tree_lines(
                        self.children@[i as int].child,
                        0,
                        prefix@ + (if i == n - 1 {
                            "    "@
                        } else {
                            "\u{2502}   "@
                        }),
                    ),
                decreases sub@.len() - k,
            {
                let ghost f0 = fresh.deep_view();
                fresh.push(sub[k].clone());
                proof {
                    assert(fresh.deep_view() =~= f0.push(sub.deep_view()[k as int]));
                    assert(sub.deep_view().take(k + 1) =~= sub.deep_view().take(k as int).push(
                        sub.deep_view()[k as int],
                    ));
                }
                k = k + 1;
            }
            let mut m: usize = 0;
            let ghost fresh_view = fresh.deep_view();
            let ghost out_before = out.deep_view();
            while m < out.len()
                invariant
                    m <= out@.len(),
                    out.deep_view() == out_before,
                    fresh.deep_view() == fresh_view + out_before.take(m as int),
                decreases out@.len() - m,
            {
                let ghost f0 = fresh.deep_view();
                fresh.push(out[m].clone());
                proof {
                    assert(fresh.deep_view() =~= f0.push(out_before[m as int]));
                    assert(out_before.take(m + 1) =~= out_before.take(m as int).push(
                        out_before[m as int],
                    ));
                    assert(fresh.deep_view() =~= fresh_view + out_before.take(m + 1));
                }
                m = m + 1;
            }
            out = fresh;
            proof {
                assert(sub.deep_view().take(sub.deep_view().len() as int) =~= sub.deep_view());
                assert(out_before.take(out_before.len() as int) =~= out_before);
                assert(out.deep_view() =~= spec_tree_lines(*self, i as int, prefix@));
            }
        }
        out
    }
}

/// The rendered lines of a shape's children from index `i` on: the
/// mirror of [`spec_tree_lines`] on shapes.
pub open spec fn shape_lines(t: TreeShape, i: int, prefix: Seq<char>) -> Seq<Seq<char>>
    decreases t, t.children.len() - i,
{
    if i < 0 || i >= t.children.len() {
        Seq::empty()
    } else {
        let node = t.children[i];
        let last = i == t.children.len() - 1;
        let connector = if last {
            "\u{2514}\u{2500}\u{2500} "@
        } else {
            "\u{251C}\u{2500}\u{2500} "@
        };
        let extension = if last {
            "    "@
        } else {
            "\u{2502}   "@
        };
        seq![prefix + connector + node.name] + shape_lines(node.sub, 0, prefix + extension)
            + shape_lines(t, i + 1, prefix)
    }
}

/// A tree's rendered lines depend on the tree only through its shape:
/// they are exactly the shape's lines.
pub proof fn lemma_tree_lines_shape(t: Tree, i: int, prefix: Seq<char>)
    ensures
        spec_tree_lines(t, i, prefix) == shape_lines(t.shape(), i, prefix),
    decreases t, t.children@.len() - i,
{
    if i < 0 || i >= t.children@.len() {
        assert(t.shape().children.len() == t.children@.len());
    } else {
        let node = t.children@[i];
        let last = i == t.children@.len() - 1;
        let extension = if last {
            "    "@
        } else {
            "\u{2502}   "@
        };
        lemma_tree_lines_shape(node.child, 0, prefix + extension);
        lemma_tree_lines_shape(t, i + 1, prefix);
        assert(t.shape().children[i].sub == node.child.shape());
        assert(t.shape().children[i].name == node.name@);
        assert(spec_tree_lines(t, i, prefix) =~= shape_lines(t.shape(), i, prefix));
    }
}

/// The shape of the tree that inserting the first `n` paths (each split
/// at '/'), in order, into an empty tree builds.
pub open spec fn spec_tree_shape_of(paths: Seq<Seq<char>>, n: int) -> TreeShape
    decreases n,
{
    if n <= 0 {
        shape_empty()
    } else {
        shape_insert(spec_tree_shape_of(paths, n - 1), spec_split(paths[n - 1], '/'), 0)
    }
}

/// The lines the file-tree section writes for a path list: the
/// box-drawing rendering of the tree its paths build.
pub open spec fn spec_tree_render_lines(paths: Seq<Seq<char>>) -> Seq<Seq<char>> {
    shape_lines(spec_tree_shape_of(paths, paths.len() as int), 0, Seq::empty())
}

/// Is the tail `q[j..]` a prefix of the tail `parts[k..]`? Such paths
/// (and only such) may appear when `parts[k..]` is inserted.
pub open spec fn spec_suffix_prefix(
    q: Seq<Seq<char>>,
    j: int,
    parts: Seq<Seq<char>>,
    k: int,
) -> bool {
    &&& q.len() - j <= parts.len() - k
    &&& forall|t: int| 0 <= t < q.len() - j ==> #[trigger] q[j + t] == parts[k + t]
}

/// After replacing the child at `pos` (same name) by a well-formed
/// subtree that kept its paths and gained `parts[k+1..]`, the whole
/// tree is well formed, kept its paths, contains `parts[k..]`, and
/// holds nothing but old paths and prefixes of the inserted one.
proof fn lemma_update_preserves(
    before: Tree,
    after: Tree,
    pos: int,
    sub0: Tree,
    parts: Seq<Seq<char>>,
    k: int,
)
    requires
        before.wf(),
        0 <= pos < before.children@.len(),
        after.children@.len() == before.children@.len(),
        forall|i: int|
            0 <= i < before.children@.len() && i != pos ==> after.children@[i]
                == before.children@[i],
        after.children@[pos].name@ == before.children@[pos].name@,
        after.children@[pos].child.wf(),
        sub0 == before.children@[pos].child,
        forall|q: Seq<Seq<char>>, j: int|
            sub0.spec_contains_path(q, j) ==> after.children@[pos].child.spec_contains_path(q, j),
        forall|q: Seq<Seq<char>>, j: int|
            after.children@[pos].child.spec_contains_path(q, j) ==> sub0.spec_contains_path(q, j)
                || spec_suffix_prefix(q, j, parts, k + 1),
        k < parts.len(),
        after.children@[pos].name@ == parts[k],
        after.children@[pos].child.spec_contains_path(parts, k + 1),
    ensures
        after.wf(),
        after.spec_contains_path(parts, k),
        forall|q: Seq<Seq<char>>, j: int|
            before.spec_contains_path(q, j) ==> after.spec_contains_path(q, j),
        forall|q: Seq<Seq<char>>, j: int|
            after.spec_contains_path(q, j) ==> before.spec_contains_path(q, j)
                || spec_suffix_prefix(q, j, parts, k),
{
    assert forall|q: Seq<Seq<char>>, j: int|
        before.spec_contains_path(q, j) implies after.spec_contains_path(q, j) by {
        if j < q.len() {
            let i = choose|i: int|
                0 <= i < before.children@.len() && (#[trigger] before.children@[i]).name@ == q[j]
                    && before.children@[i].child.spec_contains_path(q, j + 1);
            assert(after.children@[i].name@ == q[j]);
            assert(after.children@[i].child.spec_contains_path(q, j + 1));
        }
    }
    assert forall|q: Seq<Seq<char>>, j: int|
        after.spec_contains_path(q, j) implies before.spec_contains_path(q, j)
        || spec_suffix_prefix(q, j, parts, k) by {
        if j < q.len() {
            let i = choose|i: int|
                0 <= i < after.children@.len() && (#[trigger] after.children@[i]).name@ == q[j]
                    && after.children@[i].child.spec_contains_path(q, j + 1);
            if i != pos {
                assert(before.children@[i] == after.children@[i]);
            } else {
                if sub0.spec_contains_path(q, j + 1) {
                    assert(before.spec_contains_path(q, j));
                } else {
                    assert(spec_suffix_prefix(q, j + 1, parts, k + 1));
                    assert(q[j] == parts[k]);
                    assert forall|t: int| 0 <= t < q.len() - j implies #[trigger] q[j + t]
                        == parts[k + t] by {
                        if t > 0 {
                            assert(q[j + 1 + (t - 1)] == parts[k + 1 + (t - 1)]);
                        }
                    }
                }
            }
        }
    }
}

/// After inserting a fresh well-formed node at the right sorted
/// position, the tree is well formed, kept its paths, contains
/// `parts[k..]`, and holds nothing but old paths and prefixes of the
/// inserted one.
proof fn lemma_insert_preserves(before: Tree, after: Tree, pos: int, parts: Seq<Seq<char>>, k: int)
    requires
        before.wf(),
        0 <= pos <= before.children@.len(),
        after.children@ == before.children@.insert(pos, after.children@[pos]),
        after.children@[pos].child.wf(),
        forall|i: int| 0 <= i < pos ==> spec_str_lt(before.children@[i].name@, after.children@[pos].name@),
        pos < before.children@.len() ==> !spec_str_lt(
            before.children@[pos].name@,
            after.children@[pos].name@,
        ) && before.children@[pos].name@ != after.children@[pos].name@,
        k < parts.len(),
        after.children@[pos].name@ == parts[k],
        after.children@[pos].child.spec_contains_path(parts, k + 1),
        forall|q: Seq<Seq<char>>, j: int|
            after.children@[pos].child.spec_contains_path(q, j) ==> spec_suffix_prefix(
                q,
                j,
                parts,
                k + 1,
            ) || j >= q.len(),
    ensures
        after.wf(),
        after.spec_contains_path(parts, k),
        forall|q: Seq<Seq<char>>, j: int|
            before.spec_contains_path(q, j) ==> after.spec_contains_path(q, j),
        forall|q: Seq<Seq<char>>, j: int|
            after.spec_contains_path(q, j) ==> before.spec_contains_path(q, j)
                || spec_suffix_prefix(q, j, parts, k),
{
    let name = after.children@[pos].name@;
    assert forall|i: int, j: int|
        0 <= i < j < after.children@.len() implies spec_str_lt(
        (#[trigger] after.children@[i]).name@,
        (#[trigger] after.children@[j]).name@,
    ) by {
        lemma_str_lt_connected(before, after, pos, i, j);
    }
    assert forall|i: int|
        0 <= i < after.children@.len() implies (#[trigger] after.children@[i]).child.wf() by {
        if i != pos {
            let src = if i < pos {
                i
            } else {
                i - 1
            };
            assert(after.children@[i] == before.children@[src]);
        }
    }
    assert forall|q: Seq<Seq<char>>, j: int|
        before.spec_contains_path(q, j) implies after.spec_contains_path(q, j) by {
        if j < q.len() {
            let i = choose|i: int|
                0 <= i < before.children@.len() && (#[trigger] before.children@[i]).name@ == q[j]
                    && before.children@[i].child.spec_contains_path(q, j + 1);
            let dst = if i < pos {
                i
            } else {
                i + 1
            };
            assert(after.children@[dst] == before.children@[i]);
            assert(after.children@[dst].name@ == q[j]);
        }
    }
    assert forall|q: Seq<Seq<char>>, j: int|
        after.spec_contains_path(q, j) implies before.spec_contains_path(q, j)
        || spec_suffix_prefix(q, j, parts, k) by {
        if j < q.len() {
            let i = choose|i: int|
                0 <= i < after.children@.len() && (#[trigger] after.children@[i]).name@ == q[j]
                    && after.children@[i].child.spec_contains_path(q, j + 1);
            if i == pos {
                assert(q[j] == parts[k]);
                if j + 1 >= q.len() {
                    assert(spec_suffix_prefix(q, j, parts, k)) by {
                        assert(q.len() - j == 1);
                        assert(forall|t: int| 0 <= t < 1 ==> #[trigger] q[j + t] == parts[k + t]);
                    }
                } else {
                    assert(spec_suffix_prefix(q, j + 1, parts, k + 1));
                    assert forall|t: int| 0 <= t < q.len() - j implies #[trigger] q[j + t]
                        == parts[k + t] by {
                        if t > 0 {
                            assert(q[j + 1 + (t - 1)] == parts[k + 1 + (t - 1)]);
                        }
                    }
                    assert(spec_suffix_prefix(q, j, parts, k));
                }
            } else {
                let src = if i < pos {
                    i
                } else {
                    i - 1
                };
                assert(after.children@[i] == before.children@[src]);
                assert(before.spec_contains_path(q, j));
            }
        }
    }
}

/// Sorted order is kept when one node is inserted between the smaller
/// and not-smaller children.
proof fn lemma_str_lt_connected(before: Tree, after: Tree, pos: int, i: int, j: int)
    requires
        before.wf(),
        0 <= pos <= before.children@.len(),
        after.children@ == before.children@.insert(pos, after.children@[pos]),
        forall|t: int| 0 <= t < pos ==> spec_str_lt(before.children@[t].name@, after.children@[pos].name@),
        pos < before.children@.len() ==> !spec_str_lt(
            before.children@[pos].name@,
            after.children@[pos].name@,
        ) && before.children@[pos].name@ != after.children@[pos].name@,
        0 <= i < j < after.children@.len(),
    ensures
        spec_str_lt(after.children@[i].name@, after.children@[j].name@),
{
    let name = after.children@[pos].name@;
    if i == pos {
        let src = j - 1;
        assert(after.children@[j] == before.children@[src]);
        if src == pos {
            lemma_str_lt_total(name, before.children@[src].name@);
        } else {
            lemma_str_lt_total(name, before.children@[pos].name@);
            lemma_str_lt_trans(name, before.children@[pos].name@, before.children@[src].name@);
        }
    } else if j == pos {
        let src = i;
        assert(after.children@[i] == before.children@[src]);
        assert(spec_str_lt(before.children@[src].name@, name));
    } else {
        let si = if i < pos {
            i
        } else {
            i - 1
        };
        let sj = if j < pos {
            j
        } else {
            j - 1
        };
        assert(after.children@[i] == before.children@[si]);
        assert(after.children@[j] == before.children@[sj]);
    }
}

/// Lexicographic order is total: two different strings compare one way
/// or the other.
pub proof fn lemma_str_lt_total(a: Seq<char>, b: Seq<char>)
    requires
        !spec_str_lt(b, a),
        a != b,
    ensures
        spec_str_lt(b, a) || spec_str_lt(a, b),
        spec_str_lt(a, b),
    decreases a.len(),
{
    if b.len() == 0 {
        if a.len() == 0 {
            assert(a =~= b);
        }
    } else if a.len() == 0 {
    } else if a[0] != b[0] {
        vstd::utf8::char_u32_cast(a[0], a[0] as u32);
        vstd::utf8::char_u32_cast(b[0], b[0] as u32);
        assert(a[0] as u32 != b[0] as u32);
    } else {
        assert(a.skip(1) != b.skip(1)) by {
            if a.skip(1) == b.skip(1) {
                assert(a.skip(1).len() == a.len() - 1);
                assert(b.skip(1).len() == b.len() - 1);
                assert(a.len() == b.len());
                assert forall|i: int| 0 <= i < a.len() implies a[i] == b[i] by {
                    if i > 0 {
                        assert(a[i] == a.skip(1)[i - 1]);
                        assert(b[i] == b.skip(1)[i - 1]);
                    }
                }
                assert(a =~= b);
            }
        }
        lemma_str_lt_total(a.skip(1), b.skip(1));
    }
}

/// Lexicographic order is transitive.
pub proof fn lemma_str_lt_trans(a: Seq<char>, b: Seq<char>, c: Seq<char>)
    requires
        spec_str_lt(a, b),
        spec_str_lt(b, c),
    ensures
        spec_str_lt(a, c),
    decreases a.len() + b.len() + c.len(),
{
    if c.len() == 0 {
    } else if b.len() == 0 {
    } else if a.len() == 0 {
    } else {
        if a[0] == b[0] && b[0] == c[0] {
            lemma_str_lt_trans(a.skip(1), b.skip(1), c.skip(1));
        }
    }
}

} // verus!

verus! {

/// The file-tree section's cursor transition: a centered title, a
/// lead, one line-write per rendered tree line, and a deferred break.
pub open spec fn spec_tree_sc(c: SectionCursor, usable_h: int, lh: int, n: nat) -> SectionCursor {
    sc_break(sc_lines_n(sc_vspace(sc_centered(c, usable_h, 1600), 1000), usable_h, lh, n))
}

/// The file-tree section closes the same number of pages wherever its
/// builder's page numbering starts: the section transition keeps
/// same-shaped cursors in step.
pub proof fn lemma_tree_sc_same_shape(
    a: SectionCursor,
    b: SectionCursor,
    usable_h: int,
    lh: int,
    n: nat,
)
    requires
        sc_same_shape(a, b),
    ensures
        sc_same_shape(spec_tree_sc(a, usable_h, lh, n), spec_tree_sc(b, usable_h, lh, n)),
{
    lemma_sc_centered_same_shape(a, b, usable_h, 1600);
    lemma_sc_lines_n_same_shape(
        sc_vspace(sc_centered(a, usable_h, 1600), 1000),
        sc_vspace(sc_centered(b, usable_h, 1600), 1000),
        usable_h,
        lh,
        n,
    );
}

/// Renders the file-tree section: a centered title, one line per tree
/// node with box-drawing connectors, and a deferred page break. The
/// cursor transition — and so the page count — is exactly
/// [`spec_tree_sc`] with one line-write per line of
/// [`spec_tree_render_lines`] of the paths, so two passes over the
/// same path list lay out the same number of lines; no link is issued
/// and no earlier instruction is touched.
pub fn render(builder: &mut PageBuilder, paths: &Vec<String>)
    requires
        old(builder).wf(),
    ensures
        final(builder).wf(),
        final(builder).pending_break,
        final(builder).page_width == old(builder).page_width,
        final(builder).page_height == old(builder).page_height,
        final(builder).margin == old(builder).margin,
        final(builder).line_height == old(builder).line_height,
        final(builder).start_page == old(builder).start_page,
        final(builder).spec_section_cursor() == spec_tree_sc(
            old(builder).spec_section_cursor(),
            old(builder).spec_usable_height(),
            old(builder).line_height as int,
            spec_tree_render_lines(paths.deep_view()).len(),
        ),
        final(builder).spec_link_ops() == old(builder).spec_link_ops(),
        old(builder).spec_all_ops().is_prefix_of(final(builder).spec_all_ops()),
{
    let black = RgbColor { r: 0, g: 0, b: 0 };
    builder.write_centered("File Tree", FontVariant::Bold, 1600, black);
    builder.vertical_space(1000);

    let mut root = Tree::new();
    proof {
        assert(root.shape().children =~= shape_empty().children);
        assert(root.shape() == spec_tree_shape_of(paths.deep_view(), 0));
    }
    let mut i: usize = 0;
    while i < paths.len()
        invariant
            root.wf(),
            i <= paths@.len(),
            root.shape() == spec_tree_shape_of(paths.deep_view(), i as int),
        decreases paths@.len() - i,
    {
        let parts = split_char(paths[i].as_str(), '/');
        proof {
            assert(parts.deep_view() == spec_split(paths@[i as int]@, '/'));
            assert(paths.deep_view()[i as int] == paths@[i as int]@);
        }
        root.insert(&parts);
        i = i + 1;
    }

    let lines = root.to_lines("");
    proof {
        reveal_strlit("");
        assert(""@ =~= Seq::<char>::empty());
        lemma_tree_lines_shape(root, 0, ""@);
        assert(paths.deep_view().len() == paths@.len());
        assert(lines.deep_view() == spec_tree_render_lines(paths.deep_view()));
        assert(lines@.len() == spec_tree_render_lines(paths.deep_view()).len());
    }
    let gray = RgbColor { r: 60, g: 60, b: 60 };
    let ghost c_body = builder.spec_section_cursor();
    let ghost links0 = builder.spec_link_ops();
    let ghost all0 = old(builder).spec_all_ops();
    proof {
        assert(all0.is_prefix_of(builder.spec_all_ops())) by {
            assert(builder.spec_all_ops().take(all0.len() as int) =~= all0);
        }
    }
    let ghost all_body = builder.spec_all_ops();
    let mut k: usize = 0;
    while k < lines.len()
        invariant
            builder.wf(),
            builder.page_width == old(builder).page_width,
            builder.page_height == old(builder).page_height,
            builder.margin == old(builder).margin,
            builder.line_height == old(builder).line_height,
            builder.start_page == old(builder).start_page,
            k <= lines@.len(),
            builder.spec_section_cursor() == sc_lines_n(
                c_body,
                old(builder).spec_usable_height(),
                old(builder).line_height as int,
                k as nat,
            ),
            builder.spec_link_ops() == links0,
            all_body.is_prefix_of(builder.spec_all_ops()),
        decreases lines@.len() - k,
    {
        let ghost all_pre = builder.spec_all_ops();
        let mut spans: Vec<Span> = Vec::new();
        spans.push(
            Span { text: lines[k].clone(), font: FontVariant::Regular, size: 700, color: gray },
        );
        builder.write_line(spans);
        k = k + 1;
        proof {
            lemma_prefix_trans(all_body, all_pre, builder.spec_all_ops());
        }
    }

    builder.page_break();
    proof {
        lemma_prefix_trans(all0, all_body, builder.spec_all_ops());
        assert(builder.spec_section_cursor() == spec_tree_sc(
            old(builder).spec_section_cursor(),
            old(builder).spec_usable_height(),
            old(builder).line_height as int,
            spec_tree_render_lines(paths.deep_view()).len(),
        ));
    }
}

} // verus!
