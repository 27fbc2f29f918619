//! The syntax tree.
//!
//! The backing structural form (`GreenTree`) is an immutable arena of
//! nodes holding content and shape only — no absolute positions — so it
//! can be shared freely among readers. The navigable positional view
//! (`LuaSyntaxNode` / `LuaSyntaxToken`) is derived per traversal: a handle
//! is a borrowed tree plus a path of child indices, and absolute ranges
//! and parent links are recomputed on demand, never stored. The builder
//! consumes a finished event stream, resolving the parent redirections
//! written by `precede`, and materializes the arena.
use vstd::prelude::*;
use vstd::pervasive::VecAdditionalExecFns;
use vstd::pervasive::unreached;
use crate::kind::{LuaSyntaxKind, LuaTokenKind, SourceRange};
use crate::marker::MarkEvent;
use crate::parser::{eaten_text, lemma_eaten_text_take_le, range_text};
use crate::parser_error::LuaParseError;

verus! {

/// A token of the backing tree: its kind and its original text.
#[derive(Debug, Clone)]
pub struct GreenToken {
    pub kind: LuaTokenKind,
    pub text: Vec<u8>,
}

/// A child of a backing node: an earlier arena node or a token.
#[derive(Debug, Clone)]
pub enum GreenChild {
    Node(usize),
    Token(GreenToken),
}

/// One backing node: its kind, cached total text width, and children in
/// source order.
#[derive(Debug, Clone)]
pub struct GreenNodeData {
    pub kind: LuaSyntaxKind,
    pub width: usize,
    pub children: Vec<GreenChild>,
}

/// The backing structural form: an arena in which every node's children
/// precede it, plus the index of the root node.
#[derive(Debug, Clone)]
pub struct GreenTree {
    pub nodes: Vec<GreenNodeData>,
    pub root: usize,
}

pub open spec fn child_width(nodes: Seq<GreenNodeData>, c: GreenChild) -> int {
    match c {
        GreenChild::Node(j) => nodes[j as int].width as int,
        GreenChild::Token(t) => t.text@.len() as int,
    }
}

/// Total width of the first `k` children.
pub open spec fn children_width_to(nodes: Seq<GreenNodeData>, cs: Seq<GreenChild>, k: int) -> int
    decreases k,
{
    if k <= 0 {
        0
    } else {
        children_width_to(nodes, cs, k - 1) + child_width(nodes, cs[k - 1])
    }
}

/// Node-local well-formedness: children point strictly backwards in the
/// arena and the cached width is the sum of the children's widths.
pub open spec fn node_wf(nodes: Seq<GreenNodeData>, i: int) -> bool {
    &&& (forall|c: int|
        0 <= c < nodes[i].children@.len() ==> ((#[trigger] nodes[i].children@[c])
            matches GreenChild::Node(j) ==> (j as int) < i))
    &&& nodes[i].width == children_width_to(
        nodes,
        nodes[i].children@,
        nodes[i].children@.len() as int,
    )
}

pub open spec fn nodes_wf(nodes: Seq<GreenNodeData>) -> bool {
    forall|i: int| #![auto] 0 <= i < nodes.len() ==> node_wf(nodes, i)
}

pub open spec fn green_wf(t: GreenTree) -> bool {
    &&& nodes_wf(t.nodes@)
    &&& t.nodes@.len() >= 1
    &&& (t.root as int) < t.nodes@.len()
}

pub proof fn lemma_children_width_mono(
    nodes: Seq<GreenNodeData>,
    cs: Seq<GreenChild>,
    a: int,
    b: int,
)
    requires
        0 <= a <= b,
    ensures
        children_width_to(nodes, cs, a) <= children_width_to(nodes, cs, b),
        children_width_to(nodes, cs, a) >= 0,
    decreases b - a + a,
{
    if a > 0 && a == b {
        lemma_children_width_mono(nodes, cs, a - 1, a - 1);
    } else if a < b {
        lemma_children_width_mono(nodes, cs, a, b - 1);
    }
}

/// The width sum only reads the listed children and the arena entries they
/// point at, so extending the arena or the child list leaves it unchanged.
proof fn lemma_width_stable(
    a: Seq<GreenNodeData>,
    b: Seq<GreenNodeData>,
    cs: Seq<GreenChild>,
    k: int,
)
    requires
        a.len() <= b.len(),
        forall|i: int| #![auto] 0 <= i < a.len() ==> b[i] == a[i],
        forall|c: int|
            0 <= c < k ==> ((#[trigger] cs[c]) matches GreenChild::Node(j) ==> (j as int)
                < a.len()),
    ensures
        children_width_to(a, cs, k) == children_width_to(b, cs, k),
    decreases k,
{
    if k > 0 {
        lemma_width_stable(a, b, cs, k - 1);
    }
}

proof fn lemma_width_prefix_stable(
    nodes: Seq<GreenNodeData>,
    cs: Seq<GreenChild>,
    cs2: Seq<GreenChild>,
    k: int,
)
    requires
        k <= cs.len(),
        k <= cs2.len(),
        forall|i: int| #![auto] 0 <= i < k ==> cs2[i] == cs[i],
    ensures
        children_width_to(nodes, cs, k) == children_width_to(nodes, cs2, k),
    decreases k,
{
    if k > 0 {
        lemma_width_prefix_stable(nodes, cs, cs2, k - 1);
    }
}

/// A path of child indices from `from` resolves through node children.
pub open spec fn valid_node_path(nodes: Seq<GreenNodeData>, from: int, path: Seq<usize>) -> bool
    decreases path.len(),
{
    &&& 0 <= from < nodes.len()
    &&& (path.len() > 0 ==> {
        &&& (path[0] as int) < nodes[from].children@.len()
        &&& (nodes[from].children@[path[0] as int] matches GreenChild::Node(j) && valid_node_path(
            nodes,
            j as int,
            path.skip(1),
        ))
    })
}

/// Arena index of the node a path leads to.
pub open spec fn resolve_node(nodes: Seq<GreenNodeData>, from: int, path: Seq<usize>) -> int
    decreases path.len(),
{
    if path.len() == 0 {
        from
    } else {
        match nodes[from].children@[path[0] as int] {
            GreenChild::Node(j) => resolve_node(nodes, j as int, path.skip(1)),
            GreenChild::Token(_) => from,
        }
    }
}

/// Absolute start offset of the element a path leads to, measured from the
/// start of `from`: at every level the widths of the preceding siblings.
pub open spec fn path_offset(nodes: Seq<GreenNodeData>, from: int, path: Seq<usize>) -> int
    decreases path.len(),
{
    if path.len() == 0 {
        0
    } else {
        children_width_to(nodes, nodes[from].children@, path[0] as int) + (
        match nodes[from].children@[path[0] as int] {
            GreenChild::Node(j) => path_offset(nodes, j as int, path.skip(1)),
            GreenChild::Token(_) => 0,
        })
    }
}

/// A path whose last step lands on a token child.
pub open spec fn valid_token_path(nodes: Seq<GreenNodeData>, from: int, path: Seq<usize>) -> bool {
    &&& path.len() >= 1
    &&& valid_node_path(nodes, from, path.drop_last())
    &&& {
        let parent = resolve_node(nodes, from, path.drop_last());
        &&& (path.last() as int) < nodes[parent].children@.len()
        &&& nodes[parent].children@[path.last() as int] is Token
    }
}

pub open spec fn token_at(nodes: Seq<GreenNodeData>, from: int, path: Seq<usize>) -> GreenToken {
    let parent = resolve_node(nodes, from, path.drop_last());
    nodes[parent].children@[path.last() as int]->Token_0
}

pub proof fn lemma_resolve_in_bounds(nodes: Seq<GreenNodeData>, from: int, path: Seq<usize>)
    requires
        valid_node_path(nodes, from, path),
    ensures
        0 <= resolve_node(nodes, from, path) < nodes.len(),
    decreases path.len(),
{
    if path.len() > 0 {
        let j = nodes[from].children@[path[0] as int]->Node_0;
        lemma_resolve_in_bounds(nodes, j as int, path.skip(1));
    }
}

/// Dropping the last step of a valid node path leaves a valid node path,
/// whose endpoint has the dropped step as a node child.
pub proof fn lemma_valid_path_last(nodes: Seq<GreenNodeData>, from: int, path: Seq<usize>)
    requires
        valid_node_path(nodes, from, path),
        path.len() >= 1,
    ensures
        valid_node_path(nodes, from, path.drop_last()),
        ({
            let parent = resolve_node(nodes, from, path.drop_last());
            &&& (path.last() as int) < nodes[parent].children@.len()
            &&& (nodes[parent].children@[path.last() as int] matches GreenChild::Node(j) && j
                as int == resolve_node(nodes, from, path))
        }),
    decreases path.len(),
{
    reveal_with_fuel(valid_node_path, 3);
    reveal_with_fuel(resolve_node, 3);
    if path.len() == 1 {
        assert(path.drop_last() =~= Seq::<usize>::empty());
        assert(path.skip(1) =~= Seq::<usize>::empty());
    } else {
        let j = nodes[from].children@[path[0] as int]->Node_0;
        lemma_valid_path_last(nodes, j as int, path.skip(1));
        assert(path.drop_last().skip(1) =~= path.skip(1).drop_last());
        assert(path.drop_last()[0] == path[0]);
        assert(path.skip(1).last() == path.last());
    }
}

/// Copy a path so a derived handle owns its own steps.
fn copy_path(v: &Vec<usize>) -> (r: Vec<usize>)
    ensures
        r@ == v@,
{
    let mut r: Vec<usize> = Vec::new();
    let mut i: usize = 0;
    while i < v.len()
        invariant
            i <= v@.len(),
            r@ == v@.take(i as int),
        decreases v@.len() - i,
    {
        r.push(v[i]);
        proof {
            assert(v@.take(i as int + 1) =~= v@.take(i as int).push(v@[i as int]));
        }
        i = i + 1;
    }
    proof {
        assert(v@.take(v@.len() as int) =~= v@);
    }
    r
}

/// Resolve the first `upto` steps of a path to an arena index.
fn resolve_prefix(tree: &GreenTree, path: &Vec<usize>, upto: usize) -> (idx: usize)
    requires
        green_wf(*tree),
        upto <= path@.len(),
        valid_node_path(tree.nodes@, tree.root as int, path@.take(upto as int)),
    ensures
        idx as int == resolve_node(tree.nodes@, tree.root as int, path@.take(upto as int)),
        idx < tree.nodes@.len(),
{
    let ghost gpath = path@.take(upto as int);
    let mut cur: usize = tree.root;
    let mut i: usize = 0;
    proof {
        assert(gpath.skip(0) =~= gpath);
    }
    while i < upto
        invariant
            i <= upto,
            cur < tree.nodes@.len(),
            valid_node_path(tree.nodes@, cur as int, gpath.skip(i as int)),
            resolve_node(tree.nodes@, cur as int, gpath.skip(i as int)) == resolve_node(
                tree.nodes@,
                tree.root as int,
                gpath,
            ),
        decreases upto - i,
    {
        proof {
            assert(gpath.skip(i as int)[0] == path@[i as int]);
        }
        let step = path[i];
        let next: usize = match &tree.nodes[cur].children[step] {
            GreenChild::Node(j) => *j,
            GreenChild::Token(_) => {
                proof {
                    assert(false);
                }
                0
            },
        };
        proof {
            assert(gpath.skip(i as int).skip(1) =~= gpath.skip(i as int + 1));
            assert(valid_node_path(tree.nodes@, next as int, gpath.skip(i as int).skip(1)));
        }
        cur = next;
        i = i + 1;
    }
    proof {
        assert(gpath.skip(upto as int) =~= Seq::<usize>::empty());
    }
    cur
}

/// Total width of the first `upto` children of an arena node.
fn children_width_prefix(tree: &GreenTree, node_idx: usize, upto: usize) -> (w: usize)
    requires
        green_wf(*tree),
        node_idx < tree.nodes@.len(),
        upto <= tree.nodes@[node_idx as int].children@.len(),
    ensures
        w as int == children_width_to(
            tree.nodes@,
            tree.nodes@[node_idx as int].children@,
            upto as int,
        ),
{
    let ghost cs = tree.nodes@[node_idx as int].children@;
    let mut w: usize = 0;
    let mut k: usize = 0;
    while k < upto
        invariant
            k <= upto,
            w as int == children_width_to(tree.nodes@, cs, k as int),
        decreases upto - k,
    {
        let cw: usize = match &tree.nodes[node_idx].children[k] {
            GreenChild::Node(j) => {
                proof {
                    assert(node_wf(tree.nodes@, node_idx as int));
                }
                tree.nodes[*j].width
            },
            GreenChild::Token(t) => t.text.len(),
        };
        proof {
            lemma_children_width_mono(tree.nodes@, cs, k as int + 1, cs.len() as int);
            lemma_children_width_mono(tree.nodes@, cs, 0, k as int);
            assert(node_wf(tree.nodes@, node_idx as int));
        }
        w = w + cw;
        k = k + 1;
    }
    w
}

/// Absolute start offset of the element a non-empty path leads to.
fn element_offset(tree: &GreenTree, path: &Vec<usize>) -> (off: usize)
    requires
        green_wf(*tree),
        path@.len() >= 1,
        valid_node_path(tree.nodes@, tree.root as int, path@.drop_last()),
        ({
            let parent = resolve_node(tree.nodes@, tree.root as int, path@.drop_last());
            (path@.last() as int) < tree.nodes@[parent].children@.len()
        }),
    ensures
        off as int == path_offset(tree.nodes@, tree.root as int, path@),
{
    let ghost nodes = tree.nodes@;
    let ghost root = tree.root as int;
    let n = path.len();
    let mut cur: usize = tree.root;
    let mut off: usize = 0;
    let mut i: usize = 0;
    proof {
        lemma_resolve_in_bounds(nodes, root, path@.drop_last());
        assert(path@.drop_last().skip(0) =~= path@.drop_last());
        assert(path@.skip(0) =~= path@);
    }
    while i < n - 1
        invariant
            n == path@.len(),
            1 <= n,
            i <= n - 1,
            cur < nodes.len(),
            valid_node_path(nodes, cur as int, path@.drop_last().skip(i as int)),
            resolve_node(nodes, cur as int, path@.drop_last().skip(i as int)) == resolve_node(
                nodes,
                root,
                path@.drop_last(),
            ),
            off + path_offset(nodes, cur as int, path@.skip(i as int)) == path_offset(
                nodes,
                root,
                path@,
            ),
            off + nodes[cur as int].width <= nodes[root].width,
        decreases n - i,
    {
        proof {
            assert(path@.drop_last().skip(i as int)[0] == path@[i as int]);
            assert(path@.skip(i as int)[0] == path@[i as int]);
        }
        let step = path[i];
        let w = children_width_prefix(tree, cur, step);
        let next: usize = match &tree.nodes[cur].children[step] {
            GreenChild::Node(j) => *j,
            GreenChild::Token(_) => {
                proof {
                    assert(false);
                }
                0
            },
        };
        proof {
            let cs = nodes[cur as int].children@;
            assert(node_wf(nodes, cur as int));
            lemma_children_width_mono(nodes, cs, step as int + 1, cs.len() as int);
            lemma_children_width_mono(nodes, cs, 0, step as int);
            assert(children_width_to(nodes, cs, step as int + 1) == children_width_to(
                nodes,
                cs,
                step as int,
            ) + nodes[next as int].width);
            assert(path@.drop_last().skip(i as int).skip(1) =~= path@.drop_last().skip(
                i as int + 1,
            ));
            assert(path@.skip(i as int).skip(1) =~= path@.skip(i as int + 1));
        }
        off = off + w;
        cur = next;
        i = i + 1;
    }
    proof {
        assert(path@.drop_last().skip(i as int) =~= Seq::<usize>::empty());
        assert(path@.skip(i as int) =~= seq![path@.last()]);
        assert(path@.skip(i as int).len() == 1);
        assert(path@.skip(i as int)[0] == path@.last());
    }
    let step = path[n - 1];
    let w = children_width_prefix(tree, cur, step);
    proof {
        let cs = nodes[cur as int].children@;
        assert(node_wf(nodes, cur as int));
        lemma_children_width_mono(nodes, cs, step as int, cs.len() as int);
        assert(path_offset(nodes, cur as int, path@.skip(i as int)) == children_width_to(
            nodes,
            cs,
            step as int,
        ) + (match cs[step as int] {
            GreenChild::Node(j) => path_offset(nodes, j as int, path@.skip(i as int).skip(1)),
            GreenChild::Token(_) => 0,
        }));
        if cs[step as int] is Node {
            assert(path@.skip(i as int).skip(1) =~= Seq::<usize>::empty());
        }
        lemma_children_width_mono(nodes, cs, 0, step as int);
    }
    off + w
}

/// A node of the derived navigable view: the shared backing tree plus the
/// path of child indices that reaches the node. Absolute ranges and parent
/// links are recomputed from the backing form alone.
pub struct LuaSyntaxNode<'a> {
    pub tree: &'a GreenTree,
    pub path: Vec<usize>,
}

/// A token of the derived navigable view.
pub struct LuaSyntaxToken<'a> {
    pub tree: &'a GreenTree,
    pub path: Vec<usize>,
}

impl<'a> LuaSyntaxNode<'a> {
    pub open spec fn wf(self) -> bool {
        green_wf(*self.tree) && valid_node_path(self.tree.nodes@, self.tree.root as int, self.path@)
    }

    pub open spec fn spec_node_index(self) -> int {
        resolve_node(self.tree.nodes@, self.tree.root as int, self.path@)
    }

    pub open spec fn spec_kind(self) -> LuaSyntaxKind {
        self.tree.nodes@[self.spec_node_index()].kind
    }

    pub open spec fn spec_start_offset(self) -> int {
        path_offset(self.tree.nodes@, self.tree.root as int, self.path@)
    }

    pub open spec fn spec_width(self) -> int {
        self.tree.nodes@[self.spec_node_index()].width as int
    }

    pub fn kind(&self) -> (k: LuaSyntaxKind)
        requires
            self.wf(),
        ensures
            k == self.spec_kind(),
    {
        proof {
            assert(self.path@.take(self.path@.len() as int) =~= self.path@);
        }
        let idx = resolve_prefix(self.tree, &self.path, self.path.len());
        self.tree.nodes[idx].kind
    }

    /// The enclosing node, if this is not the root.
    pub fn parent(&self) -> (r: Option<LuaSyntaxNode<'a>>)
        requires
            self.wf(),
        ensures
            self.path@.len() == 0 ==> r is None,
            self.path@.len() > 0 ==> (r matches Some(n) && *n.tree == *self.tree && n.path@
                == self.path@.drop_last() && n.wf()),
    {
        if self.path.len() == 0 {
            None
        } else {
            proof {
                lemma_valid_path_last(self.tree.nodes@, self.tree.root as int, self.path@);
            }
            let mut q = copy_path(&self.path);
            q.pop();
            Some(LuaSyntaxNode { tree: self.tree, path: q })
        }
    }

    /// Absolute range of this node's text, computed from the backing form.
    pub fn text_range(&self) -> (r: SourceRange)
        requires
            self.wf(),
        ensures
            r.start_offset as int == self.spec_start_offset(),
            r.length as int == self.spec_width(),
    {
        if self.path.len() == 0 {
            SourceRange { start_offset: 0, length: self.tree.nodes[self.tree.root].width }
        } else {
            proof {
                lemma_valid_path_last(self.tree.nodes@, self.tree.root as int, self.path@);
            }
            let off = element_offset(self.tree, &self.path);
            proof {
                assert(self.path@.take(self.path@.len() as int) =~= self.path@);
            }
            let idx = resolve_prefix(self.tree, &self.path, self.path.len());
            SourceRange { start_offset: off, length: self.tree.nodes[idx].width }
        }
    }

    /// Text of the first name token among this node's direct children, the
    /// name a documentation node or tag declares.
    pub fn get_name_text(&self) -> (r: Option<&'a Vec<u8>>)
        requires
            self.wf(),
        ensures
            match r {
                Some(t) => spec_first_name_text(
                    self.tree.nodes@,
                    self.spec_node_index(),
                    0,
                ) matches Some(s) && t@ == s,
                None => spec_first_name_text(self.tree.nodes@, self.spec_node_index(), 0) is None,
            },
    {
        proof {
            assert(self.path@.take(self.path@.len() as int) =~= self.path@);
        }
        let idx = resolve_prefix(self.tree, &self.path, self.path.len());
        let node = &self.tree.nodes[idx];
        let mut k: usize = 0;
        let n = node.children.len();
        while k < n
            invariant
                k <= n,
                n == node.children@.len(),
                idx < self.tree.nodes@.len(),
                node == &self.tree.nodes@[idx as int],
                spec_first_name_text(self.tree.nodes@, idx as int, 0) == spec_first_name_text(
                    self.tree.nodes@,
                    idx as int,
                    k as int,
                ),
            decreases n - k,
        {
            match &node.children[k] {
                GreenChild::Token(t) => {
                    if t.kind == LuaTokenKind::TkName {
                        return Some(&t.text);
                    }
                },
                GreenChild::Node(_) => {},
            }
            k = k + 1;
        }
        None
    }
}

/// First name-token text among the children of arena node `idx`, looking
/// from child `k` onward.
pub open spec fn spec_first_name_text(nodes: Seq<GreenNodeData>, idx: int, k: int) -> Option<
    Seq<u8>,
>
    decreases nodes[idx].children@.len() - k,
{
    if k < 0 || k >= nodes[idx].children@.len() {
        Option::None
    } else if nodes[idx].children@[k] matches GreenChild::Token(t) && t.kind
        == LuaTokenKind::TkName {
        Option::Some(nodes[idx].children@[k]->Token_0.text@)
    } else {
        spec_first_name_text(nodes, idx, k + 1)
    }
}

impl<'a> LuaSyntaxToken<'a> {
    pub open spec fn wf(self) -> bool {
        green_wf(*self.tree) && valid_token_path(
            self.tree.nodes@,
            self.tree.root as int,
            self.path@,
        )
    }

    pub open spec fn spec_token(self) -> GreenToken {
        token_at(self.tree.nodes@, self.tree.root as int, self.path@)
    }

    pub open spec fn spec_start_offset(self) -> int {
        path_offset(self.tree.nodes@, self.tree.root as int, self.path@)
    }

    /// The node this token sits in; a token always has a parent.
    pub fn parent(&self) -> (r: Option<LuaSyntaxNode<'a>>)
        requires
            self.wf(),
        ensures
            r matches Some(n) && *n.tree == *self.tree && n.path@ == self.path@.drop_last()
                && n.wf(),
    {
        let mut q = copy_path(&self.path);
        q.pop();
        Some(LuaSyntaxNode { tree: self.tree, path: q })
    }

    pub fn kind(&self) -> (k: LuaTokenKind)
        requires
            self.wf(),
        ensures
            k == self.spec_token().kind,
    {
        proof {
            assert(self.path@.take(self.path@.len() as int - 1) =~= self.path@.drop_last());
        }
        let parent = resolve_prefix(self.tree, &self.path, self.path.len() - 1);
        match &self.tree.nodes[parent].children[self.path[self.path.len() - 1]] {
            GreenChild::Token(t) => t.kind,
            GreenChild::Node(_) => {
                proof {
                    assert(false);
                }
                LuaTokenKind::TkEof
            },
        }
    }

    /// The token's original text, borrowed from the backing form.
    pub fn text(&self) -> (r: &'a Vec<u8>)
        requires
            self.wf(),
        ensures
            r@ == self.spec_token().text@,
    {
        proof {
            assert(self.path@.take(self.path@.len() as int - 1) =~= self.path@.drop_last());
        }
        let parent = resolve_prefix(self.tree, &self.path, self.path.len() - 1);
        match &self.tree.nodes[parent].children[self.path[self.path.len() - 1]] {
            GreenChild::Token(t) => &t.text,
            GreenChild::Node(_) => {
                proof {
                    assert(false);
                }
                unreached()
            },
        }
    }

    /// Absolute range of the token's text.
    pub fn text_range(&self) -> (r: SourceRange)
        requires
            self.wf(),
        ensures
            r.start_offset as int == self.spec_start_offset(),
            r.length as int == self.spec_token().text@.len(),
    {
        let off = element_offset(self.tree, &self.path);
        proof {
            assert(self.path@.take(self.path@.len() as int - 1) =~= self.path@.drop_last());
        }
        let parent = resolve_prefix(self.tree, &self.path, self.path.len() - 1);
        let len = match &self.tree.nodes[parent].children[self.path[self.path.len() - 1]] {
            GreenChild::Token(t) => t.text.len(),
            GreenChild::Node(_) => {
                proof {
                    assert(false);
                }
                0
            },
        };
        SourceRange { start_offset: off, length: len }
    }
}

/// In-order text of the subtree rooted at arena node `i`: its tokens'
/// texts, concatenated in source order.
pub open spec fn node_text_of(nodes: Seq<GreenNodeData>, i: int) -> Seq<u8>
    decreases i, 1int, 0int,
    when 0 <= i < nodes.len() && nodes_wf(nodes)
{
    children_text(nodes, i, nodes[i].children@, nodes[i].children@.len() as int)
}

/// In-order text of the first `k` children; every node child's arena index
/// lies strictly below `bound`.
pub open spec fn children_text(
    nodes: Seq<GreenNodeData>,
    bound: int,
    cs: Seq<GreenChild>,
    k: int,
) -> Seq<u8>
    decreases bound, 0int, k,
    when 0 <= bound <= nodes.len() && nodes_wf(nodes) && (forall|c: int|
        0 <= c < k ==> ((#[trigger] cs[c]) matches GreenChild::Node(j) ==> (j as int) < bound))
{
    if k <= 0 {
        Seq::empty()
    } else {
        children_text(nodes, bound, cs, k - 1) + (match cs[k - 1] {
            GreenChild::Node(j) => node_text_of(nodes, j as int),
            GreenChild::Token(t) => t.text@,
        })
    }
}

/// The text of the first `k` children only reads those children.
proof fn lemma_children_text_prefix(
    nodes: Seq<GreenNodeData>,
    bound: int,
    cs: Seq<GreenChild>,
    cs2: Seq<GreenChild>,
    k: int,
)
    requires
        0 <= bound <= nodes.len(),
        nodes_wf(nodes),
        forall|c: int| #![auto] 0 <= c < k ==> cs2[c] == cs[c],
        forall|c: int|
            0 <= c < k ==> ((#[trigger] cs[c]) matches GreenChild::Node(j) ==> (j as int) < bound),
    ensures
        children_text(nodes, bound, cs2, k) == children_text(nodes, bound, cs, k),
    decreases k,
{
    if k > 0 {
        lemma_children_text_prefix(nodes, bound, cs, cs2, k - 1);
    }
}

/// The bound parameter only drives termination; it does not affect the
/// text.
proof fn lemma_children_text_bound(
    nodes: Seq<GreenNodeData>,
    b1: int,
    b2: int,
    cs: Seq<GreenChild>,
    k: int,
)
    requires
        0 <= b1 <= nodes.len(),
        0 <= b2 <= nodes.len(),
        nodes_wf(nodes),
        forall|c: int|
            0 <= c < k ==> ((#[trigger] cs[c]) matches GreenChild::Node(j) ==> (j as int) < b1 && (
            j as int) < b2),
    ensures
        children_text(nodes, b1, cs, k) == children_text(nodes, b2, cs, k),
    decreases k,
{
    if k > 0 {
        lemma_children_text_bound(nodes, b1, b2, cs, k - 1);
    }
}

/// Extending the arena leaves the text of existing subtrees unchanged.
proof fn lemma_node_text_stable(a: Seq<GreenNodeData>, b: Seq<GreenNodeData>, i: int)
    requires
        nodes_wf(a),
        nodes_wf(b),
        a.len() <= b.len(),
        forall|m: int| #![auto] 0 <= m < a.len() ==> b[m] == a[m],
        0 <= i < a.len(),
    ensures
        node_text_of(b, i) == node_text_of(a, i),
    decreases i, 1int, 0int,
{
    assert(node_wf(a, i));
    assert(b[i] == a[i]);
    lemma_children_text_stable(a, b, i, a[i].children@, a[i].children@.len() as int);
}

proof fn lemma_children_text_stable(
    a: Seq<GreenNodeData>,
    b: Seq<GreenNodeData>,
    bound: int,
    cs: Seq<GreenChild>,
    k: int,
)
    requires
        nodes_wf(a),
        nodes_wf(b),
        a.len() <= b.len(),
        forall|m: int| #![auto] 0 <= m < a.len() ==> b[m] == a[m],
        0 <= bound <= a.len(),
        forall|c: int|
            0 <= c < k ==> ((#[trigger] cs[c]) matches GreenChild::Node(j) ==> (j as int) < bound),
    ensures
        children_text(b, bound, cs, k) == children_text(a, bound, cs, k),
    decreases bound, 0int, k,
{
    if k > 0 {
        lemma_children_text_stable(a, b, bound, cs, k - 1);
        match cs[k - 1] {
            GreenChild::Node(j) => {
                lemma_node_text_stable(a, b, j as int);
            },
            GreenChild::Token(_) => {},
        }
    }
}

/// A node's cached width is the length of its in-order text.
proof fn lemma_node_width_is_text(nodes: Seq<GreenNodeData>, i: int)
    requires
        nodes_wf(nodes),
        0 <= i < nodes.len(),
    ensures
        nodes[i].width == node_text_of(nodes, i).len(),
    decreases i, 1int, 0int,
{
    assert(node_wf(nodes, i));
    lemma_children_width_is_text(nodes, i, nodes[i].children@, nodes[i].children@.len() as int);
}

proof fn lemma_children_width_is_text(
    nodes: Seq<GreenNodeData>,
    bound: int,
    cs: Seq<GreenChild>,
    k: int,
)
    requires
        nodes_wf(nodes),
        0 <= bound <= nodes.len(),
        forall|c: int|
            0 <= c < k ==> ((#[trigger] cs[c]) matches GreenChild::Node(j) ==> (j as int) < bound),
    ensures
        children_width_to(nodes, cs, k) == children_text(nodes, bound, cs, k).len(),
    decreases bound, 0int, k,
{
    if k > 0 {
        lemma_children_width_is_text(nodes, bound, cs, k - 1);
        match cs[k - 1] {
            GreenChild::Node(j) => {
                lemma_node_width_is_text(nodes, j as int);
            },
            GreenChild::Token(_) => {},
        }
    }
}

/// Two event streams that agree on every token-eat event carry the same
/// consumed text; tombstoning node starts never disturbs it.
spec fn events_eaten_equal(a: Seq<MarkEvent>, b: Seq<MarkEvent>) -> bool {
    a.len() == b.len() && forall|j: int| #![auto]
        0 <= j < a.len() ==> ((a[j] is EatToken || b[j] is EatToken) ==> b[j] == a[j])
}

/// An open node under construction: its kind, the accumulated width of the
/// children gathered so far, and those children in order.
struct Frame {
    kind: LuaSyntaxKind,
    width: usize,
    children: Vec<GreenChild>,
}

spec fn frame_wf(nodes: Seq<GreenNodeData>, f: Frame) -> bool {
    &&& (forall|c: int|
        0 <= c < f.children@.len() ==> ((#[trigger] f.children@[c]) matches GreenChild::Node(j)
            ==> (j as int) < nodes.len()))
    &&& f.width == children_width_to(nodes, f.children@, f.children@.len() as int)
}

/// In-order text an open frame has gathered so far.
spec fn frame_text(nodes: Seq<GreenNodeData>, f: Frame) -> Seq<u8> {
    children_text(nodes, nodes.len() as int, f.children@, f.children@.len() as int)
}

/// Text gathered by the bottom `k` frames, outermost first.
spec fn frames_text(nodes: Seq<GreenNodeData>, fs: Seq<Frame>, k: int) -> Seq<u8>
    decreases k,
{
    if k <= 0 {
        Seq::empty()
    } else {
        frames_text(nodes, fs, k - 1) + frame_text(nodes, fs[k - 1])
    }
}

proof fn lemma_frames_text_prefix(nodes: Seq<GreenNodeData>, a: Seq<Frame>, b: Seq<Frame>, k: int)
    requires
        forall|j: int| #![auto] 0 <= j < k ==> b[j] == a[j],
    ensures
        frames_text(nodes, b, k) == frames_text(nodes, a, k),
    decreases k,
{
    if k > 0 {
        lemma_frames_text_prefix(nodes, a, b, k - 1);
    }
}

proof fn lemma_frames_text_stable(
    a: Seq<GreenNodeData>,
    b: Seq<GreenNodeData>,
    fs: Seq<Frame>,
    k: int,
)
    requires
        nodes_wf(a),
        nodes_wf(b),
        a.len() <= b.len(),
        forall|m: int| #![auto] 0 <= m < a.len() ==> b[m] == a[m],
        forall|j: int| #![auto] 0 <= j < k ==> frame_wf(a, fs[j]),
    ensures
        frames_text(b, fs, k) == frames_text(a, fs, k),
    decreases k,
{
    if k > 0 {
        lemma_frames_text_stable(a, b, fs, k - 1);
        let f = fs[k - 1];
        lemma_children_text_stable(a, b, a.len() as int, f.children@, f.children@.len() as int);
        lemma_children_text_bound(
            b,
            a.len() as int,
            b.len() as int,
            f.children@,
            f.children@.len() as int,
        );
    }
}

/// Close the topmost open frame into an arena node and hand it to the
/// frame below as a child; the gathered text, in order, is conserved.
fn close_top(frames: &mut Vec<Frame>, nodes: &mut Vec<GreenNodeData>)
    requires
        old(frames)@.len() >= 2,
        nodes_wf(old(nodes)@),
        forall|f: int| #![auto]
            0 <= f < old(frames)@.len() ==> frame_wf(old(nodes)@, old(frames)@[f]),
        frames_text(old(nodes)@, old(frames)@, old(frames)@.len() as int).len() <= usize::MAX,
    ensures
        final(frames)@.len() == old(frames)@.len() - 1,
        old(nodes)@.len() < final(nodes)@.len(),
        nodes_wf(final(nodes)@),
        forall|f: int| #![auto]
            0 <= f < final(frames)@.len() ==> frame_wf(final(nodes)@, final(frames)@[f]),
        frames_text(final(nodes)@, final(frames)@, final(frames)@.len() as int) == frames_text(
            old(nodes)@,
            old(frames)@,
            old(frames)@.len() as int,
        ),
{
    let ghost pre_frames = frames@;
    let ghost pre_nodes = nodes@;
    let ghost nf = pre_frames.len() as int;
    let fr = match frames.pop() {
        Some(f) => f,
        None => {
            proof {
                assert(false);
            }
            Frame { kind: LuaSyntaxKind::Tombstone, width: 0, children: Vec::new() }
        },
    };
    let idx = nodes.len();
    let w = fr.width;
    proof {
        // the total text decomposes into the lower frames, the parent, and
        // the top frame; widths are text lengths
        lemma_frames_text_prefix(pre_nodes, pre_frames, frames@, nf - 1);
        lemma_children_width_is_text(
            pre_nodes,
            pre_nodes.len() as int,
            fr.children@,
            fr.children@.len() as int,
        );
        lemma_children_width_is_text(
            pre_nodes,
            pre_nodes.len() as int,
            pre_frames[nf - 2].children@,
            pre_frames[nf - 2].children@.len() as int,
        );
    }
    let ghost total = frames_text(pre_nodes, pre_frames, nf);
    nodes.push(GreenNodeData { kind: fr.kind, width: fr.width, children: fr.children });
    proof {
        assert forall|i: int| 0 <= i < nodes@.len() implies node_wf(nodes@, i) by {
            if i < pre_nodes.len() {
                assert(node_wf(pre_nodes, i));
                lemma_width_stable(
                    pre_nodes,
                    nodes@,
                    pre_nodes[i].children@,
                    pre_nodes[i].children@.len() as int,
                );
            } else {
                lemma_width_stable(
                    pre_nodes,
                    nodes@,
                    nodes@[i].children@,
                    nodes@[i].children@.len() as int,
                );
            }
        }
        assert forall|f: int| 0 <= f < frames@.len() implies frame_wf(nodes@, frames@[f]) by {
            assert(frame_wf(pre_nodes, frames@[f]));
            lemma_width_stable(
                pre_nodes,
                nodes@,
                frames@[f].children@,
                frames@[f].children@.len() as int,
            );
        }
        // the new node's text is exactly what the closed frame gathered
        lemma_children_text_stable(
            pre_nodes,
            nodes@,
            idx as int,
            fr.children@,
            fr.children@.len() as int,
        );
        lemma_children_text_bound(
            pre_nodes,
            idx as int,
            pre_nodes.len() as int,
            fr.children@,
            fr.children@.len() as int,
        );
        assert(node_text_of(nodes@, idx as int) == frame_text(pre_nodes, fr));
        lemma_node_width_is_text(nodes@, idx as int);
        // remaining frames keep their text under the extended arena
        lemma_frames_text_stable(pre_nodes, nodes@, frames@, nf - 1);
    }
    let mut parent = match frames.pop() {
        Some(f) => f,
        None => {
            proof {
                assert(false);
            }
            Frame { kind: LuaSyntaxKind::Tombstone, width: 0, children: Vec::new() }
        },
    };
    proof {
        lemma_frames_text_prefix(nodes@, pre_frames, frames@, nf - 2);
        lemma_frames_text_stable(pre_nodes, nodes@, pre_frames, nf - 2);
        lemma_children_width_is_text(
            nodes@,
            nodes@.len() as int,
            parent.children@,
            parent.children@.len() as int,
        );
        // the parent frame's text reads only the old arena
        lemma_children_text_stable(
            pre_nodes,
            nodes@,
            pre_nodes.len() as int,
            parent.children@,
            parent.children@.len() as int,
        );
        lemma_children_text_bound(
            nodes@,
            pre_nodes.len() as int,
            nodes@.len() as int,
            parent.children@,
            parent.children@.len() as int,
        );
        // unfold the total text over the top two frames
        assert(frames_text(pre_nodes, pre_frames, nf) == frames_text(pre_nodes, pre_frames, nf - 1)
            + frame_text(pre_nodes, pre_frames[nf - 1]));
        assert(frames_text(pre_nodes, pre_frames, nf - 1) == frames_text(
            pre_nodes,
            pre_frames,
            nf - 2,
        ) + frame_text(pre_nodes, pre_frames[nf - 2]));
        assert(parent.width + w <= total.len());
    }
    let ghost pre_children = parent.children@;
    let ghost pre_parent_text = frame_text(nodes@, parent);
    parent.children.push(GreenChild::Node(idx));
    proof {
        lemma_width_prefix_stable(nodes@, pre_children, parent.children@, pre_children.len() as int);
        lemma_children_text_prefix(
            nodes@,
            nodes@.len() as int,
            pre_children,
            parent.children@,
            pre_children.len() as int,
        );
        assert(frame_text(nodes@, parent) == pre_parent_text + node_text_of(nodes@, idx as int));
    }
    parent.width = parent.width + w;
    frames.push(parent);
    proof {
        lemma_frames_text_prefix(nodes@, pre_frames, frames@, nf - 2);
        assert(frames_text(nodes@, frames@, nf - 1) =~= total);
    }
}

/// Copy the bytes a source range denotes; out-of-bounds ranges yield an
/// empty text.
fn copy_range(text: &Vec<u8>, range: SourceRange) -> (r: Vec<u8>)
    ensures
        range.start_offset + range.length <= text@.len() ==> r@ == text@.subrange(
            range.start_offset as int,
            range.start_offset + range.length,
        ),
        range.start_offset + range.length > text@.len() ==> r@ == Seq::<u8>::empty(),
{
    let mut r: Vec<u8> = Vec::new();
    if range.length <= text.len() && range.start_offset <= text.len() - range.length {
        let s = range.start_offset;
        let mut k: usize = 0;
        proof {
            assert(r@ =~= text@.subrange(s as int, s as int));
        }
        while k < range.length
            invariant
                k <= range.length,
                s == range.start_offset,
                s + range.length <= text@.len(),
                r@ == text@.subrange(s as int, s + k),
            decreases range.length - k,
        {
            r.push(text[s + k]);
            proof {
                assert(text@.subrange(s as int, s + k + 1) =~= text@.subrange(s as int, s + k).push(
                    text@[s + k],
                ));
            }
            k = k + 1;
        }
    }
    r
}

/// Consume a finished event stream and materialize the backing tree.
///
/// Parent redirections written by `precede` are resolved by walking the
/// recorded chain outward and starting the collected nodes outermost
/// first, tombstoning each consumed node-start event; tombstoned starts
/// are skipped when reached. Events that do not come from a balanced
/// parse still yield a well-formed tree, and in every case the tree is
/// lossless: its in-order token text is exactly the consumed token text
/// of the event stream, in event order.
pub fn build_green(events: Vec<MarkEvent>, text: &Vec<u8>) -> (t: GreenTree)
    requires
        eaten_text(events@, text@).len() <= usize::MAX,
    ensures
        green_wf(t),
        node_text_of(t.nodes@, t.root as int) == eaten_text(events@, text@),
{
    let ghost original = events@;
    let mut events = events;
    let ghost n0 = events@.len();
    let mut nodes: Vec<GreenNodeData> = Vec::new();
    let mut frames: Vec<Frame> = Vec::new();
    frames.push(Frame { kind: LuaSyntaxKind::Tombstone, width: 0, children: Vec::new() });
    let mut i: usize = 0;
    proof {
        assert(original.take(0) =~= Seq::<MarkEvent>::empty());
        assert(frame_text(nodes@, frames@[0]) =~= Seq::<u8>::empty());
        assert(frames_text(nodes@, frames@, 1) == frames_text(nodes@, frames@, 0) + frame_text(
            nodes@,
            frames@[0],
        ));
        assert(frames_text(nodes@, frames@, 1) =~= eaten_text(original.take(0), text@));
    }
    while i < events.len()
        invariant
            events@.len() == n0,
            original.len() == n0,
            i <= n0,
            events_eaten_equal(original, events@),
            frames@.len() >= 1,
            nodes_wf(nodes@),
            forall|f: int| #![auto] 0 <= f < frames@.len() ==> frame_wf(nodes@, frames@[f]),
            frames_text(nodes@, frames@, frames@.len() as int) == eaten_text(
                original.take(i as int),
                text@,
            ),
        decreases n0 - i,
    {
        let ghost pre_take = original.take(i as int);
        proof {
            assert(original.take(i as int + 1).drop_last() =~= pre_take);
            assert(original.take(i as int + 1).last() == original[i as int]);
            lemma_eaten_text_take_le(original, text@, i as int);
            lemma_eaten_text_take_le(original, text@, i as int + 1);
            assert(original.take(original.len() as int) =~= original);
        }
        let ev = events[i];
        match ev {
            MarkEvent::NodeStart { kind, parent } => {
                proof {
                    // the current event is no token eat, in either stream
                    assert(!(original[i as int] is EatToken));
                }
                if kind != LuaSyntaxKind::Tombstone {
                    let mut kinds: Vec<LuaSyntaxKind> = Vec::new();
                    kinds.push(kind);
                    let mut j = parent;
                    let mut cont = j != 0 && j < events.len();
                    while cont
                        invariant
                            events@.len() == n0,
                            events_eaten_equal(original, events@),
                            cont ==> j < n0,
                        decreases (if cont { 1int } else { 0int }), (
                        if cont {
                            n0 - j
                        } else {
                            0int
                        }),
                    {
                        match events[j] {
                            MarkEvent::NodeStart { kind: k2, parent: p2 } => {
                                if k2 != LuaSyntaxKind::Tombstone {
                                    kinds.push(k2);
                                    let ghost pre_events = events@;
                                    events.set(j, MarkEvent::none());
                                    proof {
                                        assert forall|q: int|
                                            0 <= q < original.len() && (original[q] is EatToken
                                                || events@[q] is EatToken) implies events@[q]
                                            == original[q] by {
                                            if q != j {
                                                assert(events@[q] == pre_events[q]);
                                            }
                                        }
                                    }
                                    if p2 > j && p2 < events.len() {
                                        j = p2;
                                    } else {
                                        cont = false;
                                    }
                                } else {
                                    cont = false;
                                }
                            },
                            _ => {
                                cont = false;
                            },
                        }
                    }
                    let mut k = kinds.len();
                    while k > 0
                        invariant
                            k <= kinds@.len(),
                            frames@.len() >= 1,
                            nodes_wf(nodes@),
                            forall|f: int| #![auto]
                                0 <= f < frames@.len() ==> frame_wf(nodes@, frames@[f]),
                            frames_text(nodes@, frames@, frames@.len() as int) == eaten_text(
                                pre_take,
                                text@,
                            ),
                        decreases k,
                    {
                        k = k - 1;
                        let ghost pre_frames = frames@;
                        frames.push(Frame { kind: kinds[k], width: 0, children: Vec::new() });
                        proof {
                            lemma_frames_text_prefix(
                                nodes@,
                                pre_frames,
                                frames@,
                                pre_frames.len() as int,
                            );
                            assert(frame_text(nodes@, frames@[frames@.len() - 1])
                                =~= Seq::<u8>::empty());
                            assert(frames_text(nodes@, frames@, frames@.len() as int)
                                =~= frames_text(nodes@, pre_frames, pre_frames.len() as int));
                        }
                    }
                }
            },
            MarkEvent::EatToken { kind, range } => {
                proof {
                    assert(events@[i as int] == original[i as int]);
                }
                let tok_text = copy_range(text, range);
                let w = tok_text.len();
                proof {
                    assert(tok_text@ == range_text(text@, range));
                }
                let ghost pre_frames = frames@;
                let ghost nf = pre_frames.len() as int;
                let mut fr = match frames.pop() {
                    Some(f) => f,
                    None => {
                        proof {
                            assert(false);
                        }
                        Frame { kind: LuaSyntaxKind::Tombstone, width: 0, children: Vec::new() }
                    },
                };
                proof {
                    lemma_frames_text_prefix(nodes@, pre_frames, frames@, nf - 1);
                    lemma_children_width_is_text(
                        nodes@,
                        nodes@.len() as int,
                        fr.children@,
                        fr.children@.len() as int,
                    );
                    assert(frames_text(nodes@, pre_frames, nf) == frames_text(
                        nodes@,
                        pre_frames,
                        nf - 1,
                    ) + frame_text(nodes@, fr));
                    assert(fr.width + w <= eaten_text(original.take(i as int + 1), text@).len());
                }
                let ghost pre_children = fr.children@;
                let ghost pre_fr_text = frame_text(nodes@, fr);
                fr.children.push(GreenChild::Token(GreenToken { kind, text: tok_text }));
                proof {
                    lemma_width_prefix_stable(
                        nodes@,
                        pre_children,
                        fr.children@,
                        pre_children.len() as int,
                    );
                    lemma_children_text_prefix(
                        nodes@,
                        nodes@.len() as int,
                        pre_children,
                        fr.children@,
                        pre_children.len() as int,
                    );
                    assert(frame_text(nodes@, fr) == pre_fr_text + tok_text@);
                }
                fr.width = fr.width + w;
                frames.push(fr);
                proof {
                    lemma_frames_text_prefix(nodes@, pre_frames, frames@, nf - 1);
                    assert(frames_text(nodes@, frames@, nf) =~= eaten_text(
                        original.take(i as int + 1),
                        text@,
                    ));
                }
            },
            MarkEvent::NodeEnd => {
                proof {
                    assert(!(original[i as int] is EatToken));
                }
                if frames.len() >= 2 {
                    close_top(&mut frames, &mut nodes);
                }
            },
        }
        i = i + 1;
    }
    proof {
        assert(original.take(n0 as int) =~= original);
    }
    while frames.len() >= 2
        invariant
            frames@.len() >= 1,
            nodes_wf(nodes@),
            forall|f: int| #![auto] 0 <= f < frames@.len() ==> frame_wf(nodes@, frames@[f]),
            frames_text(nodes@, frames@, frames@.len() as int) == eaten_text(original, text@),
        decreases frames@.len(),
    {
        close_top(&mut frames, &mut nodes);
    }
    let ghost last_frames = frames@;
    let fr = match frames.pop() {
        Some(f) => f,
        None => {
            proof {
                assert(false);
            }
            Frame { kind: LuaSyntaxKind::Tombstone, width: 0, children: Vec::new() }
        },
    };
    proof {
        // the one remaining frame gathered the whole consumed text
        assert(frames_text(nodes@, last_frames, 1) == frames_text(nodes@, last_frames, 0)
            + frame_text(nodes@, last_frames[0]));
        assert(last_frames[0] == fr);
        assert(Seq::<u8>::empty() + frame_text(nodes@, fr) =~= frame_text(nodes@, fr));
        assert(frame_text(nodes@, fr) == eaten_text(original, text@));
    }
    if fr.children.len() == 1 {
        let root: Option<usize> = match &fr.children[0] {
            GreenChild::Node(j) => Some(*j),
            GreenChild::Token(_) => None,
        };
        match root {
            Some(j) => {
                proof {
                    assert(children_text(nodes@, nodes@.len() as int, fr.children@, 1)
                        == children_text(nodes@, nodes@.len() as int, fr.children@, 0)
                        + node_text_of(nodes@, j as int));
                    assert(Seq::<u8>::empty() + node_text_of(nodes@, j as int) =~= node_text_of(
                        nodes@,
                        j as int,
                    ));
                }
                return GreenTree { nodes, root: j };
            },
            None => {},
        }
    }
    let idx = nodes.len();
    let ghost pre_nodes = nodes@;
    nodes.push(GreenNodeData { kind: fr.kind, width: fr.width, children: fr.children });
    proof {
        assert forall|i2: int| 0 <= i2 < nodes@.len() implies node_wf(nodes@, i2) by {
            if i2 < pre_nodes.len() {
                assert(node_wf(pre_nodes, i2));
                lemma_width_stable(
                    pre_nodes,
                    nodes@,
                    pre_nodes[i2].children@,
                    pre_nodes[i2].children@.len() as int,
                );
            } else {
                lemma_width_stable(
                    pre_nodes,
                    nodes@,
                    nodes@[i2].children@,
                    nodes@[i2].children@.len() as int,
                );
            }
        }
        lemma_children_text_stable(
            pre_nodes,
            nodes@,
            idx as int,
            fr.children@,
            fr.children@.len() as int,
        );
        assert(node_text_of(nodes@, idx as int) == children_text(
            pre_nodes,
            idx as int,
            fr.children@,
            fr.children@.len() as int,
        ));
    }
    GreenTree { nodes, root: idx }
}

/// The finished, immutable syntax tree: the shareable backing form plus
/// the parse errors produced during the same pass.
#[derive(Debug, Clone)]
pub struct LuaSyntaxTree {
    pub root: GreenTree,
    pub errors: Vec<LuaParseError>,
}

/// The well-known top-level construct, cast from the derived root.
pub struct LuaChunk<'a> {
    pub node: LuaSyntaxNode<'a>,
}

impl<'a> LuaChunk<'a> {
    pub fn cast(node: LuaSyntaxNode<'a>) -> (r: Option<LuaChunk<'a>>)
        requires
            node.wf(),
        ensures
            node.spec_kind() == LuaSyntaxKind::Chunk ==> (r matches Some(c) && c.node == node),
            node.spec_kind() != LuaSyntaxKind::Chunk ==> r is None,
    {
        if node.kind() == LuaSyntaxKind::Chunk {
            Some(LuaChunk { node })
        } else {
            None
        }
    }
}

impl LuaSyntaxTree {
    pub fn new(root: GreenTree, errors: Vec<LuaParseError>) -> (t: LuaSyntaxTree)
        ensures
            t.root == root,
            t.errors == errors,
    {
        LuaSyntaxTree { root, errors }
    }

    /// Root of the derived navigable view.
    pub fn get_red_root<'a>(&'a self) -> (n: LuaSyntaxNode<'a>)
        requires
            green_wf(self.root),
        ensures
            n.wf(),
            *n.tree == self.root,
            n.path@ == Seq::<usize>::empty(),
    {
        let n = LuaSyntaxNode { tree: &self.root, path: Vec::new() };
        proof {
            assert(n.path@ =~= Seq::<usize>::empty());
        }
        n
    }

    /// The chunk node; the tree's root must carry the chunk kind.
    pub fn get_chunk_node<'a>(&'a self) -> (c: LuaChunk<'a>)
        requires
            green_wf(self.root),
            self.root.nodes@[self.root.root as int].kind == LuaSyntaxKind::Chunk,
        ensures
            c.node.wf(),
            *c.node.tree == self.root,
            c.node.path@ == Seq::<usize>::empty(),
    {
        let r = self.get_red_root();
        match LuaChunk::cast(r) {
            Some(c) => c,
            None => {
                proof {
                    assert(false);
                }
                LuaChunk { node: LuaSyntaxNode { tree: &self.root, path: Vec::new() } }
            },
        }
    }

    /// The parse errors recorded while the tree was built.
    pub fn get_errors(&self) -> (r: &[LuaParseError])
        ensures
            r@ == self.errors@,
    {
        self.errors.as_slice()
    }
}

} // verus!
