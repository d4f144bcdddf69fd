//! The object tree: the hierarchy of declared types and their variables.
//!
//! A type is addressed by its path from the root, one name per level. Beside
//! its place in the hierarchy every type has a parent link, the type it
//! inherits from. The link starts out as the type one level up and can be
//! redirected to any other declared type.
//!
//! The model of a tree is a map from paths to [`NodeView`]s. The root is the
//! node at the empty path; it stands for the global scope.

use vstd::prelude::*;
use crate::ast::{default_view, Expression, ExpressionView};
use crate::error::RegistrationError;
use crate::location::Location;
use crate::path::{clone_path, is_prefix, segments_valid, valid_segments};

verus! {

/// A variable declared on a type.
#[derive(Debug, PartialEq, Eq)]
pub struct TypeVar {
    /// The bare name of the variable.
    pub name: String,
    /// The path of the type that the variable is declared to hold, qualifiers
    /// included; empty where the declaration names none.
    pub type_path: Vec<String>,
    /// The default value, where the declaration gives one.
    pub value: Option<Expression>,
    /// Where the variable was declared.
    pub location: Location,
}

/// The model of a [`TypeVar`], without its name.
pub struct TypeVarView {
    pub type_path: Seq<Seq<char>>,
    pub value: Option<ExpressionView>,
    pub location: Location,
}

impl View for TypeVar {
    type V = TypeVarView;

    open spec fn view(&self) -> TypeVarView {
        TypeVarView {
            type_path: self.type_path.deep_view(),
            value: default_view(self.value),
            location: self.location,
        }
    }
}

/// The model of one type of the tree.
pub struct NodeView {
    /// The path of the type that this one inherits from; `None` for a root
    /// that was never given one.
    pub parent: Option<Seq<Seq<char>>>,
    /// The variables declared on the type, by name.
    pub vars: Map<Seq<char>, TypeVarView>,
    /// Where the type was first declared.
    pub location: Location,
}

/// The model of an [`ObjectTree`]: its types, by path.
pub type TreeView = Map<Seq<Seq<char>>, NodeView>;

#[derive(Debug, PartialEq, Eq)]
struct Node {
    name: String,
    container: usize,
    parent: Option<usize>,
    vars: Vec<TypeVar>,
    location: Location,
}

/// A hierarchy of types and their variables.
#[derive(Debug, PartialEq, Eq)]
pub struct ObjectTree {
    nodes: Vec<Node>,
}

// ----------------------------------------------------------------------
// The model of the arena

spec fn path_at(nodes: Seq<Node>, i: int) -> Seq<Seq<char>>
    decreases i,
{
    if 0 < i < nodes.len() && nodes[i].container < i {
        path_at(nodes, nodes[i].container as int).push(nodes[i].name@)
    } else {
        Seq::empty()
    }
}

spec fn vars_map(vars: Seq<TypeVar>) -> Map<Seq<char>, TypeVarView>
    decreases vars.len(),
{
    if vars.len() == 0 {
        Map::empty()
    } else {
        vars_map(vars.drop_last()).insert(vars.last().name@, vars.last()@)
    }
}

spec fn node_view(nodes: Seq<Node>, i: int) -> NodeView {
    NodeView {
        parent: match nodes[i].parent {
            Some(p) => Some(path_at(nodes, p as int)),
            None => None,
        },
        vars: vars_map(nodes[i].vars@),
        location: nodes[i].location,
    }
}

spec fn nodes_map(nodes: Seq<Node>, n: int) -> TreeView
    decreases n,
{
    if n <= 0 {
        Map::empty()
    } else {
        nodes_map(nodes, n - 1).insert(path_at(nodes, n - 1), node_view(nodes, n - 1))
    }
}

spec fn is_child(nodes: Seq<Node>, j: int, at: int, name: Seq<char>) -> bool {
    nodes[j].container == at && nodes[j].name@ == name
}

spec fn var_named(vars: Seq<TypeVar>, name: Seq<char>) -> bool {
    exists|a: int| 0 <= a < vars.len() && (#[trigger] vars[a]).name@ == name
}

spec fn vars_wf(vars: Seq<TypeVar>) -> bool {
    &&& forall|a: int| 0 <= a < vars.len() ==> (#[trigger] vars[a]).name@.len() > 0
    &&& forall|a: int, b: int|
        0 <= a < b < vars.len() ==> (#[trigger] vars[a]).name@ != (#[trigger] vars[b]).name@
}

spec fn nodes_wf(nodes: Seq<Node>) -> bool {
    &&& nodes.len() >= 1
    &&& forall|i: int|
        0 < i < nodes.len() ==> (#[trigger] nodes[i]).container < i && nodes[i].name@.len() > 0
    &&& forall|i: int, j: int|
        0 < i < nodes.len() && 0 < j < nodes.len() && i != j ==> !((#[trigger] nodes[i]).container
            == (#[trigger] nodes[j]).container && nodes[i].name@ == nodes[j].name@)
    &&& forall|i: int|
        0 <= i < nodes.len() ==> ((#[trigger] nodes[i]).parent matches Some(p) ==> p < nodes.len())
    &&& forall|i: int| 0 <= i < nodes.len() ==> vars_wf((#[trigger] nodes[i]).vars@)
    &&& forall|c: int, j: int|
        0 < c < nodes.len() && 0 < j < nodes.len() && (#[trigger] nodes[j]).container == c
            ==> !var_named((#[trigger] nodes[c]).vars@, nodes[j].name@)
}

// ----------------------------------------------------------------------
// Well-formed models

/// What holds of the model of every well-formed tree.
///
/// The root is there; with a type, the type one level up is there too; no
/// name is empty; every parent link leads to a type of the tree; and below
/// the root no name is both a variable of a type and a type inside it. (At
/// the root, the global scope, a variable and a type may share a name.)
pub open spec fn tree_wf(t: TreeView) -> bool {
    &&& t.dom().contains(Seq::empty())
    &&& forall|p: Seq<Seq<char>>|
        p.len() > 0 && t.dom().contains(p) ==> #[trigger] t.dom().contains(p.drop_last())
    &&& forall|p: Seq<Seq<char>>| #[trigger] t.dom().contains(p) ==> valid_segments(p)
    &&& forall|p: Seq<Seq<char>>|
        #[trigger] t.dom().contains(p) ==> (t[p].parent matches Some(q) ==> t.dom().contains(q))
    &&& forall|p: Seq<Seq<char>>, name: Seq<char>|
        t.dom().contains(p) && #[trigger] t[p].vars.dom().contains(name) ==> name.len() > 0 && (
        p.len() > 0 ==> !t.dom().contains(p.push(name)))
}

/// With a type, every type above it is in a well-formed tree.
pub proof fn lemma_prefix_known(t: TreeView, p: Seq<Seq<char>>, m: int)
    requires
        tree_wf(t),
        t.dom().contains(p),
        0 <= m <= p.len(),
    ensures
        t.dom().contains(p.take(m)),
    decreases p.len() - m,
{
    if m == p.len() {
        assert(p.take(m) =~= p);
    } else {
        lemma_prefix_known(t, p, m + 1);
        assert(p.take(m + 1).drop_last() =~= p.take(m));
        assert(t.dom().contains(p.take(m + 1).drop_last()));
    }
}

// ----------------------------------------------------------------------
// Facts about the arena

proof fn lemma_path_stable(a: Seq<Node>, b: Seq<Node>, i: int)
    requires
        0 <= i < a.len(),
        i < b.len(),
        forall|k: int|
            0 <= k <= i ==> (#[trigger] a[k]).name == b[k].name && a[k].container
                == b[k].container,
    ensures
        path_at(a, i) == path_at(b, i),
    decreases i,
{
    if 0 < i && a[i].container < i {
        lemma_path_stable(a, b, a[i].container as int);
    }
}

proof fn lemma_path_valid(nodes: Seq<Node>, i: int)
    requires
        nodes_wf(nodes),
        0 <= i < nodes.len(),
    ensures
        valid_segments(path_at(nodes, i)),
        i > 0 ==> path_at(nodes, i).len() > 0,
        i == 0 ==> path_at(nodes, i).len() == 0,
    decreases i,
{
    if i > 0 {
        lemma_path_valid(nodes, nodes[i].container as int);
    }
}

proof fn lemma_path_injective(nodes: Seq<Node>, i: int, j: int)
    requires
        nodes_wf(nodes),
        0 <= i < nodes.len(),
        0 <= j < nodes.len(),
        path_at(nodes, i) == path_at(nodes, j),
    ensures
        i == j,
    decreases i + j,
{
    lemma_path_valid(nodes, i);
    lemma_path_valid(nodes, j);
    if i > 0 && j > 0 {
        let ci = nodes[i].container as int;
        let cj = nodes[j].container as int;
        assert(path_at(nodes, i).last() == nodes[i].name@);
        assert(path_at(nodes, j).last() == nodes[j].name@);
        assert(path_at(nodes, i).drop_last() =~= path_at(nodes, ci));
        assert(path_at(nodes, j).drop_last() =~= path_at(nodes, cj));
        lemma_path_injective(nodes, ci, cj);
    }
}

proof fn lemma_map_dom(nodes: Seq<Node>, n: int, p: Seq<Seq<char>>)
    requires
        0 <= n,
    ensures
        nodes_map(nodes, n).dom().contains(p) <==> exists|i: int|
            0 <= i < n && #[trigger] path_at(nodes, i) == p,
    decreases n,
{
    if n > 0 {
        lemma_map_dom(nodes, n - 1, p);
        if nodes_map(nodes, n).dom().contains(p) {
            if p == path_at(nodes, n - 1) {
            } else {
                let i = choose|i: int| 0 <= i < n - 1 && #[trigger] path_at(nodes, i) == p;
                assert(0 <= i < n && path_at(nodes, i) == p);
            }
        }
    }
}

proof fn lemma_map_value(nodes: Seq<Node>, n: int, i: int)
    requires
        nodes_wf(nodes),
        0 <= i < n <= nodes.len(),
    ensures
        nodes_map(nodes, n).dom().contains(path_at(nodes, i)),
        nodes_map(nodes, n)[path_at(nodes, i)] == node_view(nodes, i),
    decreases n,
{
    if i < n - 1 {
        lemma_map_value(nodes, n - 1, i);
        if path_at(nodes, n - 1) == path_at(nodes, i) {
            lemma_path_injective(nodes, n - 1, i);
        }
    }
}

proof fn lemma_map_len(nodes: Seq<Node>, n: int)
    requires
        nodes_wf(nodes),
        0 <= n <= nodes.len(),
    ensures
        nodes_map(nodes, n).dom().finite(),
        nodes_map(nodes, n).dom().len() == n,
    decreases n,
{
    if n > 0 {
        let last = path_at(nodes, n - 1);
        lemma_map_len(nodes, n - 1);
        lemma_map_dom(nodes, n - 1, last);
        if nodes_map(nodes, n - 1).dom().contains(last) {
            let i = choose|i: int| 0 <= i < n - 1 && #[trigger] path_at(nodes, i) == last;
            lemma_path_injective(nodes, i, n - 1);
        }
        assert(nodes_map(nodes, n).dom() =~= nodes_map(nodes, n - 1).dom().insert(last));
    }
}

proof fn lemma_map_stable(a: Seq<Node>, b: Seq<Node>, n: int)
    requires
        nodes_wf(a),
        a.len() <= b.len(),
        0 <= n <= a.len(),
        forall|k: int| 0 <= k < a.len() ==> #[trigger] a[k] == b[k],
    ensures
        nodes_map(a, n) == nodes_map(b, n),
    decreases n,
{
    if n > 0 {
        lemma_map_stable(a, b, n - 1);
        lemma_path_stable(a, b, n - 1);
        match a[n - 1].parent {
            Some(p) => {
                lemma_path_stable(a, b, p as int);
            },
            None => {},
        }
    }
}

proof fn lemma_vars_dom(vars: Seq<TypeVar>, name: Seq<char>)
    ensures
        vars_map(vars).dom().contains(name) <==> var_named(vars, name),
    decreases vars.len(),
{
    if vars.len() > 0 {
        let rest = vars.drop_last();
        lemma_vars_dom(rest, name);
        if var_named(vars, name) {
            let a = choose|a: int| 0 <= a < vars.len() && (#[trigger] vars[a]).name@ == name;
            if a < vars.len() - 1 {
                assert(rest[a].name@ == name);
            }
        }
        if var_named(rest, name) {
            let a = choose|a: int| 0 <= a < rest.len() && (#[trigger] rest[a]).name@ == name;
            assert(vars[a].name@ == name);
        }
    }
}

proof fn lemma_vars_value(vars: Seq<TypeVar>, a: int)
    requires
        vars_wf(vars),
        0 <= a < vars.len(),
    ensures
        vars_map(vars).dom().contains(vars[a].name@),
        vars_map(vars)[vars[a].name@] == vars[a]@,
    decreases vars.len(),
{
    if a < vars.len() - 1 {
        let rest = vars.drop_last();
        assert(rest[a] == vars[a]);
        assert(vars_wf(rest)) by {
            assert forall|x: int, y: int| 0 <= x < y < rest.len() implies (#[trigger] rest[x]).name@
                != (#[trigger] rest[y]).name@ by {
                assert(rest[x] == vars[x] && rest[y] == vars[y]);
            }
            assert forall|x: int| 0 <= x < rest.len() implies (#[trigger] rest[x]).name@.len()
                > 0 by {
                assert(rest[x] == vars[x]);
            }
        }
        lemma_vars_value(rest, a);
        assert(vars[a].name@ != vars[vars.len() - 1].name@);
    }
}

proof fn lemma_child_known(nodes: Seq<Node>, at: int, name: Seq<char>)
    requires
        nodes_wf(nodes),
        0 <= at < nodes.len(),
    ensures
        nodes_map(nodes, nodes.len() as int).dom().contains(path_at(nodes, at).push(name))
            <==> exists|j: int| 0 < j < nodes.len() && #[trigger] is_child(nodes, j, at, name),
{
    let n = nodes.len() as int;
    let p = path_at(nodes, at).push(name);
    lemma_map_dom(nodes, n, p);
    if nodes_map(nodes, n).dom().contains(p) {
        let j = choose|j: int| 0 <= j < n && #[trigger] path_at(nodes, j) == p;
        lemma_path_valid(nodes, j);
        let cj = nodes[j].container as int;
        assert(path_at(nodes, j).last() == nodes[j].name@);
        assert(path_at(nodes, j).drop_last() =~= path_at(nodes, cj));
        assert(p.drop_last() =~= path_at(nodes, at));
        lemma_path_injective(nodes, cj, at);
        assert(is_child(nodes, j, at, name));
    }
    if exists|j: int| 0 < j < nodes.len() && #[trigger] is_child(nodes, j, at, name) {
        let j = choose|j: int| 0 < j < nodes.len() && #[trigger] is_child(nodes, j, at, name);
        assert(path_at(nodes, j) == p);
    }
}

proof fn lemma_nodes_view_wf(nodes: Seq<Node>)
    requires
        nodes_wf(nodes),
    ensures
        tree_wf(nodes_map(nodes, nodes.len() as int)),
{
    let n = nodes.len() as int;
    let t = nodes_map(nodes, n);
    lemma_map_value(nodes, n, 0);
    lemma_path_valid(nodes, 0);
    assert(path_at(nodes, 0) =~= Seq::empty());
    assert forall|p: Seq<Seq<char>>| p.len() > 0 && t.dom().contains(p) implies #[trigger] t.dom().contains(
        p.drop_last(),
    ) by {
        lemma_map_dom(nodes, n, p);
        let i = choose|i: int| 0 <= i < n && #[trigger] path_at(nodes, i) == p;
        lemma_path_valid(nodes, i);
        let c = nodes[i].container as int;
        assert(p.drop_last() =~= path_at(nodes, c));
        lemma_map_value(nodes, n, c);
    }
    assert forall|p: Seq<Seq<char>>| #[trigger] t.dom().contains(p) implies valid_segments(p) by {
        lemma_map_dom(nodes, n, p);
        let i = choose|i: int| 0 <= i < n && #[trigger] path_at(nodes, i) == p;
        lemma_path_valid(nodes, i);
    }
    assert forall|p: Seq<Seq<char>>| #[trigger] t.dom().contains(p) implies (t[p].parent matches Some(
        q,
    ) ==> t.dom().contains(q)) by {
        lemma_map_dom(nodes, n, p);
        let i = choose|i: int| 0 <= i < n && #[trigger] path_at(nodes, i) == p;
        lemma_map_value(nodes, n, i);
        match nodes[i].parent {
            Some(target) => {
                lemma_map_value(nodes, n, target as int);
            },
            None => {},
        }
    }
    assert forall|p: Seq<Seq<char>>, name: Seq<char>|
        t.dom().contains(p) && #[trigger] t[p].vars.dom().contains(name) implies name.len() > 0 && (
        p.len() > 0 ==> !t.dom().contains(p.push(name))) by {
        lemma_map_dom(nodes, n, p);
        let i = choose|i: int| 0 <= i < n && #[trigger] path_at(nodes, i) == p;
        lemma_map_value(nodes, n, i);
        lemma_vars_dom(nodes[i].vars@, name);
        let a = choose|a: int|
            0 <= a < nodes[i].vars@.len() && (#[trigger] nodes[i].vars@[a]).name@ == name;
        assert(vars_wf(nodes[i].vars@));
        if p.len() > 0 && t.dom().contains(p.push(name)) {
            lemma_path_valid(nodes, i);
            lemma_child_known(nodes, i, name);
            let j = choose|j: int| 0 < j < nodes.len() && #[trigger] is_child(nodes, j, i, name);
            assert(!var_named(nodes[i].vars@, nodes[j].name@));
        }
    }
}


proof fn lemma_push_wf(nodes: Seq<Node>, node: Node)
    requires
        nodes_wf(nodes),
        node.container < nodes.len(),
        node.name@.len() > 0,
        node.parent matches Some(p) ==> p <= nodes.len(),
        node.vars@.len() == 0,
        forall|j: int| 0 < j < nodes.len() ==> !is_child(nodes, j, node.container as int, node.name@),
        node.container > 0 ==> !var_named(nodes[node.container as int].vars@, node.name@),
    ensures
        nodes_wf(nodes.push(node)),
{
    let after = nodes.push(node);
    let n = nodes.len() as int;
    assert forall|i: int, j: int|
        0 < i < after.len() && 0 < j < after.len() && i != j implies !((#[trigger] after[i]).container
        == (#[trigger] after[j]).container && after[i].name@ == after[j].name@) by {
        if i < n && j < n {
            assert(after[i] == nodes[i] && after[j] == nodes[j]);
        } else if i < n {
            assert(!is_child(nodes, i, node.container as int, node.name@));
        } else {
            assert(!is_child(nodes, j, node.container as int, node.name@));
        }
    }
    assert forall|i: int| 0 <= i < after.len() implies vars_wf((#[trigger] after[i]).vars@) by {
        if i < n {
            assert(after[i] == nodes[i]);
        }
    }
    assert forall|c: int, j: int|
        0 < c < after.len() && 0 < j < after.len() && (#[trigger] after[j]).container == c
        implies !var_named((#[trigger] after[c]).vars@, after[j].name@) by {
        if c < n && j < n {
            assert(after[j] == nodes[j] && after[c] == nodes[c]);
        } else if c < n {
            assert(after[c] == nodes[c]);
        } else {
            assert(after[j].container < j);
        }
    }
}

proof fn lemma_map_push(nodes: Seq<Node>, node: Node)
    requires
        nodes_wf(nodes),
        nodes_wf(nodes.push(node)),
        node.parent matches Some(p) && p < nodes.len(),
    ensures
        nodes_map(nodes.push(node), (nodes.len() + 1) as int) == nodes_map(nodes, nodes.len() as int).insert(
            path_at(nodes, node.container as int).push(node.name@),
            NodeView {
                parent: Some(path_at(nodes, node.parent->0 as int)),
                vars: vars_map(node.vars@),
                location: node.location,
            },
        ),
{
    let after = nodes.push(node);
    let n = nodes.len() as int;
    lemma_map_stable(nodes, after, n);
    lemma_path_stable(nodes, after, node.container as int);
    lemma_path_stable(nodes, after, node.parent->0 as int);
    assert(after[n] == node);
}

/// Adding the next segment of a path to a tree that holds the path so far.
proof fn lemma_with_path_step(t: TreeView, location: Location, path: Seq<Seq<char>>, k: int)
    requires
        0 <= k < path.len(),
        !with_path(t, location, path.take(k)).dom().contains(path.take(k + 1)),
    ensures
        with_path(t, location, path.take(k)).insert(
            path.take(k + 1),
            fresh_node(path.take(k + 1), location),
        ) == with_path(t, location, path.take(k + 1)),
{
    let short = path.take(k);
    let long = path.take(k + 1);
    let left = with_path(t, location, short).insert(long, fresh_node(long, location));
    let right = with_path(t, location, long);
    assert forall|q: Seq<Seq<char>>| is_prefix(q, long) <==> is_prefix(q, short) || q == long by {
        if q.len() <= k {
            assert(long.take(q.len() as int) =~= short.take(q.len() as int));
        } else if q.len() == k + 1 {
            assert(long.take(q.len() as int) =~= long);
        }
    }
    assert(left =~= right);
}

/// A path of which every part is in the tree adds nothing to it.
proof fn lemma_with_path_known(t: TreeView, location: Location, path: Seq<Seq<char>>)
    requires
        tree_wf(t),
        t.dom().contains(path),
    ensures
        with_path(t, location, path) == t,
{
    assert forall|q: Seq<Seq<char>>| is_prefix(q, path) implies t.dom().contains(q) by {
        lemma_prefix_known(t, path, q.len() as int);
    }
    assert(with_path(t, location, path) =~= t);
}

/// The known part of a path ends where the first unknown type would stand.
pub proof fn lemma_known_len(t: TreeView, path: Seq<Seq<char>>, k: int)
    requires
        tree_wf(t),
        0 <= k <= path.len(),
        t.dom().contains(path.take(k)),
        k < path.len() ==> !t.dom().contains(path.take(k + 1)),
    ensures
        known_len(t, path) == k,
    decreases path.len(),
{
    if k == path.len() {
        assert(path.take(k) =~= path);
    } else {
        if t.dom().contains(path) {
            lemma_prefix_known(t, path, k + 1);
        }
        let shorter = path.drop_last();
        assert(shorter.take(k) =~= path.take(k));
        if k < shorter.len() {
            assert(shorter.take(k + 1) =~= path.take(k + 1));
        }
        lemma_known_len(t, shorter, k);
    }
}

/// The model after one node of the arena was changed in place.
proof fn lemma_map_update(nodes: Seq<Node>, after: Seq<Node>, i: int)
    requires
        nodes_wf(nodes),
        nodes_wf(after),
        0 <= i < nodes.len(),
        after.len() == nodes.len(),
        after[i].name == nodes[i].name,
        after[i].container == nodes[i].container,
        forall|k: int| 0 <= k < nodes.len() && k != i ==> #[trigger] after[k] == nodes[k],
    ensures
        forall|k: int| 0 <= k < nodes.len() ==> #[trigger] path_at(after, k) == path_at(nodes, k),
        nodes_map(after, after.len() as int) == nodes_map(nodes, nodes.len() as int).insert(
            path_at(nodes, i),
            node_view(after, i),
        ),
{
    let n = nodes.len() as int;
    assert forall|k: int| 0 <= k < n implies #[trigger] path_at(after, k) == path_at(nodes, k) by {
        assert forall|x: int| 0 <= x <= k implies (#[trigger] after[x]).name == nodes[x].name
            && after[x].container == nodes[x].container by {
            if x != i {
                assert(after[x] == nodes[x]);
            }
        }
        lemma_path_stable(after, nodes, k);
    }
    let m = nodes_map(nodes, n);
    let m2 = nodes_map(after, n);
    let target = m.insert(path_at(nodes, i), node_view(after, i));
    lemma_map_value(nodes, n, i);
    assert forall|q: Seq<Seq<char>>| m2.dom().contains(q) <==> target.dom().contains(q) by {
        lemma_map_dom(nodes, n, q);
        lemma_map_dom(after, n, q);
        if m2.dom().contains(q) {
            let k = choose|k: int| 0 <= k < n && #[trigger] path_at(after, k) == q;
            assert(path_at(nodes, k) == q);
        }
        if m.dom().contains(q) {
            let k = choose|k: int| 0 <= k < n && #[trigger] path_at(nodes, k) == q;
            assert(path_at(after, k) == q);
        }
    }
    assert forall|q: Seq<Seq<char>>| m2.dom().contains(q) implies m2[q] == target[q] by {
        lemma_map_dom(after, n, q);
        let k = choose|k: int| 0 <= k < n && #[trigger] path_at(after, k) == q;
        lemma_map_value(after, n, k);
        lemma_map_value(nodes, n, k);
        if k != i {
            if path_at(nodes, k) == path_at(nodes, i) {
                lemma_path_injective(nodes, k, i);
            }
            assert(after[k] == nodes[k]);
            match nodes[k].parent {
                Some(target_id) => {
                    assert(path_at(after, target_id as int) == path_at(nodes, target_id as int));
                },
                None => {},
            }
        }
    }
    assert(m2 =~= target);
}

proof fn lemma_update_wf(nodes: Seq<Node>, after: Seq<Node>, i: int)
    requires
        nodes_wf(nodes),
        0 <= i < nodes.len(),
        after.len() == nodes.len(),
        after[i].name == nodes[i].name,
        after[i].container == nodes[i].container,
        after[i].parent matches Some(p) ==> p < nodes.len(),
        vars_wf(after[i].vars@),
        forall|j: int|
            i > 0 && 0 < j < nodes.len() && (#[trigger] nodes[j]).container == i ==> !var_named(
                after[i].vars@,
                nodes[j].name@,
            ),
        forall|k: int| 0 <= k < nodes.len() && k != i ==> #[trigger] after[k] == nodes[k],
    ensures
        nodes_wf(after),
{
    assert forall|k: int| 0 <= k < after.len() implies (#[trigger] after[k]).name == nodes[k].name
        && after[k].container == nodes[k].container by {
        if k != i {
            assert(after[k] == nodes[k]);
        }
    }
    assert forall|a: int, b: int|
        0 < a < after.len() && 0 < b < after.len() && a != b implies !((#[trigger] after[a]).container
        == (#[trigger] after[b]).container && after[a].name@ == after[b].name@) by {
        assert(after[a].name == nodes[a].name && after[a].container == nodes[a].container);
        assert(after[b].name == nodes[b].name && after[b].container == nodes[b].container);
    }
    assert forall|c: int, j: int|
        0 < c < after.len() && 0 < j < after.len() && (#[trigger] after[j]).container == c
        implies !var_named((#[trigger] after[c]).vars@, after[j].name@) by {
        assert(after[j].name == nodes[j].name && after[j].container == nodes[j].container);
        if c != i {
            assert(after[c] == nodes[c]);
        }
    }
    assert forall|k: int| 0 <= k < after.len() implies vars_wf((#[trigger] after[k]).vars@) by {
        if k != i {
            assert(after[k] == nodes[k]);
        }
    }
    assert forall|k: int| 0 <= k < after.len() implies ((#[trigger] after[k]).parent matches Some(p)
        ==> p < after.len()) by {
        if k != i {
            assert(after[k] == nodes[k]);
        }
    }
    assert forall|k: int| 0 < k < after.len() implies (#[trigger] after[k]).container < k
        && after[k].name@.len() > 0 by {
        assert(after[k].name == nodes[k].name && after[k].container == nodes[k].container);
    }
}

proof fn lemma_vars_push(vars: Seq<TypeVar>, var: TypeVar)
    requires
        vars_wf(vars),
        var.name@.len() > 0,
        !var_named(vars, var.name@),
    ensures
        vars_wf(vars.push(var)),
        vars_map(vars.push(var)) == vars_map(vars).insert(var.name@, var@),
{
    let after = vars.push(var);
    assert(after.drop_last() =~= vars);
    assert forall|a: int, b: int| 0 <= a < b < after.len() implies (#[trigger] after[a]).name@ != (
    #[trigger] after[b]).name@ by {
        if b < vars.len() {
            assert(after[a] == vars[a] && after[b] == vars[b]);
        } else {
            assert(after[a] == vars[a]);
        }
    }
    assert forall|a: int| 0 <= a < after.len() implies (#[trigger] after[a]).name@.len() > 0 by {
        if a < vars.len() {
            assert(after[a] == vars[a]);
        }
    }
}

// ----------------------------------------------------------------------
// Operations on models

/// The root of a tree in which nothing was declared.
pub open spec fn root_node() -> NodeView {
    NodeView { parent: None, vars: Map::empty(), location: Location::spec_builtins() }
}

/// The tree in which nothing was declared: the root alone.
pub open spec fn empty_tree() -> TreeView {
    Map::<Seq<Seq<char>>, NodeView>::empty().insert(Seq::empty(), root_node())
}

/// The type that is created at `path`: it inherits from the type one level
/// up and has no variables.
pub open spec fn fresh_node(path: Seq<Seq<char>>, location: Location) -> NodeView {
    NodeView { parent: Some(path.drop_last()), vars: Map::empty(), location }
}

/// The tree with the type at `path` and every type above it. Those that the
/// tree already holds stay as they are; the others are created.
pub open spec fn with_path(t: TreeView, location: Location, path: Seq<Seq<char>>) -> TreeView {
    Map::new(
        |q: Seq<Seq<char>>| t.dom().contains(q) || is_prefix(q, path),
        |q: Seq<Seq<char>>|
            if t.dom().contains(q) {
                t[q]
            } else {
                fresh_node(q, location)
            },
    )
}

/// The number of leading segments of `path` that lead to a type of the tree.
pub open spec fn known_len(t: TreeView, path: Seq<Seq<char>>) -> nat
    decreases path.len(),
{
    if path.len() == 0 || t.dom().contains(path) {
        path.len()
    } else {
        known_len(t, path.drop_last())
    }
}

/// Whether the path cannot be completed: below the root, the first type that
/// would have to be created has the name of a variable of the type it would
/// stand in.
pub open spec fn blocked(t: TreeView, path: Seq<Seq<char>>) -> bool {
    let m = known_len(t, path) as int;
    0 < m < path.len() && t[path.take(m)].vars.dom().contains(path[m])
}

/// The tree in which the type at `path` inherits from the type at `target`.
pub open spec fn with_parent(
    t: TreeView,
    path: Seq<Seq<char>>,
    target: Seq<Seq<char>>,
) -> TreeView {
    t.insert(
        path,
        NodeView { parent: Some(target), vars: t[path].vars, location: t[path].location },
    )
}

/// The tree in which the type at `path` has one more variable.
pub open spec fn with_var(
    t: TreeView,
    path: Seq<Seq<char>>,
    name: Seq<char>,
    var: TypeVarView,
) -> TreeView {
    t.insert(
        path,
        NodeView {
            parent: t[path].parent,
            vars: t[path].vars.insert(name, var),
            location: t[path].location,
        },
    )
}

/// What declaring the type at `path` does to a tree, and how it ends.
///
/// A path with an empty segment, or one blocked by a variable, changes
/// nothing. Else the type and the types above it are created as far as they
/// are missing. Where the declaration names a parent, the parent must be a
/// reference to a type that the tree then holds, and the declared type is
/// made to inherit from it.
pub open spec fn entry_added(
    t: TreeView,
    location: Location,
    path: Seq<Seq<char>>,
    parent: Option<ExpressionView>,
) -> (TreeView, Result<(), RegistrationError>) {
    if !valid_segments(path) {
        (t, Err(RegistrationError::EmptySegment))
    } else if blocked(t, path) {
        (t, Err(RegistrationError::KindConflict))
    } else {
        let created = with_path(t, location, path);
        match parent {
            None => (created, Ok(())),
            Some(ExpressionView::TypePath(target)) => if created.dom().contains(target) {
                (with_parent(created, path, target), Ok(()))
            } else {
                (created, Err(RegistrationError::UnresolvedReference))
            },
            Some(_) => (created, Err(RegistrationError::UnresolvedReference)),
        }
    }
}

/// Whether a default value refers to a type that the tree does not hold.
pub open spec fn dangling(t: TreeView, value: Option<ExpressionView>) -> bool {
    value matches Some(ExpressionView::TypePath(target)) && !t.dom().contains(target)
}

/// What declaring a variable on the type at `path` does to a tree, and how
/// it ends.
///
/// An empty name, or an empty segment in either path, changes nothing, and
/// neither does a path blocked by a variable. Else the owning type is
/// created as far as it is missing. The variable is then refused where the
/// type already has one of that name, where (below the root) the type holds
/// a type of that name, and where its default refers to a type that the tree
/// does not hold.
pub open spec fn var_added(
    t: TreeView,
    path: Seq<Seq<char>>,
    name: Seq<char>,
    var: TypeVarView,
) -> (TreeView, Result<(), RegistrationError>) {
    if !valid_segments(path) || !valid_segments(var.type_path) || name.len() == 0 {
        (t, Err(RegistrationError::EmptySegment))
    } else if blocked(t, path) {
        (t, Err(RegistrationError::KindConflict))
    } else {
        let created = with_path(t, var.location, path);
        if created[path].vars.dom().contains(name) || (path.len() > 0 && created.dom().contains(
            path.push(name),
        )) {
            (created, Err(RegistrationError::KindConflict))
        } else if dangling(created, var.value) {
            (created, Err(RegistrationError::UnresolvedReference))
        } else {
            (with_var(created, path, name, var), Ok(()))
        }
    }
}

/// Whether `after` has every type of `before`, declared at the same place,
/// with every variable that it had, unchanged.
pub open spec fn keeps_declarations(before: TreeView, after: TreeView) -> bool {
    forall|q: Seq<Seq<char>>| #[trigger]
        before.dom().contains(q) ==> {
            &&& after.dom().contains(q)
            &&& after[q].location == before[q].location
            &&& forall|name: Seq<char>| #[trigger]
                before[q].vars.dom().contains(name) ==> after[q].vars.dom().contains(name)
                    && after[q].vars[name] == before[q].vars[name]
        }
}

/// Whether every type of `before` has the same parent in `after`.
pub open spec fn keeps_parents(before: TreeView, after: TreeView) -> bool {
    forall|q: Seq<Seq<char>>| #[trigger]
        before.dom().contains(q) ==> after.dom().contains(q) && after[q].parent
            == before[q].parent
}

/// Declaring a type removes nothing and changes no variable, however it
/// ends. Without a parent in the declaration, every type that was there
/// stays exactly as it was.
pub proof fn lemma_entry_added_keeps(
    t: TreeView,
    location: Location,
    path: Seq<Seq<char>>,
    parent: Option<ExpressionView>,
)
    ensures
        keeps_declarations(t, entry_added(t, location, path, parent).0),
        parent is None ==> keeps_parents(t, entry_added(t, location, path, parent).0),
        parent is None ==> forall|q: Seq<Seq<char>>| #[trigger]
            t.dom().contains(q) ==> entry_added(t, location, path, parent).0[q] == t[q],
{
}

/// Declaring a variable removes nothing, changes no variable that was there
/// and no parent, however it ends.
pub proof fn lemma_var_added_keeps(
    t: TreeView,
    path: Seq<Seq<char>>,
    name: Seq<char>,
    var: TypeVarView,
)
    ensures
        keeps_declarations(t, var_added(t, path, name, var).0),
        keeps_parents(t, var_added(t, path, name, var).0),
{
}

impl View for ObjectTree {
    type V = TreeView;

    closed spec fn view(&self) -> TreeView {
        nodes_map(self.nodes@, self.nodes@.len() as int)
    }
}

impl ObjectTree {
    /// Whether the tree is well formed. Every tree that this module hands
    /// out is, and every operation keeps it so.
    pub closed spec fn wf(&self) -> bool {
        nodes_wf(self.nodes@)
    }

    /// The number of types in the tree, the root included.
    pub closed spec fn spec_len(&self) -> nat {
        self.nodes@.len()
    }

    /// The path of the type with the given id.
    pub closed spec fn path_of(&self, id: usize) -> Seq<Seq<char>> {
        path_at(self.nodes@, id as int)
    }

    /// The model of a well-formed tree is well formed, and it has as many
    /// types as the tree counts.
    pub proof fn lemma_view_wf(&self)
        requires
            self.wf(),
        ensures
            tree_wf(self@),
            self@.dom().finite(),
            self@.dom().len() == self.spec_len(),
    {
        lemma_nodes_view_wf(self.nodes@);
        lemma_map_len(self.nodes@, self.nodes@.len() as int);
    }

    /// Ids and paths name the same types: every id has its path in the
    /// model, and two ids with one path are the same id. The root has id 0.
    pub proof fn lemma_ids(&self, a: usize, b: usize)
        requires
            self.wf(),
            a < self.spec_len(),
            b < self.spec_len(),
        ensures
            self@.dom().contains(self.path_of(a)),
            self.path_of(a) == self.path_of(b) ==> a == b,
            self.path_of(0) == Seq::<Seq<char>>::empty(),
    {
        lemma_map_value(self.nodes@, self.nodes@.len() as int, a as int);
        if self.path_of(a) == self.path_of(b) {
            lemma_path_injective(self.nodes@, a as int, b as int);
        }
    }

    /// A tree in which nothing was declared.
    pub fn new() -> (tree: ObjectTree)
        ensures
            tree.wf(),
            tree@ == empty_tree(),
    {
        let root = Node {
            name: String::new(),
            container: 0,
            parent: None,
            vars: Vec::new(),
            location: Location::builtins(),
        };
        let mut nodes: Vec<Node> = Vec::new();
        nodes.push(root);
        let tree = ObjectTree { nodes };
        proof {
            assert(vars_map(tree.nodes@[0].vars@) =~= Map::empty());
            assert(nodes_map(tree.nodes@, 0) =~= Map::empty());
            assert(nodes_map(tree.nodes@, 1) =~= empty_tree());
        }
        tree
    }

    /// The number of types in the tree, the root included.
    pub fn len(&self) -> (n: usize)
        ensures
            n == self.spec_len(),
    {
        self.nodes.len()
    }

    fn find_child(&self, at: usize, name: &String) -> (r: Option<usize>)
        requires
            self.wf(),
            at < self.nodes@.len(),
        ensures
            match r {
                Some(j) => 0 < j < self.nodes@.len() && is_child(
                    self.nodes@,
                    j as int,
                    at as int,
                    name@,
                ),
                None => forall|j: int|
                    0 < j < self.nodes@.len() ==> !is_child(self.nodes@, j, at as int, name@),
            },
    {
        let mut j: usize = 1;
        while j < self.nodes.len()
            invariant
                1 <= j,
                forall|i: int| 0 < i < j && i < self.nodes@.len() ==> !is_child(
                    self.nodes@,
                    i,
                    at as int,
                    name@,
                ),
            decreases self.nodes@.len() - j,
        {
            if self.nodes[j].container == at && self.nodes[j].name == *name {
                return Some(j);
            }
            j += 1;
        }
        None
    }

    fn var_index(&self, id: usize, name: &String) -> (r: Option<usize>)
        requires
            id < self.nodes@.len(),
        ensures
            match r {
                Some(a) => a < self.nodes@[id as int].vars@.len()
                    && self.nodes@[id as int].vars@[a as int].name@ == name@,
                None => !var_named(self.nodes@[id as int].vars@, name@),
            },
    {
        let mut a: usize = 0;
        while a < self.nodes[id].vars.len()
            invariant
                id < self.nodes@.len(),
                forall|b: int|
                    0 <= b < a && b < self.nodes@[id as int].vars@.len() ==> (
                    #[trigger] self.nodes@[id as int].vars@[b]).name@ != name@,
            decreases self.nodes@[id as int].vars@.len() - a,
        {
            if self.nodes[id].vars[a].name == *name {
                return Some(a);
            }
            a += 1;
        }
        None
    }

    /// Follows the path from the root for as long as it leads to types of
    /// the tree. Returns the last type reached and the number of segments
    /// that led there.
    fn walk(&self, path: &[String]) -> (r: (usize, usize))
        requires
            self.wf(),
        ensures
            r.0 < self.nodes@.len(),
            r.1 <= path.len(),
            path_at(self.nodes@, r.0 as int) == path.deep_view().take(r.1 as int),
            r.1 < path.len() ==> !self@.dom().contains(path.deep_view().take(r.1 + 1)),
            r.1 < path.len() ==> forall|j: int|
                0 < j < self.nodes@.len() ==> !is_child(
                    self.nodes@,
                    j,
                    r.0 as int,
                    path.deep_view()[r.1 as int],
                ),
    {
        let ghost p = path.deep_view();
        let mut cur: usize = 0;
        let mut k: usize = 0;
        proof {
            lemma_path_valid(self.nodes@, 0);
            assert(p.take(0) =~= path_at(self.nodes@, 0));
        }
        while k < path.len()
            invariant
                self.wf(),
                p == path.deep_view(),
                k <= path.len(),
                cur < self.nodes@.len(),
                path_at(self.nodes@, cur as int) == p.take(k as int),
            decreases path.len() - k,
        {
            proof {
                assert(p[k as int] == path[k as int]@);
                assert(p.take(k + 1) =~= p.take(k as int).push(p[k as int]));
            }
            match self.find_child(cur, &path[k]) {
                Some(j) => {
                    cur = j;
                },
                None => {
                    proof {
                        lemma_child_known(self.nodes@, cur as int, p[k as int]);
                    }
                    return (cur, k);
                },
            }
            k += 1;
        }
        (cur, k)
    }

    /// The id of the type at the path, if the tree holds it.
    pub fn find(&self, path: &[String]) -> (r: Option<usize>)
        requires
            self.wf(),
        ensures
            match r {
                Some(id) => id < self.spec_len() && self.path_of(id) == path.deep_view()
                    && self@.dom().contains(path.deep_view()),
                None => !self@.dom().contains(path.deep_view()),
            },
    {
        let (at, known) = self.walk(path);
        let ghost p = path.deep_view();
        if known == path.len() {
            proof {
                assert(p.take(known as int) =~= p);
                lemma_map_value(self.nodes@, self.nodes@.len() as int, at as int);
            }
            Some(at)
        } else {
            proof {
                lemma_nodes_view_wf(self.nodes@);
                if self@.dom().contains(p) {
                    lemma_prefix_known(self@, p, known + 1);
                }
            }
            None
        }
    }

    /// Makes sure that the tree holds the type at the path, creating it and
    /// the types above it as far as they are missing, and returns its id.
    ///
    /// Fails without touching the tree where a segment is empty
    /// (`EmptySegment`) or the path is blocked by a variable
    /// (`KindConflict`).
    pub fn ensure_path(&mut self, location: Location, path: &[String]) -> (r: Result<
        usize,
        RegistrationError,
    >)
        requires
            old(self).wf(),
        ensures
            final(self).wf(),
            match r {
                Ok(id) => {
                    &&& valid_segments(path.deep_view())
                    &&& !blocked(old(self)@, path.deep_view())
                    &&& final(self)@ == with_path(old(self)@, location, path.deep_view())
                    &&& id < final(self).spec_len()
                    &&& final(self).path_of(id) == path.deep_view()
                },
                Err(e) => {
                    &&& final(self)@ == old(self)@
                    &&& if valid_segments(path.deep_view()) {
                        blocked(old(self)@, path.deep_view()) && e
                            == RegistrationError::KindConflict
                    } else {
                        e == RegistrationError::EmptySegment
                    }
                },
            },
    {
        if !segments_valid(path) {
            return Err(RegistrationError::EmptySegment);
        }
        let ghost p = path.deep_view();
        let ghost t = self@;
        let (at, known) = self.walk(path);
        proof {
            lemma_nodes_view_wf(self.nodes@);
            lemma_map_value(self.nodes@, self.nodes@.len() as int, at as int);
            lemma_known_len(t, p, known as int);
            lemma_path_valid(self.nodes@, at as int);
            if known < path.len() {
                assert(p[known as int] == path[known as int]@);
                lemma_vars_dom(self.nodes@[at as int].vars@, p[known as int]);
            }
        }
        if known < path.len() && at != 0 {
            if self.var_index(at, &path[known]).is_some() {
                return Err(RegistrationError::KindConflict);
            }
        }
        let mut cur: usize = at;
        let mut k: usize = known;
        proof {
            lemma_with_path_known(t, location, p.take(k as int));
        }
        while k < path.len()
            invariant
                self.wf(),
                p == path.deep_view(),
                valid_segments(p),
                k <= path.len(),
                cur < self.nodes@.len(),
                path_at(self.nodes@, cur as int) == p.take(k as int),
                self@ == with_path(t, location, p.take(k as int)),
                k < path.len() ==> forall|j: int|
                    0 < j < self.nodes@.len() ==> !is_child(
                        self.nodes@,
                        j,
                        cur as int,
                        p[k as int],
                    ),
                k < path.len() && cur > 0 ==> !var_named(
                    self.nodes@[cur as int].vars@,
                    p[k as int],
                ),
            decreases path.len() - k,
        {
            let ghost before = self.nodes@;
            let node = Node {
                name: path[k].clone(),
                container: cur,
                parent: Some(cur),
                vars: Vec::new(),
                location,
            };
            proof {
                assert(p[k as int] == path[k as int]@);
                assert(node.name@ == p[k as int]);
                lemma_push_wf(before, node);
                lemma_map_push(before, node);
                lemma_child_known(before, cur as int, p[k as int]);
                assert(p.take(k + 1) =~= p.take(k as int).push(p[k as int]));
                assert(p.take(k + 1).drop_last() =~= p.take(k as int));
                assert(vars_map(node.vars@) =~= Map::empty());
                lemma_with_path_step(t, location, p, k as int);
            }
            self.nodes.push(node);
            cur = self.nodes.len() - 1;
            k += 1;
            proof {
                assert(self.nodes@[cur as int] == node);
                lemma_path_stable(before, self.nodes@, node.container as int);
                assert(!var_named(self.nodes@[cur as int].vars@, p[k as int])) by {
                    assert(self.nodes@[cur as int].vars@.len() == 0);
                }
            }
        }
        proof {
            assert(p.take(k as int) =~= p);
        }
        Ok(cur)
    }

    /// Declares the type at the path; with `parent`, also makes it inherit
    /// from the type that `parent` refers to.
    pub fn add_entry(
        &mut self,
        location: Location,
        path: &[String],
        parent: Option<&Expression>,
    ) -> (r: Result<(), RegistrationError>)
        requires
            old(self).wf(),
        ensures
            final(self).wf(),
            (final(self)@, r) == entry_added(
                old(self)@,
                location,
                path.deep_view(),
                match parent {
                    Some(expression) => Some(expression@),
                    None => None,
                },
            ),
    {
        let id = match self.ensure_path(location, path) {
            Ok(id) => id,
            Err(e) => {
                return Err(e);
            },
        };
        let target = match parent {
            None => {
                return Ok(());
            },
            Some(Expression::TypePath(target)) => target,
            Some(_) => {
                return Err(RegistrationError::UnresolvedReference);
            },
        };
        let target_id = match self.find(target.as_slice()) {
            Some(target_id) => target_id,
            None => {
                return Err(RegistrationError::UnresolvedReference);
            },
        };
        let ghost before = self.nodes@;
        self.nodes[id].parent = Some(target_id);
        proof {
            let after = self.nodes@;
            let n = before.len() as int;
            lemma_map_value(before, n, id as int);
            assert(after[id as int].vars@ == before[id as int].vars@);
            lemma_update_wf(before, after, id as int);
            lemma_map_update(before, after, id as int);
            assert(path_at(after, target_id as int) == path_at(before, target_id as int));
        }
        Ok(())
    }

    /// Declares a variable on the type at the path, creating the type as
    /// far as it is missing. The types that are created are stamped with the
    /// variable's location.
    pub fn add_var(&mut self, path: &[String], var: TypeVar) -> (r: Result<
        (),
        RegistrationError,
    >)
        requires
            old(self).wf(),
        ensures
            final(self).wf(),
            (final(self)@, r) == var_added(old(self)@, path.deep_view(), var.name@, var@),
    {
        if !segments_valid(var.type_path.as_slice()) || var.name.as_str().is_empty() {
            return Err(RegistrationError::EmptySegment);
        }
        let id = match self.ensure_path(var.location, path) {
            Ok(id) => id,
            Err(e) => {
                return Err(e);
            },
        };
        let ghost p = path.deep_view();
        let ghost before = self.nodes@;
        proof {
            let n = before.len() as int;
            lemma_map_value(before, n, id as int);
            lemma_vars_dom(before[id as int].vars@, var.name@);
            lemma_child_known(before, id as int, var.name@);
            lemma_path_valid(before, id as int);
        }
        if self.var_index(id, &var.name).is_some() {
            return Err(RegistrationError::KindConflict);
        }
        if id != 0 && self.find_child(id, &var.name).is_some() {
            return Err(RegistrationError::KindConflict);
        }
        match &var.value {
            Some(Expression::TypePath(target)) => {
                if self.find(target.as_slice()).is_none() {
                    return Err(RegistrationError::UnresolvedReference);
                }
            },
            _ => {},
        }
        self.nodes[id].vars.push(var);
        proof {
            let after = self.nodes@;
            lemma_vars_push(before[id as int].vars@, var);
            assert forall|j: int|
                id > 0 && 0 < j < before.len() && (#[trigger] before[j]).container
                    == id implies !var_named(after[id as int].vars@, before[j].name@) by {
                assert(!var_named(before[id as int].vars@, before[j].name@));
                assert(!is_child(before, j, id as int, var.name@));
                if var_named(after[id as int].vars@, before[j].name@) {
                    let a = choose|a: int|
                        0 <= a < after[id as int].vars@.len() && (
                        #[trigger] after[id as int].vars@[a]).name@ == before[j].name@;
                    if a < before[id as int].vars@.len() {
                        assert(before[id as int].vars@[a].name@ == before[j].name@);
                    }
                }
            }
            lemma_update_wf(before, after, id as int);
            lemma_map_update(before, after, id as int);
            match before[id as int].parent {
                Some(target_id) => {
                    assert(path_at(after, target_id as int) == path_at(before, target_id as int));
                },
                None => {},
            }
        }
        Ok(())
    }

    /// The id of the type that the type with the given id inherits from.
    /// `None` for an id that the tree does not have, and for a type without
    /// a parent.
    pub fn parent(&self, id: usize) -> (r: Option<usize>)
        requires
            self.wf(),
        ensures
            match r {
                Some(parent) => id < self.spec_len() && parent < self.spec_len()
                    && self@[self.path_of(id)].parent == Some(self.path_of(parent)),
                None => id >= self.spec_len() || self@[self.path_of(id)].parent is None,
            },
    {
        if id >= self.nodes.len() {
            return None;
        }
        proof {
            lemma_map_value(self.nodes@, self.nodes@.len() as int, id as int);
        }
        self.nodes[id].parent
    }

    /// Where the type with the given id was first declared. `None` for an
    /// id that the tree does not have.
    pub fn location(&self, id: usize) -> (r: Option<Location>)
        requires
            self.wf(),
        ensures
            match r {
                Some(location) => id < self.spec_len() && self@[self.path_of(id)].location
                    == location,
                None => id >= self.spec_len(),
            },
    {
        if id >= self.nodes.len() {
            return None;
        }
        proof {
            lemma_map_value(self.nodes@, self.nodes@.len() as int, id as int);
        }
        Some(self.nodes[id].location)
    }

    /// The variable `name` of the type with the given id. `None` for an id
    /// that the tree does not have, and where the type has no such variable.
    pub fn var(&self, id: usize, name: &str) -> (r: Option<&TypeVar>)
        requires
            self.wf(),
        ensures
            match r {
                Some(var) => {
                    &&& id < self.spec_len()
                    &&& var.name@ == name@
                    &&& self@[self.path_of(id)].vars.dom().contains(name@)
                    &&& self@[self.path_of(id)].vars[name@] == var@
                },
                None => id >= self.spec_len() || !self@[self.path_of(id)].vars.dom().contains(
                    name@,
                ),
            },
    {
        if id >= self.nodes.len() {
            return None;
        }
        let key = String::from_str(name);
        proof {
            lemma_map_value(self.nodes@, self.nodes@.len() as int, id as int);
            lemma_vars_dom(self.nodes@[id as int].vars@, name@);
        }
        match self.var_index(id, &key) {
            Some(a) => {
                proof {
                    lemma_vars_value(self.nodes@[id as int].vars@, a as int);
                }
                Some(&self.nodes[id].vars[a])
            },
            None => None,
        }
    }

    /// The variables of the type with the given id, each once. `None` for
    /// an id that the tree does not have.
    pub fn vars(&self, id: usize) -> (r: Option<&[TypeVar]>)
        requires
            self.wf(),
        ensures
            match r {
                Some(vars) => {
                    &&& id < self.spec_len()
                    &&& forall|k: int|
                        0 <= k < vars@.len() ==> self@[self.path_of(id)].vars.dom().contains(
                            (#[trigger] vars@[k]).name@,
                        ) && self@[self.path_of(id)].vars[vars@[k].name@] == vars@[k]@
                    &&& forall|name: Seq<char>| #[trigger]
                        self@[self.path_of(id)].vars.dom().contains(name) ==> exists|k: int|
                            0 <= k < vars@.len() && (#[trigger] vars@[k]).name@ == name
                    &&& forall|j: int, k: int|
                        0 <= j < k < vars@.len() ==> (#[trigger] vars@[j]).name@ != (
                        #[trigger] vars@[k]).name@
                },
                None => id >= self.spec_len(),
            },
    {
        if id >= self.nodes.len() {
            return None;
        }
        proof {
            let vars = self.nodes@[id as int].vars@;
            lemma_map_value(self.nodes@, self.nodes@.len() as int, id as int);
            assert(vars_wf(vars));
            assert forall|k: int| 0 <= k < vars.len() implies vars_map(vars).dom().contains(
                (#[trigger] vars[k]).name@,
            ) && vars_map(vars)[vars[k].name@] == vars[k]@ by {
                lemma_vars_value(vars, k);
            }
            assert forall|name: Seq<char>| #[trigger]
                vars_map(vars).dom().contains(name) implies exists|k: int|
                0 <= k < vars.len() && (#[trigger] vars[k]).name@ == name by {
                lemma_vars_dom(vars, name);
            }
        }
        Some(self.nodes[id].vars.as_slice())
    }

    /// The path of the type with the given id. `None` for an id that the
    /// tree does not have.
    pub fn path(&self, id: usize) -> (r: Option<Vec<String>>)
        requires
            self.wf(),
        ensures
            match r {
                Some(path) => id < self.spec_len() && path.deep_view() == self.path_of(id),
                None => id >= self.spec_len(),
            },
    {
        if id >= self.nodes.len() {
            return None;
        }
        // the names from the type up to the root
        let mut upward: Vec<String> = Vec::new();
        let mut cur: usize = id;
        proof {
            assert(path_at(self.nodes@, id as int) + upward.deep_view().reverse() =~= path_at(
                self.nodes@,
                id as int,
            ));
        }
        while cur != 0
            invariant
                self.wf(),
                id < self.nodes@.len(),
                cur < self.nodes@.len(),
                path_at(self.nodes@, id as int) == path_at(self.nodes@, cur as int)
                    + upward.deep_view().reverse(),
            decreases cur,
        {
            let ghost before = upward.deep_view();
            let ghost name = self.nodes@[cur as int].name@;
            upward.push(self.nodes[cur].name.clone());
            proof {
                assert(upward.deep_view() =~= before.push(name));
                assert(before.push(name).reverse() =~= seq![name] + before.reverse());
                let above = path_at(self.nodes@, self.nodes@[cur as int].container as int);
                assert(above.push(name) + before.reverse() =~= above + (seq![name]
                    + before.reverse()));
            }
            cur = self.nodes[cur].container;
        }
        proof {
            lemma_path_valid(self.nodes@, 0);
            assert(path_at(self.nodes@, id as int) =~= upward.deep_view().reverse());
        }
        let n = upward.len();
        let mut path: Vec<String> = Vec::new();
        let mut k: usize = n;
        while k > 0
            invariant
                n == upward.len(),
                k <= n,
                path.deep_view() == upward.deep_view().reverse().take(n - k),
            decreases k,
        {
            let ghost before = path.deep_view();
            k -= 1;
            path.push(upward[k].clone());
            proof {
                let reversed = upward.deep_view().reverse();
                assert(path.deep_view() =~= before.push(upward.deep_view()[k as int]));
                assert(reversed[n - k - 1] == upward.deep_view()[k as int]);
                assert(reversed.take(n - k) =~= reversed.take(n - k - 1).push(
                    reversed[n - k - 1],
                ));
            }
        }
        proof {
            let reversed = upward.deep_view().reverse();
            assert(reversed.take(n as int) =~= reversed);
        }
        Some(path)
    }
}

} // verus!
