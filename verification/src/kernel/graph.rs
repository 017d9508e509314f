//! The capability graph: a read-only snapshot of which capabilities a
//! space holds and the namespace tree they form.

use vstd::prelude::*;
use crate::kernel::cspace::{
    first_dot_index, head_segment, lemma_first_dot_bound, metas_of, lists_all, namespace_prefix_matches,
    sorted_by_key, under_namespace, CapabilitySpace,
};
use crate::text::{decimal, lemma_lex_le_total, lemma_lex_lt_transitive, lex_lt, push_decimal, str_eq, str_lt};
use crate::types::ids::CapKind;
use crate::types::meta::CapabilityMeta;

verus! {

/// A snapshot of a space's capabilities and namespace tree.
#[derive(Debug, Clone)]
pub struct CapabilityGraph {
    pub nodes: Vec<GraphNode>,
    pub namespaces: Vec<NamespaceNode>,
}

/// One capability of the snapshot.
#[derive(Debug, Clone)]
pub struct GraphNode {
    pub name: String,
    pub namespace: String,
    /// `name@version` of the plugin that exposes it.
    pub plugin: String,
    pub streaming: bool,
    pub timeout_ms: u32,
    pub quota_calls_per_minute: u32,
    pub quota_tokens_per_minute: u64,
    pub quota_bytes_per_minute: u64,
}

/// A top-level namespace segment, the number of capabilities filed
/// under it and their namespaces (one per capability, in node order).
#[derive(Debug, Clone)]
pub struct NamespaceNode {
    pub name: String,
    pub count: usize,
    pub children: Vec<String>,
}

/// Views of a sequence of strings.
pub open spec fn views(s: Seq<String>) -> Seq<Seq<char>> {
    s.map_values(|x: String| x@)
}

/// Strictly ascending in `str` order (hence without repeats).
pub open spec fn strictly_sorted(s: Seq<Seq<char>>) -> bool {
    forall|i: int, j: int| 0 <= i < j < s.len() ==> lex_lt(s[i], s[j])
}

/// The node a capability's metadata gives.
pub open spec fn node_of(m: CapabilityMeta, n: GraphNode) -> bool {
    &&& n.name@ == m.name@
    &&& n.namespace@ == m.namespace@
    &&& n.plugin@ == m.plugin.name@ + "@"@ + m.plugin.version@
    &&& n.streaming == (m.kind == CapKind::Stream)
    &&& n.timeout_ms == m.timeout_ms
    &&& n.quota_calls_per_minute == m.quota.calls_per_minute
    &&& n.quota_tokens_per_minute == m.quota.tokens_per_minute
    &&& n.quota_bytes_per_minute == m.quota.bytes_per_minute
}

/// Namespaces, in node order, of the nodes whose top-level segment is
/// `root`.
pub open spec fn children_under(nodes: Seq<GraphNode>, root: Seq<char>) -> Seq<Seq<char>>
    decreases nodes.len(),
{
    if nodes.len() == 0 {
        Seq::empty()
    } else {
        let rest = children_under(nodes.drop_last(), root);
        if head_segment(nodes.last().namespace@) == root {
            rest.push(nodes.last().namespace@)
        } else {
            rest
        }
    }
}

/// `tree` is the namespace tree of `nodes`: one entry per distinct
/// non-empty top-level segment of their namespaces (and no other),
/// ascending, each with the namespaces filed under it and their number.
pub open spec fn namespace_tree(nodes: Seq<GraphNode>, tree: Seq<NamespaceNode>) -> bool {
    &&& strictly_sorted(tree.map_values(|t: NamespaceNode| t.name@))
    &&& forall|i: int|
        0 <= i < tree.len() ==> {
            &&& (#[trigger] tree[i]).name@.len() > 0
            &&& exists|k: int| 0 <= k < nodes.len() && head_segment(nodes[k].namespace@) == tree[i].name@
            &&& views(tree[i].children@) == children_under(nodes, tree[i].name@)
            &&& tree[i].count == tree[i].children@.len()
        }
    &&& forall|k: int|
        0 <= k < nodes.len() && (#[trigger] head_segment(nodes[k].namespace@)).len() > 0
            ==> exists|i: int| 0 <= i < tree.len() && (#[trigger] tree[i]).name@ == head_segment(nodes[k].namespace@)
}

proof fn lemma_children_under_nonempty(nodes: Seq<GraphNode>, root: Seq<char>, k: int)
    requires
        0 <= k < nodes.len(),
        head_segment(nodes[k].namespace@) == root,
    ensures
        children_under(nodes, root).len() > 0,
    decreases nodes.len(),
{
    if k < nodes.len() - 1 {
        assert(nodes.drop_last()[k] == nodes[k]);
        lemma_children_under_nonempty(nodes.drop_last(), root, k);
    }
}

proof fn lemma_children_under_bound(nodes: Seq<GraphNode>, root: Seq<char>)
    ensures
        children_under(nodes, root).len() <= nodes.len(),
    decreases nodes.len(),
{
    if nodes.len() > 0 {
        lemma_children_under_bound(nodes.drop_last(), root);
    }
}

/// The first dot-separated segment of `ns`.
fn top_segment(ns: &str) -> (r: String)
    ensures
        r@ == head_segment(ns@),
{
    let d = first_dot_index(ns);
    proof {
        lemma_first_dot_bound(ns@);
    }
    String::from_str(ns.substring_char(0, d))
}

/// Insert `s` into the strictly sorted `v`, unless it is there.
fn insert_sorted(v: &mut Vec<String>, s: String)
    requires
        strictly_sorted(views(old(v)@)),
    ensures
        strictly_sorted(views(final(v)@)),
        forall|x: Seq<char>| views(final(v)@).contains(x) <==> (views(old(v)@).contains(x) || x == s@),
{
    let ghost o = views(v@);
    let mut j: usize = 0;
    while j < v.len() && str_lt(v[j].as_str(), s.as_str())
        invariant
            j <= v@.len(),
            o == views(v@),
            forall|a: int| 0 <= a < j ==> lex_lt(#[trigger] o[a], s@),
        decreases v@.len() - j,
    {
        j = j + 1;
    }
    if j < v.len() && str_eq(v[j].as_str(), s.as_str()) {
        proof {
            assert forall|x: Seq<char>| o.contains(x) <==> (o.contains(x) || x == s@) by {
                if x == s@ {
                    assert(o[j as int] == s@);
                }
            }
        }
        return;
    }
    proof {
        if j < o.len() {
            lemma_lex_le_total(o[j as int], s@);
        }
    }
    let ghost sv = s@;
    v.insert(j, s);
    proof {
        let n = views(v@);
        assert(n =~= o.insert(j as int, sv));
        assert forall|a: int, b: int| 0 <= a < b < n.len() implies lex_lt(n[a], n[b]) by {
            if b < j {
            } else if b == j {
            } else if a == j {
                if b - 1 > j {
                    lemma_lex_lt_transitive(sv, o[j as int], o[b - 1]);
                }
            } else if a < j {
            } else {
            }
        }
        assert forall|x: Seq<char>| n.contains(x) <==> (o.contains(x) || x == sv) by {
            if n.contains(x) {
                let a = choose|a: int| 0 <= a < n.len() && n[a] == x;
                if a < j {
                    assert(o[a] == x);
                } else if a > j {
                    assert(o[a - 1] == x);
                }
            }
            if o.contains(x) {
                let a = choose|a: int| 0 <= a < o.len() && o[a] == x;
                if a < j {
                    assert(n[a] == x);
                } else {
                    assert(n[a + 1] == x);
                }
            }
            if x == sv {
                assert(n[j as int] == x);
            }
        }
    }
}

/// The namespace tree of `nodes`.
fn build_namespace_tree(nodes: &Vec<GraphNode>) -> (r: Vec<NamespaceNode>)
    ensures
        namespace_tree(nodes@, r@),
{
    let mut roots: Vec<String> = Vec::new();
    let mut k: usize = 0;
    while k < nodes.len()
        invariant
            k <= nodes@.len(),
            strictly_sorted(views(roots@)),
            forall|x: Seq<char>|
                views(roots@).contains(x) <==> x.len() > 0 && exists|t: int|
                    0 <= t < k && #[trigger] head_segment(nodes@[t].namespace@) == x,
        decreases nodes@.len() - k,
    {
        let root = top_segment(nodes[k].namespace.as_str());
        if root.as_str().unicode_len() > 0 {
            let ghost rv = root@;
            let ghost before = views(roots@);
            insert_sorted(&mut roots, root);
            proof {
                assert forall|x: Seq<char>|
                    views(roots@).contains(x) <==> x.len() > 0 && exists|t: int|
                        0 <= t < k + 1 && #[trigger] head_segment(nodes@[t].namespace@) == x by {
                    if x == rv {
                        assert(head_segment(nodes@[k as int].namespace@) == x);
                    }
                    if x.len() > 0 && exists|t: int| 0 <= t < k + 1 && #[trigger] head_segment(nodes@[t].namespace@) == x {
                        let t = choose|t: int| 0 <= t < k + 1 && #[trigger] head_segment(nodes@[t].namespace@) == x;
                        if t < k {
                            assert(before.contains(x));
                        }
                    }
                }
            }
        } else {
            proof {
                assert forall|x: Seq<char>|
                    views(roots@).contains(x) <==> x.len() > 0 && exists|t: int|
                        0 <= t < k + 1 && #[trigger] head_segment(nodes@[t].namespace@) == x by {
                    if x.len() > 0 && exists|t: int| 0 <= t < k + 1 && #[trigger] head_segment(nodes@[t].namespace@) == x {
                        let t = choose|t: int| 0 <= t < k + 1 && #[trigger] head_segment(nodes@[t].namespace@) == x;
                        assert(t < k);
                    }
                }
            }
        }
        k = k + 1;
    }
    let mut r: Vec<NamespaceNode> = Vec::new();
    let mut i: usize = 0;
    while i < roots.len()
        invariant
            i <= roots@.len(),
            r@.len() == i,
            strictly_sorted(views(roots@)),
            forall|a: int| 0 <= a < i ==> (#[trigger] r@[a]).name@ == views(roots@)[a],
            forall|a: int|
                0 <= a < i ==> {
                    &&& views((#[trigger] r@[a]).children@) == children_under(nodes@, r@[a].name@)
                    &&& r@[a].count == r@[a].children@.len()
                },
        decreases roots@.len() - i,
    {
        let root = roots[i].clone();
        let mut children: Vec<String> = Vec::new();
        let mut k: usize = 0;
        while k < nodes.len()
            invariant
                k <= nodes@.len(),
                views(children@) == children_under(nodes@.take(k as int), root@),
            decreases nodes@.len() - k,
        {
            let ghost pre = children@;
            let top = top_segment(nodes[k].namespace.as_str());
            proof {
                assert(nodes@.take(k + 1).drop_last() =~= nodes@.take(k as int));
                assert(nodes@.take(k + 1).last() == nodes@[k as int]);
            }
            if str_eq(top.as_str(), root.as_str()) {
                children.push(nodes[k].namespace.clone());
                proof {
                    assert(views(children@) =~= views(pre).push(nodes@[k as int].namespace@));
                }
            }
            k = k + 1;
        }
        proof {
            assert(nodes@.take(nodes@.len() as int) =~= nodes@);
        }
        let count = children.len();
        r.push(NamespaceNode { name: root, count, children });
        i = i + 1;
    }
    proof {
        assert(r@.map_values(|t: NamespaceNode| t.name@) =~= views(roots@));
        assert forall|a: int| 0 <= a < r@.len() implies (#[trigger] r@[a]).name@.len() > 0 && exists|k: int|
            0 <= k < nodes@.len() && head_segment(nodes@[k].namespace@) == r@[a].name@ by {
            assert(views(roots@)[a] == r@[a].name@);
            assert(views(roots@).contains(r@[a].name@));
        }
        assert forall|t: int|
            0 <= t < nodes@.len() && (#[trigger] head_segment(nodes@[t].namespace@)).len() > 0
                implies exists|a: int| 0 <= a < r@.len() && (#[trigger] r@[a]).name@ == head_segment(nodes@[t].namespace@) by {
            let x = head_segment(nodes@[t].namespace@);
            assert(views(roots@).contains(x));
            let a = choose|a: int| 0 <= a < views(roots@).len() && views(roots@)[a] == x;
            assert(r@[a].name@ == x);
        }
    }
    r
}

pub open spec fn bool_text(b: bool) -> Seq<char> {
    if b {
        "true"@
    } else {
        "false"@
    }
}

/// The rendered line of one node.
pub open spec fn node_line(n: GraphNode) -> Seq<char> {
    "    \u{251c}\u{2500} "@ + n.name@ + " timeout="@ + decimal(n.timeout_ms as nat) + "ms streaming="@
        + bool_text(n.streaming) + " quota="@ + decimal(n.quota_calls_per_minute as nat) + "c/"@
        + decimal(n.quota_tokens_per_minute as nat) + "t/"@ + decimal(
        n.quota_bytes_per_minute as nat,
    ) + "B\n"@
}

/// The lines of the nodes filed under namespace `ns`, in node order.
pub open spec fn group_lines(nodes: Seq<GraphNode>, ns: Seq<char>) -> Seq<char>
    decreases nodes.len(),
{
    if nodes.len() == 0 {
        Seq::empty()
    } else {
        group_lines(nodes.drop_last(), ns) + if nodes.last().namespace@ == ns {
            node_line(nodes.last())
        } else {
            Seq::empty()
        }
    }
}

/// One block per namespace of `groups`: the namespace on its own line,
/// then the lines of its nodes.
pub open spec fn groups_text(nodes: Seq<GraphNode>, groups: Seq<Seq<char>>) -> Seq<char>
    decreases groups.len(),
{
    if groups.len() == 0 {
        Seq::empty()
    } else {
        groups_text(nodes, groups.drop_last()) + "  "@ + groups.last() + "\n"@ + group_lines(
            nodes,
            groups.last(),
        )
    }
}

/// `groups` is every distinct namespace of `nodes`, ascending.
pub open spec fn namespace_groups(nodes: Seq<GraphNode>, groups: Seq<Seq<char>>) -> bool {
    &&& strictly_sorted(groups)
    &&& forall|x: Seq<char>|
        groups.contains(x) <==> exists|k: int| 0 <= k < nodes.len() && (#[trigger] nodes[k]).namespace@ == x
}

fn push_bool(s: &mut String, b: bool)
    ensures
        final(s)@ == old(s)@ + bool_text(b),
{
    if b {
        s.append("true");
    } else {
        s.append("false");
    }
}

fn push_node_line(s: &mut String, n: &GraphNode)
    ensures
        final(s)@ == old(s)@ + node_line(*n),
{
    let ghost s0 = s@;
    s.append("    \u{251c}\u{2500} ");
    s.append(n.name.as_str());
    s.append(" timeout=");
    push_decimal(s, n.timeout_ms as u64);
    s.append("ms streaming=");
    push_bool(s, n.streaming);
    s.append(" quota=");
    push_decimal(s, n.quota_calls_per_minute as u64);
    s.append("c/");
    push_decimal(s, n.quota_tokens_per_minute);
    s.append("t/");
    push_decimal(s, n.quota_bytes_per_minute);
    s.append("B\n");
    proof {
        assert(s@ =~= s0 + node_line(*n));
    }
}

/// Whether `ns` is filed under `prefix` (see `under_namespace`).
fn namespace_starts_with(ns: &str, prefix: &str) -> (r: bool)
    ensures
        r == under_namespace(ns@, prefix@),
{
    namespace_prefix_matches(ns, prefix)
}

impl CapabilityGraph {
    /// Snapshot of `space`: one node per capability, sorted by name, and
    /// the namespace tree.
    pub fn from<H>(space: &CapabilitySpace<H>) -> (r: CapabilityGraph)
        requires
            space.wf(),
        ensures
            exists|order: Seq<u64>, metas: Seq<CapabilityMeta>|
                lists_all(space.slots(), order) && #[trigger] metas_of(space.slots(), order, metas)
                    && sorted_by_key(metas, false) && r.nodes@.len() == metas.len() && (forall|i: int|
                    0 <= i < metas.len() ==> node_of(metas[i], #[trigger] r.nodes@[i])),
            namespace_tree(r.nodes@, r.namespaces@),
    {
        let metas = space.enumerate();
        let mut nodes: Vec<GraphNode> = Vec::new();
        let mut i: usize = 0;
        while i < metas.len()
            invariant
                i <= metas@.len(),
                nodes@.len() == i,
                forall|a: int| 0 <= a < i ==> node_of(metas@[a], #[trigger] nodes@[a]),
            decreases metas@.len() - i,
        {
            let m = &metas[i];
            let mut plugin = m.plugin.name.clone();
            plugin.append("@");
            plugin.append(m.plugin.version.as_str());
            let streaming = match m.kind {
                CapKind::Stream => true,
                CapKind::Sync => false,
            };
            nodes.push(
                GraphNode {
                    name: m.name.clone(),
                    namespace: m.namespace.clone(),
                    plugin,
                    streaming,
                    timeout_ms: m.timeout_ms,
                    quota_calls_per_minute: m.quota.calls_per_minute,
                    quota_tokens_per_minute: m.quota.tokens_per_minute,
                    quota_bytes_per_minute: m.quota.bytes_per_minute,
                },
            );
            i = i + 1;
        }
        let namespaces = build_namespace_tree(&nodes);
        proof {
            let order = choose|order: Seq<u64>|
                lists_all(space.slots(), order) && #[trigger] metas_of(space.slots(), order, metas@);
            assert(lists_all(space.slots(), order) && metas_of(space.slots(), order, metas@));
        }
        CapabilityGraph { nodes, namespaces }
    }

    /// The sub-graph of the nodes filed under `prefix`.
    pub fn under(&self, prefix: &str) -> (r: CapabilityGraph)
        ensures
            r.nodes@ == self.nodes@.filter(|n: GraphNode| under_namespace(n.namespace@, prefix@)),
            namespace_tree(r.nodes@, r.namespaces@),
    {
        let ghost pred = |n: GraphNode| under_namespace(n.namespace@, prefix@);
        let mut nodes: Vec<GraphNode> = Vec::new();
        let mut i: usize = 0;
        proof {
            reveal(Seq::filter);
            assert(self.nodes@.take(0).filter(pred) =~= Seq::<GraphNode>::empty());
        }
        while i < self.nodes.len()
            invariant
                i <= self.nodes@.len(),
                pred == (|n: GraphNode| under_namespace(n.namespace@, prefix@)),
                nodes@ == self.nodes@.take(i as int).filter(pred),
            decreases self.nodes@.len() - i,
        {
            proof {
                assert(self.nodes@.take(i + 1) =~= self.nodes@.take(i as int).push(self.nodes@[i as int]));
                self.nodes@.take(i as int).lemma_filter_push(self.nodes@[i as int], pred);
            }
            if namespace_starts_with(self.nodes[i].namespace.as_str(), prefix) {
                nodes.push(self.nodes[i].clone_node());
            }
            i = i + 1;
        }
        proof {
            assert(self.nodes@.take(self.nodes@.len() as int) =~= self.nodes@);
        }
        let namespaces = build_namespace_tree(&nodes);
        CapabilityGraph { nodes, namespaces }
    }

    /// The namespace tree as text: a header, then per namespace
    /// (ascending) the namespace and one line per node filed there.
    pub fn render(&self) -> (r: String)
        ensures
            self.nodes@.len() == 0 ==> r@ == "capability graph:\n"@ + "  (empty)\n"@,
            self.nodes@.len() > 0 ==> exists|groups: Seq<Seq<char>>|
                #[trigger] namespace_groups(self.nodes@, groups) && r@ == "capability graph:\n"@
                    + groups_text(self.nodes@, groups),
    {
        let mut s = String::from_str("capability graph:\n");
        if self.nodes.len() == 0 {
            s.append("  (empty)\n");
            return s;
        }
        let ghost head = s@;
        let nodes = &self.nodes;
        let mut groups: Vec<String> = Vec::new();
        let mut k: usize = 0;
        while k < nodes.len()
            invariant
                k <= nodes@.len(),
                strictly_sorted(views(groups@)),
                forall|x: Seq<char>|
                    views(groups@).contains(x) <==> exists|t: int|
                        0 <= t < k && (#[trigger] nodes@[t]).namespace@ == x,
            decreases nodes@.len() - k,
        {
            let ghost before = views(groups@);
            let ghost nv = nodes@[k as int].namespace@;
            insert_sorted(&mut groups, nodes[k].namespace.clone());
            proof {
                assert forall|x: Seq<char>|
                    views(groups@).contains(x) <==> exists|t: int|
                        0 <= t < k + 1 && (#[trigger] nodes@[t]).namespace@ == x by {
                    if x == nv {
                        assert(nodes@[k as int].namespace@ == x);
                    }
                    if exists|t: int| 0 <= t < k + 1 && (#[trigger] nodes@[t]).namespace@ == x {
                        let t = choose|t: int| 0 <= t < k + 1 && (#[trigger] nodes@[t]).namespace@ == x;
                        if t < k {
                            assert(before.contains(x));
                        }
                    }
                }
            }
            k = k + 1;
        }
        let mut g: usize = 0;
        while g < groups.len()
            invariant
                g <= groups@.len(),
                s@ == head + groups_text(nodes@, views(groups@).take(g as int)),
            decreases groups@.len() - g,
        {
            let ghost gv = groups@[g as int]@;
            proof {
                assert(views(groups@).take(g + 1).drop_last() =~= views(groups@).take(g as int));
                assert(views(groups@).take(g + 1).last() == gv);
            }
            let ghost base = s@;
            s.append("  ");
            s.append(groups[g].as_str());
            s.append("\n");
            let ghost mid = s@;
            let mut k: usize = 0;
            proof {
                assert(s@ =~= mid + group_lines(nodes@.take(0), gv));
            }
            while k < nodes.len()
                invariant
                    k <= nodes@.len(),
                    gv == groups@[g as int]@,
                    g < groups@.len(),
                    s@ == mid + group_lines(nodes@.take(k as int), gv),
                decreases nodes@.len() - k,
            {
                proof {
                    assert(nodes@.take(k + 1).drop_last() =~= nodes@.take(k as int));
                    assert(nodes@.take(k + 1).last() == nodes@[k as int]);
                }
                let ghost before = s@;
                if str_eq(nodes[k].namespace.as_str(), groups[g].as_str()) {
                    push_node_line(&mut s, &nodes[k]);
                } else {
                    proof {
                        assert(s@ =~= before + Seq::<char>::empty());
                    }
                }
                k = k + 1;
            }
            proof {
                assert(nodes@.take(nodes@.len() as int) =~= nodes@);
                assert(s@ =~= base + "  "@ + gv + "\n"@ + group_lines(nodes@, gv));
            }
            g = g + 1;
        }
        proof {
            assert(views(groups@).take(groups@.len() as int) =~= views(groups@));
            assert forall|x: Seq<char>|
                views(groups@).contains(x) <==> exists|t: int|
                    0 <= t < nodes@.len() && (#[trigger] nodes@[t]).namespace@ == x by {
            }
            assert(namespace_groups(nodes@, views(groups@)));
        }
        s
    }
}

impl GraphNode {
    /// A copy of this node.
    pub fn clone_node(&self) -> (r: GraphNode)
        ensures
            r == *self,
    {
        GraphNode {
            name: self.name.clone(),
            namespace: self.namespace.clone(),
            plugin: self.plugin.clone(),
            streaming: self.streaming,
            timeout_ms: self.timeout_ms,
            quota_calls_per_minute: self.quota_calls_per_minute,
            quota_tokens_per_minute: self.quota_tokens_per_minute,
            quota_bytes_per_minute: self.quota_bytes_per_minute,
        }
    }
}

} // verus!
