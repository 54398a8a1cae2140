//! The topic tree: every topic path and each of its ancestors, one node per
//! path, in depth-first order with siblings sorted by segment.
use vstd::prelude::*;
use vstd::string::*;
use crate::text::{contains_str, contains_sub, contains_sub_exec, str_eq};
use crate::topic::{is_below, is_below_exec};

verus! {

broadcast use vstd::seq_lib::group_seq_properties;

/// Segment-wise lexicographic order of paths: the separator sorts before
/// every other character, so a node sorts right before its descendants and
/// siblings sort by their segment.
pub open spec fn path_less(a: Seq<char>, b: Seq<char>) -> bool
    decreases a.len(),
{
    if b.len() == 0 {
        false
    } else if a.len() == 0 {
        true
    } else if a[0] == b[0] {
        path_less(a.drop_first(), b.drop_first())
    } else if a[0] == '/' {
        true
    } else if b[0] == '/' {
        false
    } else {
        a[0] < b[0]
    }
}

pub proof fn lemma_path_less_irreflexive(a: Seq<char>)
    ensures
        !path_less(a, a),
    decreases a.len(),
{
    if a.len() > 0 {
        lemma_path_less_irreflexive(a.drop_first());
    }
}

pub proof fn lemma_path_less_transitive(a: Seq<char>, b: Seq<char>, c: Seq<char>)
    requires
        path_less(a, b),
        path_less(b, c),
    ensures
        path_less(a, c),
    decreases a.len(),
{
    if a.len() > 0 && a[0] == b[0] && b[0] == c[0] {
        lemma_path_less_transitive(a.drop_first(), b.drop_first(), c.drop_first());
    }
}

pub proof fn lemma_path_less_total(a: Seq<char>, b: Seq<char>)
    requires
        a != b,
    ensures
        path_less(a, b) || path_less(b, a),
    decreases a.len(),
{
    if a.len() > 0 && b.len() > 0 && a[0] == b[0] {
        assert(a.drop_first() != b.drop_first()) by {
            if a.drop_first() == b.drop_first() {
                assert(a =~= seq![a[0]] + a.drop_first());
                assert(b =~= seq![b[0]] + b.drop_first());
            }
        }
        lemma_path_less_total(a.drop_first(), b.drop_first());
    } else if a.len() == 0 && b.len() == 0 {
        assert(a =~= b);
    }
}

/// Whether `a` sorts before `b` in path order.
pub fn path_less_exec(a: &str, b: &str) -> (r: bool)
    ensures
        r == path_less(a@, b@),
{
    let n = a.unicode_len();
    let m = b.unicode_len();
    let mut i: usize = 0;
    while i < n && i < m && a.get_char(i) == b.get_char(i)
        invariant
            n == a@.len(),
            m == b@.len(),
            i <= n,
            i <= m,
            path_less(a@, b@) == path_less(a@.skip(i as int), b@.skip(i as int)),
        decreases n - i,
    {
        assert(a@.skip(i + 1 as int) =~= a@.skip(i as int).drop_first());
        assert(b@.skip(i + 1 as int) =~= b@.skip(i as int).drop_first());
        i = i + 1;
    }
    if i == m {
        false
    } else if i == n {
        true
    } else {
        let x = a.get_char(i);
        let y = b.get_char(i);
        if x == '/' {
            true
        } else if y == '/' {
            false
        } else {
            x < y
        }
    }
}

/// Strictly increasing in path order; so also free of duplicates.
pub open spec fn sorted_paths(s: Seq<Seq<char>>) -> bool {
    forall|i: int, j: int| 0 <= i < j < s.len() ==> path_less(#[trigger] s[i], #[trigger] s[j])
}

/// The tree's node paths for a set of topics: each topic and each of its
/// proper ancestors, cut at a separator.
pub open spec fn tree_nodes(topics: Set<Seq<char>>) -> Set<Seq<char>> {
    Set::new(|p: Seq<char>| exists|t: Seq<char>| topics.contains(t) && is_below(t, p))
}

/// The nodes of the tree built from `topics`: all of `tree_nodes`, sorted.
pub open spec fn is_tree_of(nodes: Seq<Seq<char>>, topics: Seq<Seq<char>>) -> bool {
    sorted_paths(nodes) && nodes.to_set() == tree_nodes(topics.to_set())
}

proof fn lemma_sorted_unique(s1: Seq<Seq<char>>, s2: Seq<Seq<char>>)
    requires
        sorted_paths(s1),
        sorted_paths(s2),
        s1.to_set() == s2.to_set(),
    ensures
        s1 == s2,
    decreases s1.len(),
{
    if s1.len() == 0 {
        if s2.len() > 0 {
            assert(s2.to_set().contains(s2[0]));
        }
        assert(s1 =~= s2);
    } else {
        assert(s1.to_set().contains(s1[0]));
        assert(s2.len() > 0);
        let a = s1[0];
        let b = s2[0];
        if a != b {
            assert(s2.to_set().contains(a));
            assert(s1.to_set().contains(b));
            let i = s2.index_of(a);
            let j = s1.index_of(b);
            assert(path_less(b, a));
            assert(path_less(a, b));
            lemma_path_less_transitive(a, b, a);
            lemma_path_less_irreflexive(a);
        }
        let t1 = s1.drop_first();
        let t2 = s2.drop_first();
        assert forall|x: Seq<char>| t1.to_set().contains(x) implies t2.to_set().contains(x) by {
            let i = t1.index_of(x);
            assert(s1[i + 1] == x);
            assert(path_less(a, x));
            lemma_path_less_irreflexive(a);
            assert(s2.to_set().contains(x));
            let j = s2.index_of(x);
            assert(j != 0);
            assert(t2[j - 1] == x);
        }
        assert forall|x: Seq<char>| t2.to_set().contains(x) implies t1.to_set().contains(x) by {
            let i = t2.index_of(x);
            assert(s2[i + 1] == x);
            assert(path_less(b, x));
            lemma_path_less_irreflexive(b);
            assert(s1.to_set().contains(x));
            let j = s1.index_of(x);
            assert(j != 0);
            assert(t1[j - 1] == x);
        }
        assert(t1.to_set() =~= t2.to_set());
        lemma_sorted_unique(t1, t2);
        assert(s1 =~= seq![a] + t1);
        assert(s2 =~= seq![b] + t2);
    }
}

/// Rebuilding the tree is deterministic: two caches whose topic sets are
/// equal, whatever order the topics arrived in, give identical trees.
pub proof fn lemma_tree_rebuild_deterministic(
    topics1: Seq<Seq<char>>,
    topics2: Seq<Seq<char>>,
    nodes1: Seq<Seq<char>>,
    nodes2: Seq<Seq<char>>,
)
    requires
        topics1.to_set() == topics2.to_set(),
        is_tree_of(nodes1, topics1),
        is_tree_of(nodes2, topics2),
    ensures
        nodes1 == nodes2,
{
    lemma_sorted_unique(nodes1, nodes2);
}

/// The paths of `t` cut at the separators before position `i`.
pub open spec fn cuts_before(t: Seq<char>, i: int) -> Set<Seq<char>> {
    Set::new(|p: Seq<char>| exists|j: int| 0 <= j < i && t[j] == '/' && p == t.subrange(0, j))
}

/// Inserts `x` into a sorted vector of paths unless it is already there.
fn insert_sorted(v: &mut Vec<String>, x: String)
    requires
        sorted_paths(old(v)@.map_values(|s: String| s@)),
    ensures
        sorted_paths(final(v)@.map_values(|s: String| s@)),
        final(v)@.map_values(|s: String| s@).to_set() == old(v)@.map_values(|s: String| s@).to_set().insert(x@),
{
    let ghost vs = v@.map_values(|s: String| s@);
    let mut i: usize = 0;
    while i < v.len() && path_less_exec(v[i].as_str(), x.as_str())
        invariant
            i <= v@.len(),
            vs == v@.map_values(|s: String| s@),
            forall|j: int| 0 <= j < i ==> path_less(#[trigger] vs[j], x@),
        decreases v@.len() - i,
    {
        i = i + 1;
    }
    if i < v.len() && str_eq(v[i].as_str(), x.as_str()) {
        assert(vs[i as int] == x@);
        assert(vs.to_set().contains(x@));
        assert(vs.to_set() =~= vs.to_set().insert(x@));
        return;
    }
    let ghost xv = x@;
    v.insert(i, x);
    let ghost ws = v@.map_values(|s: String| s@);
    assert(ws =~= vs.insert(i as int, xv));
    proof {
        lemma_insert_keeps_sorted(vs, i as int, xv);
    }
    assert(ws.to_set() =~= vs.to_set().insert(xv));
}

proof fn lemma_insert_keeps_sorted(vs: Seq<Seq<char>>, i: int, x: Seq<char>)
    requires
        sorted_paths(vs),
        0 <= i <= vs.len(),
        forall|j: int| 0 <= j < i ==> path_less(#[trigger] vs[j], x),
        i < vs.len() ==> !path_less(vs[i], x) && vs[i] != x,
    ensures
        sorted_paths(vs.insert(i, x)),
{
    let ws = vs.insert(i, x);
    if i < vs.len() {
        lemma_path_less_total(vs[i], x);
    }
    assert forall|a: int, b: int| 0 <= a < b < ws.len() implies path_less(#[trigger] ws[a], #[trigger] ws[b]) by {
        if b < i {
            assert(ws[a] == vs[a] && ws[b] == vs[b]);
        } else if b == i {
            assert(ws[a] == vs[a] && ws[b] == x);
        } else if a < i {
            assert(ws[a] == vs[a] && ws[b] == vs[b - 1]);
        } else if a == i {
            assert(ws[a] == x && ws[b] == vs[b - 1]);
            if b > i + 1 {
                assert(path_less(vs[i], vs[b - 1]));
                lemma_path_less_transitive(x, vs[i], vs[b - 1]);
            }
        } else {
            assert(ws[a] == vs[a - 1] && ws[b] == vs[b - 1]);
        }
    }
}

proof fn lemma_cuts_and_whole(t: Seq<char>)
    ensures
        cuts_before(t, t.len() as int).insert(t) == Set::new(|p: Seq<char>| is_below(t, p)),
{
    let below = Set::new(|p: Seq<char>| is_below(t, p));
    assert forall|p: Seq<char>| below.contains(p) implies cuts_before(t, t.len() as int).insert(t).contains(p) by {
        if p != t {
            assert(p == t.subrange(0, p.len() as int));
        }
    }
    assert(cuts_before(t, t.len() as int).insert(t) =~= below);
}

/// The node paths of the tree over `topics`.
pub fn tree_paths(topics: &Vec<String>) -> (r: Vec<String>)
    ensures
        is_tree_of(r@.map_values(|s: String| s@), topics@.map_values(|s: String| s@)),
{
    let ghost ts = topics@.map_values(|s: String| s@);
    let mut r: Vec<String> = Vec::new();
    let mut k: usize = 0;
    assert(r@.map_values(|s: String| s@).to_set() =~= tree_nodes(ts.subrange(0, 0).to_set()));
    while k < topics.len()
        invariant
            k <= topics@.len(),
            ts == topics@.map_values(|s: String| s@),
            sorted_paths(r@.map_values(|s: String| s@)),
            r@.map_values(|s: String| s@).to_set() == tree_nodes(ts.subrange(0, k as int).to_set()),
        decreases topics@.len() - k,
    {
        let t = topics[k].as_str();
        let n = t.unicode_len();
        let ghost base = r@.map_values(|s: String| s@).to_set();
        let mut i: usize = 0;
        assert(base =~= base.union(cuts_before(t@, 0)));
        while i < n
            invariant
                n == t@.len(),
                i <= n,
                sorted_paths(r@.map_values(|s: String| s@)),
                r@.map_values(|s: String| s@).to_set() == base.union(cuts_before(t@, i as int)),
            decreases n - i,
        {
            if t.get_char(i) == '/' {
                let cut = t.substring_char(0, i);
                insert_sorted(&mut r, cut.to_owned());
            }
            i = i + 1;
            assert(r@.map_values(|s: String| s@).to_set() =~= base.union(cuts_before(t@, i as int)));
        }
        insert_sorted(&mut r, t.to_owned());
        k = k + 1;
        proof {
            let below = Set::new(|p: Seq<char>| is_below(t@, p));
            lemma_cuts_and_whole(t@);
            assert(ts.subrange(0, k as int) =~= ts.subrange(0, k - 1 as int).push(t@));
            assert(tree_nodes(ts.subrange(0, k as int).to_set()) =~= base.union(below));
            assert(r@.map_values(|s: String| s@).to_set() =~= tree_nodes(ts.subrange(0, k as int).to_set()));
        }
    }
    assert(ts.subrange(0, k as int) =~= ts);
    r
}

/// A node is shown when every proper ancestor of it in the tree is opened.
pub open spec fn is_visible(nodes: Seq<Seq<char>>, opened: Set<Seq<char>>, n: Seq<char>) -> bool {
    forall|p: Seq<char>| #[trigger] nodes.contains(p) && p != n && is_below(n, p) ==> opened.contains(p)
}

/// Under a search, a node is shown when it is an ancestor or a descendant of
/// a node whose path holds the query.
pub open spec fn search_shows(nodes: Seq<Seq<char>>, query: Seq<char>, n: Seq<char>) -> bool {
    exists|m: Seq<char>| #[trigger] nodes.contains(m) && contains_sub(m, query) && (is_below(n, m)
        || is_below(m, n))
}

/// The tree of topic paths with the set of opened nodes.
pub struct TopicTree {
    nodes: Vec<String>,
    opened: Vec<String>,
}

impl TopicTree {
    pub closed spec fn node_paths(&self) -> Seq<Seq<char>> {
        self.nodes@.map_values(|s: String| s@)
    }

    pub closed spec fn opened_set(&self) -> Set<Seq<char>> {
        self.opened@.map_values(|s: String| s@).to_set()
    }

    /// The tree over `topics`, all nodes closed.
    pub fn from_topics(topics: &Vec<String>) -> (r: TopicTree)
        ensures
            is_tree_of(r.node_paths(), topics@.map_values(|s: String| s@)),
            r.opened_set() == Set::<Seq<char>>::empty(),
    {
        let r = TopicTree { nodes: tree_paths(topics), opened: Vec::new() };
        assert(r.opened_set() =~= Set::<Seq<char>>::empty());
        r
    }

    /// Rebuilds the nodes from a new topic set, keeping which paths are opened.
    pub fn rebuild(&mut self, topics: &Vec<String>)
        ensures
            is_tree_of(final(self).node_paths(), topics@.map_values(|s: String| s@)),
            final(self).opened_set() == old(self).opened_set(),
    {
        self.nodes = tree_paths(topics);
    }

    /// The node paths in display order.
    pub fn nodes(&self) -> (r: &Vec<String>)
        ensures
            r@.map_values(|s: String| s@) == self.node_paths(),
    {
        &self.nodes
    }

    pub fn is_opened(&self, path: &str) -> (r: bool)
        ensures
            r == self.opened_set().contains(path@),
    {
        contains_str(&self.opened, path)
    }

    /// Whether any path is opened.
    pub fn has_opened(&self) -> (r: bool)
        ensures
            r == !self.opened_set().is_empty(),
    {
        proof {
            let os = self.opened@.map_values(|s: String| s@);
            if os.len() > 0 {
                assert(self.opened_set().contains(os[0]));
            } else {
                assert(self.opened_set() =~= Set::<Seq<char>>::empty());
            }
        }
        self.opened.len() > 0
    }

    /// Flips whether `path` is opened.
    pub fn toggle(&mut self, path: &str)
        ensures
            final(self).node_paths() == old(self).node_paths(),
            final(self).opened_set() == if old(self).opened_set().contains(path@) {
                old(self).opened_set().remove(path@)
            } else {
                old(self).opened_set().insert(path@)
            },
    {
        if contains_str(&self.opened, path) {
            let ghost os = self.opened@.map_values(|s: String| s@);
            let mut kept: Vec<String> = Vec::new();
            let mut i: usize = 0;
            while i < self.opened.len()
                invariant
                    i <= self.opened@.len(),
                    os == self.opened@.map_values(|s: String| s@),
                    kept@.map_values(|s: String| s@).to_set() == os.subrange(0, i as int).to_set().remove(path@),
                decreases self.opened@.len() - i,
            {
                let ghost before = kept@;
                assert(os.subrange(0, i + 1 as int) =~= os.subrange(0, i as int).push(os[i as int]));
                assert(os.subrange(0, i + 1 as int).to_set() =~= os.subrange(0, i as int).to_set().insert(os[i as int]));
                if !str_eq(self.opened[i].as_str(), path) {
                    kept.push(self.opened[i].clone());
                    assert(kept@ == before.push(kept@.last()));
                    assert(kept@.map_values(|s: String| s@) =~= before.map_values(|s: String| s@).push(os[i as int]));
                    assert(kept@.map_values(|s: String| s@).to_set() =~= before.map_values(|s: String| s@).to_set().insert(os[i as int]));
                }
                i = i + 1;
                assert(kept@.map_values(|s: String| s@).to_set() =~= os.subrange(0, i as int).to_set().remove(path@));
            }
            assert(os.subrange(0, i as int) =~= os);
            self.opened = kept;
        } else {
            let ghost before = self.opened@;
            self.opened.push(path.to_owned());
            assert(self.opened@.map_values(|s: String| s@) =~= before.map_values(|s: String| s@).push(path@));
            assert(self.opened_set() =~= old(self).opened_set().insert(path@));
        }
    }

    /// Opens every node.
    pub fn expand_all(&mut self)
        ensures
            final(self).node_paths() == old(self).node_paths(),
            final(self).opened_set() == old(self).node_paths().to_set(),
    {
        self.opened = self.nodes.clone();
        assert(self.opened@ =~= self.nodes@);
    }

    /// Closes every node.
    pub fn collapse_all(&mut self)
        ensures
            final(self).node_paths() == old(self).node_paths(),
            final(self).opened_set() == Set::<Seq<char>>::empty(),
    {
        self.opened = Vec::new();
        assert(self.opened_set() =~= Set::<Seq<char>>::empty());
    }

    fn node_visible(&self, n: &str) -> (r: bool)
        ensures
            r == is_visible(self.node_paths(), self.opened_set(), n@),
    {
        let ghost ns = self.node_paths();
        let mut j: usize = 0;
        while j < self.nodes.len()
            invariant
                j <= self.nodes@.len(),
                ns == self.node_paths(),
                forall|b: int| 0 <= b < j && ns[b] != n@ && is_below(n@, ns[b]) ==> self.opened_set().contains(ns[b]),
            decreases self.nodes@.len() - j,
        {
            let p = self.nodes[j].as_str();
            if !str_eq(p, n) && is_below_exec(n, p) && !contains_str(&self.opened, p) {
                assert(ns.contains(ns[j as int]));
                return false;
            }
            j = j + 1;
        }
        assert forall|p: Seq<char>| #[trigger] ns.contains(p) && p != n@ && is_below(n@, p) implies self.opened_set().contains(p) by {
            let b = ns.index_of(p);
        }
        true
    }

    /// The nodes shown in the overview: those whose ancestors are all opened.
    pub fn visible(&self) -> (r: Vec<String>)
        ensures
            r@.map_values(|s: String| s@) == self.node_paths().filter(
                |n: Seq<char>| is_visible(self.node_paths(), self.opened_set(), n),
            ),
    {
        let ghost ns = self.node_paths();
        let ghost f = |n: Seq<char>| is_visible(self.node_paths(), self.opened_set(), n);
        let mut r: Vec<String> = Vec::new();
        let mut i: usize = 0;
        while i < self.nodes.len()
            invariant
                i <= self.nodes@.len(),
                ns == self.node_paths(),
                f == (|n: Seq<char>| is_visible(self.node_paths(), self.opened_set(), n)),
                r@.map_values(|s: String| s@) == ns.subrange(0, i as int).filter(f),
            decreases self.nodes@.len() - i,
        {
            let ghost before = r@;
            assert(ns.subrange(0, i + 1 as int) =~= ns.subrange(0, i as int).push(ns[i as int]));
            proof {
                ns.subrange(0, i as int).lemma_filter_push(ns[i as int], f);
            }
            if self.node_visible(self.nodes[i].as_str()) {
                r.push(self.nodes[i].clone());
                assert(r@ == before.push(r@.last()));
            }
            i = i + 1;
            assert(r@.map_values(|s: String| s@) =~= ns.subrange(0, i as int).filter(f));
        }
        assert(ns.subrange(0, i as int) =~= ns);
        r
    }

    fn search_match(&self, n: &str, query: &str) -> (r: bool)
        ensures
            r == search_shows(self.node_paths(), query@, n@),
    {
        let ghost ns = self.node_paths();
        let mut j: usize = 0;
        while j < self.nodes.len()
            invariant
                j <= self.nodes@.len(),
                ns == self.node_paths(),
                forall|b: int| 0 <= b < j ==> !(contains_sub(ns[b], query@) && (is_below(n@, ns[b]) || is_below(ns[b], n@))),
            decreases self.nodes@.len() - j,
        {
            let m = self.nodes[j].as_str();
            if contains_sub_exec(m, query) && (is_below_exec(n, m) || is_below_exec(m, n)) {
                assert(ns.contains(ns[j as int]));
                return true;
            }
            j = j + 1;
        }
        assert forall|m: Seq<char>| #[trigger] ns.contains(m) implies !(contains_sub(m, query@) && (is_below(n@, m) || is_below(m, n@))) by {
            let b = ns.index_of(m);
        }
        false
    }

    /// The nodes shown under a search: ancestors and descendants of every node
    /// whose path holds `query`; an empty query shows every node.
    pub fn search(&self, query: &str) -> (r: Vec<String>)
        ensures
            r@.map_values(|s: String| s@) == self.node_paths().filter(
                |n: Seq<char>| search_shows(self.node_paths(), query@, n),
            ),
    {
        let ghost ns = self.node_paths();
        let ghost f = |n: Seq<char>| search_shows(self.node_paths(), query@, n);
        let mut r: Vec<String> = Vec::new();
        let mut i: usize = 0;
        while i < self.nodes.len()
            invariant
                i <= self.nodes@.len(),
                ns == self.node_paths(),
                f == (|n: Seq<char>| search_shows(self.node_paths(), query@, n)),
                r@.map_values(|s: String| s@) == ns.subrange(0, i as int).filter(f),
            decreases self.nodes@.len() - i,
        {
            let ghost before = r@;
            assert(ns.subrange(0, i + 1 as int) =~= ns.subrange(0, i as int).push(ns[i as int]));
            proof {
                ns.subrange(0, i as int).lemma_filter_push(ns[i as int], f);
            }
            if self.search_match(self.nodes[i].as_str(), query) {
                r.push(self.nodes[i].clone());
                assert(r@ == before.push(r@.last()));
            }
            i = i + 1;
            assert(r@.map_values(|s: String| s@) =~= ns.subrange(0, i as int).filter(f));
        }
        assert(ns.subrange(0, i as int) =~= ns);
        r
    }
}

} // verus!
