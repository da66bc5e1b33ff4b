//! Test setup: which setup bodies run, and in what order.
//!
//! Each test-flagged query gets a setup routine. Called with a set of
//! visited names, it returns at once if its own name is in the set;
//! otherwise it adds its name, calls the setup routines of its dependencies
//! from left to right, and then runs its own body. The functions here
//! compute the bodies that such a run executes, over a graph whose nodes are
//! query positions.
use vstd::prelude::*;
use vstd::set_lib::lemma_len_subset;
use crate::model::{Query, QuerySpec, queries_view};
use crate::text::same_chars;

verus! {

pub open spec fn graph_view(g: Seq<Vec<usize>>) -> Seq<Seq<usize>> {
    g.map_values(|d: Vec<usize>| d@)
}

/// Every edge leads to a node of the graph.
pub open spec fn well_formed(g: Seq<Seq<usize>>) -> bool {
    &&& g.len() <= usize::MAX
    &&& forall|n: int, k: int| 0 <= n < g.len() && 0 <= k < g[n].len() ==> #[trigger] g[n][k] < g.len()
}

pub open spec fn nodes(len: nat) -> Set<usize> {
    Set::new(|i: usize| i < len)
}

/// The setup of node `n` with `seen` visited and at most `fuel` nested
/// routines: the visited set afterwards, and the bodies run, in order.
pub open spec fn run(g: Seq<Seq<usize>>, n: usize, seen: Set<usize>, fuel: nat) -> (Set<usize>, Seq<usize>)
    decreases fuel, 0nat, 0nat,
{
    if seen.contains(n) || n >= g.len() || fuel == 0 {
        (seen, Seq::empty())
    } else {
        let (after, bodies) = run_all(g, g[n as int], 0, seen.insert(n), (fuel - 1) as nat);
        (after, bodies.push(n))
    }
}

/// The setups of `ds[k..]`, one after the other.
pub open spec fn run_all(g: Seq<Seq<usize>>, ds: Seq<usize>, k: nat, seen: Set<usize>, fuel: nat) -> (Set<usize>, Seq<usize>)
    decreases fuel, 1nat, if k < ds.len() { (ds.len() - k) as nat } else { 0 },
{
    if k >= ds.len() {
        (seen, Seq::empty())
    } else {
        let (s1, o1) = run(g, ds[k as int], seen, fuel);
        let (s2, o2) = run_all(g, ds, k + 1, s1, fuel);
        (s2, o1 + o2)
    }
}

/// The bodies that the test of `root` runs, in order, starting from an
/// empty visited set.
pub open spec fn setup_spec(g: Seq<Seq<usize>>, root: usize) -> Seq<usize> {
    run(g, root, Set::empty(), g.len()).1
}

/// Every dependency of a node of `o` is in `s`.
pub open spec fn deps_in(g: Seq<Seq<usize>>, o: Seq<usize>, s: Set<usize>) -> bool {
    forall|x: usize, k: int| #[trigger] o.contains(x) && 0 <= k < g[x as int].len() ==> s.contains(#[trigger] g[x as int][k])
}

proof fn lemma_nodes(len: nat)
    requires
        len <= usize::MAX,
    ensures
        nodes(len).finite(),
        nodes(len).len() == len,
    decreases len,
{
    if len == 0 {
        assert(nodes(0) =~= Set::empty());
    } else {
        lemma_nodes((len - 1) as nat);
        assert(nodes(len) =~= nodes((len - 1) as nat).insert((len - 1) as usize));
    }
}

proof fn lemma_run(g: Seq<Seq<usize>>, n: usize, seen: Set<usize>, fuel: nat)
    requires
        well_formed(g),
        seen.subset_of(nodes(g.len())),
    ensures
        seen.subset_of(run(g, n, seen, fuel).0),
        run(g, n, seen, fuel).0.subset_of(nodes(g.len())),
        run(g, n, seen, fuel).1.no_duplicates(),
        forall|x: usize| #[trigger] run(g, n, seen, fuel).1.contains(x)
            <==> (run(g, n, seen, fuel).0.contains(x) && !seen.contains(x)),
        run(g, n, seen, fuel).1.len() > 0 ==> run(g, n, seen, fuel).1.last() == n,
        fuel + seen.len() >= g.len() ==> deps_in(g, run(g, n, seen, fuel).1, run(g, n, seen, fuel).0),
        fuel + seen.len() >= g.len() && n < g.len() ==> run(g, n, seen, fuel).0.contains(n),
    decreases fuel, 0nat, 0nat,
{
    lemma_nodes(g.len());
    lemma_len_subset(seen, nodes(g.len()));
    if seen.contains(n) || n >= g.len() || fuel == 0 {
        if fuel == 0 && !seen.contains(n) && n < g.len() {
            assert(seen.insert(n).subset_of(nodes(g.len())));
            lemma_len_subset(seen.insert(n), nodes(g.len()));
        }
    } else {
        let s1 = seen.insert(n);
        assert(s1.subset_of(nodes(g.len())));
        lemma_len_subset(s1, nodes(g.len()));
        lemma_run_all(g, g[n as int], 0, s1, (fuel - 1) as nat);
        let (after, bodies) = run_all(g, g[n as int], 0, s1, (fuel - 1) as nat);
        let o = bodies.push(n);
        assert(o.no_duplicates()) by {
            assert forall|i: int, j: int| 0 <= i < o.len() && 0 <= j < o.len() && i != j implies o[i] != o[j] by {
                if i < bodies.len() && j < bodies.len() {
                } else if i < bodies.len() {
                    assert(bodies.contains(o[i]));
                } else if j < bodies.len() {
                    assert(bodies.contains(o[j]));
                }
            }
        }
        assert forall|x: usize| #[trigger] o.contains(x) <==> (after.contains(x) && !seen.contains(x)) by {
            if o.contains(x) && x != n {
                let i = choose|i: int| 0 <= i < o.len() && o[i] == x;
                assert(bodies.contains(x));
            }
            if after.contains(x) && !seen.contains(x) && x != n {
                assert(bodies.contains(x));
                let i = choose|i: int| 0 <= i < bodies.len() && bodies[i] == x;
                assert(o[i] == x);
            }
            if x == n {
                assert(o[o.len() - 1] == n);
            }
        }
        if fuel + seen.len() >= g.len() {
            assert forall|x: usize, k: int| #[trigger] o.contains(x) && 0 <= k < g[x as int].len() implies after.contains(#[trigger] g[x as int][k]) by {
                if x == n {
                    assert(g[n as int].contains(g[n as int][k]));
                } else {
                    let i = choose|i: int| 0 <= i < o.len() && o[i] == x;
                    assert(bodies.contains(x));
                }
            }
        }
    }
}

proof fn lemma_run_all(g: Seq<Seq<usize>>, ds: Seq<usize>, k: nat, seen: Set<usize>, fuel: nat)
    requires
        well_formed(g),
        seen.subset_of(nodes(g.len())),
        forall|j: int| 0 <= j < ds.len() ==> #[trigger] ds[j] < g.len(),
    ensures
        seen.subset_of(run_all(g, ds, k, seen, fuel).0),
        run_all(g, ds, k, seen, fuel).0.subset_of(nodes(g.len())),
        run_all(g, ds, k, seen, fuel).1.no_duplicates(),
        forall|x: usize| #[trigger] run_all(g, ds, k, seen, fuel).1.contains(x)
            <==> (run_all(g, ds, k, seen, fuel).0.contains(x) && !seen.contains(x)),
        fuel + seen.len() >= g.len() ==> deps_in(g, run_all(g, ds, k, seen, fuel).1, run_all(g, ds, k, seen, fuel).0),
        fuel + seen.len() >= g.len() ==> forall|j: int| k <= j < ds.len() ==> run_all(g, ds, k, seen, fuel).0.contains(#[trigger] ds[j]),
    decreases fuel, 1nat, if k < ds.len() { (ds.len() - k) as nat } else { 0 },
{
    lemma_nodes(g.len());
    if k < ds.len() {
        lemma_run(g, ds[k as int], seen, fuel);
        let (s1, o1) = run(g, ds[k as int], seen, fuel);
        lemma_len_subset(seen, s1);
        lemma_len_subset(s1, nodes(g.len()));
        lemma_run_all(g, ds, k + 1, s1, fuel);
        let (s2, o2) = run_all(g, ds, k + 1, s1, fuel);
        let o = o1 + o2;
        assert forall|x: usize| #[trigger] o.contains(x) <==> (o1.contains(x) || o2.contains(x)) by {
            if o.contains(x) {
                let i = choose|i: int| 0 <= i < o.len() && o[i] == x;
                if i < o1.len() {
                    assert(o1[i] == x);
                } else {
                    assert(o2[i - o1.len()] == x);
                }
            }
            if o1.contains(x) {
                let i = choose|i: int| 0 <= i < o1.len() && o1[i] == x;
                assert(o[i] == x);
            }
            if o2.contains(x) {
                let i = choose|i: int| 0 <= i < o2.len() && o2[i] == x;
                assert(o[i + o1.len()] == x);
            }
        }
        assert(o.no_duplicates()) by {
            assert forall|i: int, j: int| 0 <= i < o.len() && 0 <= j < o.len() && i != j implies o[i] != o[j] by {
                if i < o1.len() && j >= o1.len() {
                    assert(o1.contains(o[i]));
                    assert(o2.contains(o[j]));
                } else if j < o1.len() && i >= o1.len() {
                    assert(o1.contains(o[j]));
                    assert(o2.contains(o[i]));
                } else if i < o1.len() {
                } else {
                    assert(o[i] == o2[i - o1.len()]);
                    assert(o[j] == o2[j - o1.len()]);
                }
            }
        }
        if fuel + seen.len() >= g.len() {
            assert(fuel + s1.len() >= g.len());
            assert forall|x: usize, m: int| #[trigger] o.contains(x) && 0 <= m < g[x as int].len() implies s2.contains(#[trigger] g[x as int][m]) by {
                if o1.contains(x) {
                    assert(s1.contains(g[x as int][m]));
                } else {
                    assert(o2.contains(x));
                }
            }
            assert forall|j: int| k <= j < ds.len() implies s2.contains(#[trigger] ds[j]) by {
                if j == k {
                    assert(s1.contains(ds[j]));
                }
            }
        }
    }
}


/// The nodes marked in `v`.
pub open spec fn seen_set(v: Seq<bool>) -> Set<usize> {
    Set::new(|i: usize| i < v.len() && v[i as int])
}

fn run_exec(g: &Vec<Vec<usize>>, n: usize, seen: &mut Vec<bool>, order: &mut Vec<usize>, fuel: usize)
    requires
        old(seen)@.len() == g@.len(),
    ensures
        final(seen)@.len() == g@.len(),
        seen_set(final(seen)@) == run(graph_view(g@), n, seen_set(old(seen)@), fuel as nat).0,
        final(order)@ == old(order)@ + run(graph_view(g@), n, seen_set(old(seen)@), fuel as nat).1,
    decreases fuel, 0nat, 0nat,
{
    let ghost gv = graph_view(g@);
    if n >= g.len() || seen[n] || fuel == 0 {
        assert(order@ =~= order@ + Seq::<usize>::empty());
        return;
    }
    let ghost s0 = seen_set(seen@);
    seen.set(n, true);
    assert(seen_set(seen@) =~= s0.insert(n));
    let ghost o0 = order@;
    run_all_exec(g, &g[n], 0, seen, order, fuel - 1);
    assert(g@[n as int]@ == gv[n as int]);
    let ghost mid = order@;
    order.push(n);
    assert(order@ =~= o0 + (mid.subrange(o0.len() as int, mid.len() as int)).push(n));
}

fn run_all_exec(g: &Vec<Vec<usize>>, ds: &Vec<usize>, k: usize, seen: &mut Vec<bool>, order: &mut Vec<usize>, fuel: usize)
    requires
        old(seen)@.len() == g@.len(),
    ensures
        final(seen)@.len() == g@.len(),
        seen_set(final(seen)@) == run_all(graph_view(g@), ds@, k as nat, seen_set(old(seen)@), fuel as nat).0,
        final(order)@ == old(order)@ + run_all(graph_view(g@), ds@, k as nat, seen_set(old(seen)@), fuel as nat).1,
    decreases fuel, 1nat, if k < ds@.len() { (ds@.len() - k) as nat } else { 0 },
{
    if k >= ds.len() {
        assert(order@ =~= order@ + Seq::<usize>::empty());
        return;
    }
    let ghost o0 = order@;
    run_exec(g, ds[k], seen, order, fuel);
    let ghost o1 = order@;
    run_all_exec(g, ds, k + 1, seen, order, fuel);
    assert(order@ =~= o0 + (o1.subrange(o0.len() as int, o1.len() as int) + order@.subrange(o1.len() as int, order@.len() as int)));
}

/// The bodies that the test of `root` runs, in the order in which they run.
pub fn setup_order(graph: &Vec<Vec<usize>>, root: usize) -> (r: Vec<usize>)
    ensures
        r@ == setup_spec(graph_view(graph@), root),
{
    let mut seen: Vec<bool> = Vec::new();
    let mut i: usize = 0;
    while i < graph.len()
        invariant
            i <= graph@.len(),
            seen@.len() == i,
            forall|j: int| 0 <= j < i ==> !seen@[j],
        decreases graph@.len() - i,
    {
        seen.push(false);
        i = i + 1;
    }
    assert(seen_set(seen@) =~= Set::<usize>::empty());
    let mut order: Vec<usize> = Vec::new();
    run_exec(graph, root, &mut seen, &mut order, graph.len());
    assert(order@ =~= Seq::<usize>::empty() + setup_spec(graph_view(graph@), root));
    order
}

/// A test's setup runs each body at most once, runs its own body last, and
/// runs the dependencies of every body that it runs. So a dependency shared
/// by several others runs exactly once, and a cycle of dependencies ends,
/// with the body that it returns to not run again.
pub proof fn setup_runs_each_once(g: Seq<Seq<usize>>, root: usize)
    requires
        well_formed(g),
        root < g.len(),
    ensures
        setup_spec(g, root).no_duplicates(),
        setup_spec(g, root).contains(root),
        setup_spec(g, root).last() == root,
        forall|x: usize, k: int|
            #[trigger] setup_spec(g, root).contains(x) && 0 <= k < g[x as int].len()
                ==> setup_spec(g, root).contains(#[trigger] g[x as int][k]),
{
    let e = Set::<usize>::empty();
    assert(e.subset_of(nodes(g.len())));
    lemma_run(g, root, e, g.len());
    let (s2, o) = run(g, root, e, g.len());
    assert(e.len() == 0);
    assert(o.contains(root));
}

/// An unknown test dependency: the name at position `dependency` of the
/// test list of query `query` is not the name of a test-flagged query.
#[derive(Clone, Copy, Debug, PartialEq, Eq, Structural)]
pub struct ResolveError {
    pub query: usize,
    pub dependency: usize,
}

/// The position of the first test-flagged query, from `k` on, named `name`.
pub open spec fn test_index(qs: Seq<QuerySpec>, name: Seq<char>, k: nat) -> Option<nat>
    decreases qs.len() - k,
{
    if k >= qs.len() {
        None
    } else if qs[k as int].name == name && qs[k as int].test is Some {
        Some(k)
    } else {
        test_index(qs, name, k + 1)
    }
}

pub open spec fn test_names(q: QuerySpec) -> Seq<Seq<char>> {
    match q.test {
        Some(t) => t,
        None => Seq::empty(),
    }
}

/// The edges of query `i`: its test dependencies from position `j` on,
/// each by the position of the query it names.
pub open spec fn edges_from(qs: Seq<QuerySpec>, i: nat, j: nat) -> Result<Seq<usize>, ResolveError>
    decreases test_names(qs[i as int]).len() - j,
{
    let names = test_names(qs[i as int]);
    if j >= names.len() {
        Ok(Seq::empty())
    } else {
        match test_index(qs, names[j as int], 0) {
            None => Err(ResolveError { query: i as usize, dependency: j as usize }),
            Some(t) => match edges_from(qs, i, j + 1) {
                Err(e) => Err(e),
                Ok(rest) => Ok(seq![t as usize] + rest),
            },
        }
    }
}

/// The edges of the queries from position `i` on.
pub open spec fn graph_from(qs: Seq<QuerySpec>, i: nat) -> Result<Seq<Seq<usize>>, ResolveError>
    decreases qs.len() - i,
{
    if i >= qs.len() {
        Ok(Seq::empty())
    } else {
        match edges_from(qs, i, 0) {
            Err(e) => Err(e),
            Ok(d) => match graph_from(qs, i + 1) {
                Err(e) => Err(e),
                Ok(rest) => Ok(seq![d] + rest),
            },
        }
    }
}

/// The test dependency graph of a unit: node `i` is query `i`, with an edge
/// to each query that its test names, in order.
pub open spec fn graph_spec(qs: Seq<QuerySpec>) -> Result<Seq<Seq<usize>>, ResolveError> {
    graph_from(qs, 0)
}

proof fn lemma_test_index(qs: Seq<QuerySpec>, name: Seq<char>, k: nat)
    ensures
        test_index(qs, name, k) matches Some(t) ==> k <= t < qs.len(),
    decreases qs.len() - k,
{
    if k < qs.len() {
        lemma_test_index(qs, name, k + 1);
    }
}

fn find_test(qs: &Vec<Query>, name: &Vec<char>) -> (r: Option<usize>)
    ensures
        test_index(queries_view(qs@), name@, 0) == match r {
            Some(t) => Some(t as nat),
            None => None::<nat>,
        },
        r matches Some(t) ==> t < qs@.len(),
{
    let ghost qv = queries_view(qs@);
    proof {
        lemma_test_index(qv, name@, 0);
    }
    let mut k: usize = 0;
    while k < qs.len()
        invariant
            k <= qs@.len(),
            qv == queries_view(qs@),
            test_index(qv, name@, k as nat) == test_index(qv, name@, 0),
        decreases qs@.len() - k,
    {
        if same_chars(&qs[k].name, name) && qs[k].test.is_some() {
            return Some(k);
        }
        k = k + 1;
    }
    None
}

fn edges(qs: &Vec<Query>, i: usize, j: usize) -> (r: Result<Vec<usize>, ResolveError>)
    requires
        i < qs@.len(),
    ensures
        match r {
            Ok(d) => edges_from(queries_view(qs@), i as nat, j as nat) == Ok::<_, ResolveError>(d@),
            Err(e) => edges_from(queries_view(qs@), i as nat, j as nat) == Err::<Seq<usize>, _>(e),
        },
        r matches Ok(d) ==> forall|m: int| 0 <= m < d@.len() ==> #[trigger] d@[m] < qs@.len(),
    decreases test_names(queries_view(qs@)[i as int]).len() - j,
{
    let ghost qv = queries_view(qs@);
    match &qs[i].test {
        None => {
            assert(test_names(qv[i as int]) =~= Seq::empty());
            Ok(Vec::new())
        },
        Some(names) => {
            assert(test_names(qv[i as int]) == crate::rewrite::views(names@));
            if j >= names.len() {
                return Ok(Vec::new());
            }
            match find_test(qs, &names[j]) {
                None => Err(ResolveError { query: i, dependency: j }),
                Some(t) => {
                    let mut rest = edges(qs, i, j + 1)?;
                    let ghost rv = rest@;
                    let mut d = vec![t];
                    d.append(&mut rest);
                    assert(d@ =~= seq![t] + rv);
                    Ok(d)
                },
            }
        },
    }
}

fn graph_rec(qs: &Vec<Query>, i: usize) -> (r: Result<Vec<Vec<usize>>, ResolveError>)
    ensures
        match r {
            Ok(g) => graph_from(queries_view(qs@), i as nat) == Ok::<_, ResolveError>(graph_view(g@)),
            Err(e) => graph_from(queries_view(qs@), i as nat) == Err::<Seq<Seq<usize>>, _>(e),
        },
        r matches Ok(g) ==> forall|n: int, m: int| 0 <= n < g@.len() && 0 <= m < g@[n]@.len() ==> #[trigger] g@[n]@[m] < qs@.len(),
    decreases qs@.len() - i,
{
    if i >= qs.len() {
        let g: Vec<Vec<usize>> = Vec::new();
        assert(graph_view(g@) =~= Seq::empty());
        return Ok(g);
    }
    let d = edges(qs, i, 0)?;
    let mut rest = graph_rec(qs, i + 1)?;
    let ghost dv = d@;
    let ghost rv = rest@;
    let mut g = vec![d];
    g.append(&mut rest);
    assert(graph_view(g@) =~= seq![dv] + graph_view(rv));
    assert forall|n: int, m: int| 0 <= n < g@.len() && 0 <= m < g@[n]@.len() implies #[trigger] g@[n]@[m] < qs@.len() by {
        if n > 0 {
            assert(g@[n] == rv[n - 1]);
        }
    }
    Ok(g)
}

/// The test dependency graph of `queries`, or the first dependency that
/// names no test-flagged query.
pub fn dependency_graph(queries: &Vec<Query>) -> (r: Result<Vec<Vec<usize>>, ResolveError>)
    ensures
        match r {
            Ok(g) => graph_spec(queries_view(queries@)) == Ok::<_, ResolveError>(graph_view(g@)) && well_formed(graph_view(g@)),
            Err(e) => graph_spec(queries_view(queries@)) == Err::<Seq<Seq<usize>>, _>(e),
        },
{
    let g = graph_rec(queries, 0)?;
    proof {
        lemma_graph_len(queries_view(queries@), 0);
    }
    let n = g.len();
    let ghost gv = graph_view(g@);
    assert(gv.len() == n);
    assert forall|a: int, k: int| 0 <= a < gv.len() && 0 <= k < gv[a].len() implies #[trigger] gv[a][k] < gv.len() by {
        assert(gv[a] == g@[a]@);
        assert(g@[a]@[k] < queries@.len());
    }
    Ok(g)
}

proof fn lemma_graph_len(qs: Seq<QuerySpec>, i: nat)
    ensures
        graph_from(qs, i) matches Ok(g) ==> g.len() == if i < qs.len() { qs.len() - i } else { 0 },
    decreases qs.len() - i,
{
    if i < qs.len() {
        lemma_graph_len(qs, i + 1);
    }
}

} // verus!
