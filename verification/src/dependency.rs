//! Dependencies between resources: the graph, its validation and the
//! properties that store it.

use vstd::prelude::*;

use crate::config;
use crate::config::{Config, JAIL_BASE, VM_BASE};
use crate::error;
use crate::error::Error;
use crate::metadata;
use crate::plan;
use crate::plan::{Act, CommandLine, Plan, PlanModel, StepModel};
use crate::text;
use crate::text::{join, join_path, owned, parse_list};

verus! {

// ---------------------------------------------------------------------------
// The graph
// ---------------------------------------------------------------------------

/// Which names each resource depends on.
pub type Dependencies = Map<Seq<char>, Seq<Seq<char>>>;

/// Whether some resource depends on a name that no resource has.
pub open spec fn is_missing(graph: Dependencies, dependency: Seq<char>) -> bool {
    &&& !graph.dom().contains(dependency)
    &&& exists|name: Seq<char>| #[trigger]
        graph.dom().contains(name) && graph[name].contains(dependency)
}

/// Whether each name of a list of at least two depends on the one behind it.
pub open spec fn is_walk(graph: Dependencies, walk: Seq<Seq<char>>) -> bool {
    &&& walk.len() >= 2
    &&& forall|i: int|
        0 <= i < walk.len() - 1 ==> #[trigger] graph.dom().contains(walk[i])
            && graph[walk[i]].contains(walk[i + 1])
}

/// Whether a name depends on itself, directly or through others.
pub open spec fn on_cycle(graph: Dependencies, name: Seq<char>) -> bool {
    exists|walk: Seq<Seq<char>>| #[trigger]
        is_walk(graph, walk) && walk.first() == name && walk.last() == name
}

/// Whether every dependency exists and none leads back to where it started.
pub open spec fn is_valid(graph: Dependencies) -> bool {
    &&& forall|dependency: Seq<char>| !#[trigger] is_missing(graph, dependency)
    &&& forall|name: Seq<char>| !#[trigger] on_cycle(graph, name)
}

pub open spec fn missing_message(dependency: Seq<char>) -> Seq<char> {
    "dependency does not exist: "@ + dependency
}

pub open spec fn cycle_message(name: Seq<char>) -> Seq<char> {
    "cyclic resource dependency involving "@ + name
}

/// The resources with their dependencies, each resource once.
pub struct Graph {
    names: Vec<String>,
    dependencies: Vec<Vec<String>>,
}

impl View for Graph {
    type V = Dependencies;

    closed spec fn view(&self) -> Dependencies {
        Map::new(
            |name: Seq<char>| text::views(self.names@).contains(name),
            |name: Seq<char>| text::views(self.dependencies@[text::views(self.names@).index_of(name)]@),
        )
    }
}

impl Graph {
    #[verifier::type_invariant]
    spec fn wf(self) -> bool {
        &&& self.names@.len() == self.dependencies@.len()
        &&& text::views(self.names@).no_duplicates()
    }

    /// The graph without resources.
    pub fn new() -> (graph: Graph)
        ensures
            graph@ == Map::<Seq<char>, Seq<Seq<char>>>::empty(),
    {
        let graph = Graph { names: Vec::new(), dependencies: Vec::new() };
        assert(graph@ =~= Map::<Seq<char>, Seq<Seq<char>>>::empty());
        graph
    }

    fn find(&self, name: &str) -> (found: Option<usize>)
        ensures
            match found {
                Some(at) => {
                    &&& at < self.names@.len()
                    &&& self.names@[at as int]@ == name@
                    &&& text::views(self.names@).contains(name@)
                },
                None => !text::views(self.names@).contains(name@),
            },
    {
        let wanted = owned(name);
        let mut index: usize = 0;
        while index < self.names.len()
            invariant
                wanted@ == name@,
                index <= self.names@.len(),
                forall|i: int| 0 <= i < index ==> #[trigger] self.names@[i]@ != name@,
            decreases self.names@.len() - index,
        {
            if self.names[index] == wanted {
                assert(text::views(self.names@)[index as int] == name@);
                return Some(index);
            }
            index += 1;
        }
        None
    }

    /// Sets what a resource depends on.
    pub fn insert(self, name: &str, dependencies: Vec<String>) -> (graph: Graph)
        ensures
            graph@ == self@.insert(name@, text::views(dependencies@)),
    {
        proof {
            use_type_invariant(&self);
        }
        let ghost before = self@;
        let ghost old_names = text::views(self.names@);
        let found = self.find(name);
        let mut names = self.names;
        let mut lists = self.dependencies;
        let ghost old_lists = lists@;
        match found {
            Some(at) => {
                lists.set(at, dependencies);
            },
            None => {
                names.push(owned(name));
                lists.push(dependencies);
                proof {
                    assert(text::views(names@) =~= old_names.push(name@));
                }
            },
        }
        let graph = Graph { names, dependencies: lists };
        proof {
            let new_names = text::views(graph.names@);
            assert forall|n: Seq<char>| new_names.contains(n) == (old_names.contains(n) || n
                == name@) by {
                if old_names.contains(n) {
                    let i = old_names.index_of(n);
                    assert(new_names[i] == n);
                }
                if n == name@ && found is Some {
                    assert(new_names[found->0 as int] == n);
                }
                if n == name@ && found is None {
                    assert(new_names[old_names.len() as int] == n);
                }
            }
            assert forall|n: Seq<char>| new_names.contains(n) implies graph@[n] == before.insert(
                name@,
                text::views(dependencies@),
            )[n] by {
                let i = new_names.index_of(n);
                assert(new_names[i] == n);
                if n == name@ {
                    if found is Some {
                        assert(new_names[found->0 as int] == n);
                    } else {
                        assert(new_names[old_names.len() as int] == n);
                    }
                } else {
                    let j = old_names.index_of(n);
                    assert(old_names[j] == n);
                    assert(new_names[j] == n);
                }
            }
            assert(graph@ =~= before.insert(name@, text::views(dependencies@)));
        }
        graph
    }

    // The graph over the places of the names, on which the search runs.
    spec fn edge(self, from: int, to: int) -> bool {
        &&& 0 <= from < self.names@.len()
        &&& 0 <= to < self.names@.len()
        &&& text::views(self.dependencies@[from]@).contains(self.names@[to]@)
    }

    spec fn complete(self) -> bool {
        forall|i: int, k: int|
            0 <= i < self.dependencies@.len() && 0 <= k < self.dependencies@[i]@.len() ==> text::views(
                self.names@,
            ).contains(#[trigger] self.dependencies@[i]@[k]@)
    }

    spec fn chain(self, path: Seq<usize>) -> bool {
        forall|i: int| 0 <= i < path.len() - 1 ==> self.edge(#[trigger] path[i] as int, path[i + 1] as int)
    }

    // Every dependency of a finished place was finished before it.
    spec fn finished(self, order: Seq<usize>) -> bool {
        &&& forall|p: int| 0 <= p < order.len() ==> (#[trigger] order[p]) < self.names@.len()
        &&& forall|p: int, to: usize| #![trigger order[p], self.edge(order[p] as int, to as int)]
            0 <= p < order.len() && self.edge(order[p] as int, to as int) ==> exists|q: int|
                0 <= q < p && order[q] == to
    }

    spec fn loops_at(self, at: usize) -> bool {
        exists|walk: Seq<usize>| #[trigger]
            self.chain(walk) && walk.len() >= 2 && walk.first() == at && walk.last() == at
    }

    spec fn reaches(self, from: usize, to: usize) -> bool {
        exists|walk: Seq<usize>| #[trigger]
            self.chain(walk) && walk.len() >= 1 && walk.first() == from && walk.last() == to
    }

    proof fn lemma_reaches_itself(self, at: usize)
        ensures
            self.reaches(at, at),
    {
        let walk = seq![at];
        assert(self.chain(walk));
        assert(walk.first() == at && walk.last() == at);
    }

    proof fn lemma_reaches_further(self, from: usize, next: usize, to: usize)
        requires
            self.edge(from as int, next as int),
            self.reaches(next, to),
        ensures
            self.reaches(from, to),
    {
        let rest = choose|walk: Seq<usize>| #[trigger]
            self.chain(walk) && walk.len() >= 1 && walk.first() == next && walk.last() == to;
        let walk = seq![from] + rest;
        assert forall|i: int| 0 <= i < walk.len() - 1 implies self.edge(
            #[trigger] walk[i] as int,
            walk[i + 1] as int,
        ) by {
            if i > 0 {
                assert(walk[i] == rest[i - 1] && walk[i + 1] == rest[i]);
                assert(self.edge(rest[i - 1] as int, rest[i] as int));
            } else {
                assert(walk[1] == rest[0]);
            }
        }
        assert(self.chain(walk));
        assert(walk.first() == from && walk.last() == to);
    }

    // Finishes a place and all that it reaches, and nothing else.
    fn visit(&self, at: usize, path: &mut Vec<usize>, order: &mut Vec<usize>) -> (result: Result<
        (),
        usize,
    >)
        requires
            self.wf(),
            self.complete(),
            at < self.names@.len(),
            old(path)@.no_duplicates(),
            forall|i: int| 0 <= i < old(path)@.len() ==> (#[trigger] old(path)@[i]) < self.names@.len(),
            self.chain(old(path)@.push(at)),
            self.finished(old(order)@),
            forall|x: usize| old(path)@.contains(x) ==> !old(order)@.contains(x),
        ensures
            match result {
                Ok(_) => {
                    &&& final(path)@ == old(path)@
                    &&& self.finished(final(order)@)
                    &&& final(order)@.contains(at)
                    &&& forall|x: usize| old(order)@.contains(x) ==> final(order)@.contains(x)
                    &&& forall|x: usize| old(path)@.contains(x) ==> !final(order)@.contains(x)
                    &&& forall|x: usize| #[trigger]
                        final(order)@.contains(x) && !old(order)@.contains(x) ==> self.reaches(at, x)
                },
                Err(place) => place < self.names@.len() && self.loops_at(place),
            },
        decreases self.names@.len() - old(path)@.len(),
    {
        if position(order, at).is_some() {
            return Ok(());
        }
        if let Some(open) = position(path, at) {
            proof {
                let full = path@.push(at);
                let walk = full.skip(open as int);
                assert(walk.first() == at && walk.last() == at);
                assert forall|i: int| 0 <= i < walk.len() - 1 implies self.edge(
                    #[trigger] walk[i] as int,
                    walk[i + 1] as int,
                ) by {
                    assert(walk[i] == full[open + i] && walk[i + 1] == full[open + i + 1]);
                }
                assert(self.chain(walk));
            }
            return Err(at);
        }
        path.push(at);
        proof {
            lemma_distinct_below(path@, self.names@.len() as int);
        }
        let ghost below = order@;
        let ghost extended = path@;
        let mut next: usize = 0;
        while next < self.dependencies[at as usize].len()
            invariant
                self.wf(),
                self.complete(),
                at < self.names@.len(),
                extended == old(path)@.push(at),
                path@ == extended,
                extended.no_duplicates(),
                extended.len() <= self.names@.len(),
                forall|i: int| 0 <= i < extended.len() ==> (#[trigger] extended[i]) < self.names@.len(),
                self.chain(extended),
                next <= self.dependencies@[at as int]@.len(),
                self.finished(order@),
                forall|x: usize| extended.contains(x) ==> !order@.contains(x),
                forall|x: usize| old(order)@.contains(x) ==> order@.contains(x),
                forall|x: usize| #[trigger]
                    order@.contains(x) && !old(order)@.contains(x) ==> self.reaches(at, x),
                forall|k: int, to: usize|
                    #![trigger self.dependencies@[at as int]@[k], self.names@[to as int]]
                    0 <= k < next && to < self.names@.len() && self.names@[to as int]@
                        == self.dependencies@[at as int]@[k]@ ==> order@.contains(to),
            decreases self.dependencies@[at as int]@.len() - next,
        {
            let ghost wanted = self.dependencies@[at as int]@[next as int]@;
            let found = self.find(self.dependencies[at][next].as_str());
            match found {
                None => {
                    assert(text::views(self.names@).contains(wanted));
                    assert(false);
                },
                Some(to) => {
                    proof {
                        assert(text::views(self.dependencies@[at as int]@)[next as int] == wanted);
                        assert(self.edge(at as int, to as int));
                        let full = extended.push(to);
                        assert forall|i: int| 0 <= i < full.len() - 1 implies self.edge(
                            #[trigger] full[i] as int,
                            full[i + 1] as int,
                        ) by {
                            if i < extended.len() - 1 {
                                assert(full[i] == extended[i] && full[i + 1] == extended[i + 1]);
                            }
                        }
                    }
                    let ghost order_before = order@;
                    match self.visit(to, path, order) {
                        Ok(_) => {
                            proof {
                                assert forall|x: usize| #[trigger]
                                    order@.contains(x) && !old(order)@.contains(
                                    x) implies self.reaches(at, x) by {
                                    if !order_before.contains(x) {
                                        self.lemma_reaches_further(at, to, x);
                                    }
                                }
                                assert forall|k: int, other: usize|
                                    #![trigger self.dependencies@[at as int]@[k], self.names@[other as int]]
                                    0 <= k < next + 1 && other < self.names@.len()
                                        && self.names@[other as int]@ == self.dependencies@[at as int]@[k]@ implies order@.contains(
                                other) by {
                                    if k == next {
                                        assert(text::views(self.names@)[other as int] == text::views(self.names@)[to as int]);
                                        assert(other == to);
                                    } else {
                                        assert(order_before.contains(other));
                                    }
                                }
                            }
                        },
                        Err(place) => {
                            return Err(place);
                        },
                    }
                },
            }
            next += 1;
        }
        let _ = path.pop();
        let ghost order_before = order@;
        order.push(at);
        proof {
            assert(path@ =~= old(path)@);
            assert(order@[order_before.len() as int] == at);
            assert(extended[extended.len() - 1] == at);
            assert forall|p: int, to: usize| #![trigger order@[p], self.edge(order@[p] as int, to as int)]
                0 <= p < order@.len() && self.edge(order@[p] as int, to as int) implies exists|q: int|
                0 <= q < p && order@[q] == to by {
                if p < order_before.len() {
                    assert(order@[p] == order_before[p]);
                    let q = choose|q: int| 0 <= q < p && order_before[q] == to;
                    assert(order@[q] == to);
                } else {
                    let list = text::views(self.dependencies@[at as int]@);
                    let k = list.index_of(self.names@[to as int]@);
                    assert(list[k] == self.names@[to as int]@);
                    assert(self.dependencies@[at as int]@[k]@ == self.names@[to as int]@);
                    assert(order_before.contains(to));
                    let q = order_before.index_of(to);
                    assert(order@[q] == to);
                }
            }
            self.lemma_reaches_itself(at);
            assert forall|x: usize| #[trigger]
                order@.contains(x) && !old(order)@.contains(x) implies self.reaches(at, x) by {
                let q = order@.index_of(x);
                if q < order_before.len() {
                    assert(order_before[q] == x);
                    assert(order_before.contains(x));
                }
            }
            assert forall|x: usize| old(order)@.contains(x) implies order@.contains(x) by {
                let q = order_before.index_of(x);
                assert(order@[q] == x);
            }
            assert forall|x: usize| old(path)@.contains(x) implies !order@.contains(x) by {
                let i = old(path)@.index_of(x);
                assert(extended[i] == x);
                assert(extended.contains(x));
                assert(x != at);
                if order@.contains(x) {
                    let q = order@.index_of(x);
                    assert(order_before[q] == x);
                }
            }
        }
        Ok(())
    }

    proof fn lemma_view_edge(self, from: int, to: int)
        requires
            self.wf(),
            self.edge(from, to),
        ensures
            self@.dom().contains(self.names@[from]@),
            self@[self.names@[from]@].contains(self.names@[to]@),
    {
        let names = text::views(self.names@);
        assert(names[from] == self.names@[from]@);
        assert(names.index_of(names[from]) == from);
    }

    proof fn lemma_loop_is_cycle(self, at: usize)
        requires
            self.wf(),
            at < self.names@.len(),
            self.loops_at(at),
        ensures
            on_cycle(self@, self.names@[at as int]@),
    {
        let walk = choose|walk: Seq<usize>| #[trigger]
            self.chain(walk) && walk.len() >= 2 && walk.first() == at && walk.last() == at;
        let named = walk.map_values(|i: usize| self.names@[i as int]@);
        assert forall|i: int| 0 <= i < named.len() - 1 implies #[trigger] self@.dom().contains(named[i])
            && self@[named[i]].contains(named[i + 1]) by {
            assert(self.edge(walk[i] as int, walk[i + 1] as int));
            self.lemma_view_edge(walk[i] as int, walk[i + 1] as int);
        }
        assert(is_walk(self@, named));
    }

    // Along a walk the places in the finishing order go down.
    proof fn lemma_walk_goes_down(self, order: Seq<usize>, walk: Seq<Seq<char>>, steps: int, first: int) -> (last: int)
        requires
            self.wf(),
            self.names@.len() <= usize::MAX,
            self.finished(order),
            is_walk(self@, walk),
            0 <= steps < walk.len(),
            0 <= first < order.len(),
            self.names@[order[first] as int]@ == walk[0],
            forall|i: int| 0 <= i < walk.len() ==> text::views(self.names@).contains(#[trigger] walk[i]),
        ensures
            0 <= last <= first - steps,
            self.names@[order[last] as int]@ == walk[steps],
        decreases steps,
    {
        if steps == 0 {
            first
        } else {
            let before = self.lemma_walk_goes_down(order, walk, steps - 1, first);
            let names = text::views(self.names@);
            let to = names.index_of(walk[steps]);
            assert(names[to] == walk[steps]);
            assert(self@.dom().contains(walk[steps - 1]));
            assert(names[order[before] as int] == walk[steps - 1]);
            assert(names.index_of(walk[steps - 1]) == order[before]);
            assert(self.edge(order[before] as int, to as usize as int));
            choose|q: int| 0 <= q < before && order[q] == to as usize
        }
    }

    proof fn lemma_finished_is_acyclic(self, order: Seq<usize>)
        requires
            self.wf(),
            self.names@.len() <= usize::MAX,
            self.finished(order),
            forall|i: usize| i < self.names@.len() ==> order.contains(i),
        ensures
            forall|name: Seq<char>| !#[trigger] on_cycle(self@, name),
    {
        assert forall|name: Seq<char>| !#[trigger] on_cycle(self@, name) by {
            if on_cycle(self@, name) {
                let walk = choose|walk: Seq<Seq<char>>| #[trigger]
                    is_walk(self@, walk) && walk.first() == name && walk.last() == name;
                let names = text::views(self.names@);
                assert forall|i: int| 0 <= i < walk.len() implies names.contains(#[trigger] walk[i]) by {
                    if i < walk.len() - 1 {
                        assert(self@.dom().contains(walk[i]));
                    } else {
                        assert(self@.dom().contains(walk[0]));
                    }
                }
                // Start at the first place in the order that holds the name, so
                // that the walk cannot end at a smaller one.
                let place = names.index_of(name) as usize;
                assert(names[place as int] == name);
                let first = self.lemma_lowest(order, place);
                let last = self.lemma_walk_goes_down(order, walk, walk.len() - 1, first);
                assert(names[order[last] as int] == name);
                assert(order[last] == place);
                assert(false);
            }
        }
    }

    proof fn lemma_lowest(self, order: Seq<usize>, place: usize) -> (first: int)
        requires
            order.contains(place),
        ensures
            0 <= first < order.len(),
            order[first] == place,
            forall|i: int| 0 <= i < first ==> order[i] != place,
        decreases order.len(),
    {
        let at = order.index_of(place);
        if exists|i: int| 0 <= i < at && order[i] == place {
            let shorter = order.take(at);
            let i = choose|i: int| 0 <= i < at && order[i] == place;
            assert(shorter[i] == place);
            let first = self.lemma_lowest(shorter, place);
            assert(order[first] == shorter[first]);
            assert forall|i: int| 0 <= i < first implies order[i] != place by {
                assert(shorter[i] == order[i]);
            }
            first
        } else {
            at
        }
    }
}

fn position(list: &Vec<usize>, wanted: usize) -> (found: Option<usize>)
    ensures
        match found {
            Some(at) => at < list@.len() && list@[at as int] == wanted && list@.contains(wanted),
            None => !list@.contains(wanted),
        },
{
    let mut index: usize = 0;
    while index < list.len()
        invariant
            index <= list@.len(),
            forall|i: int| 0 <= i < index ==> list@[i] != wanted,
        decreases list@.len() - index,
    {
        if list[index] == wanted {
            return Some(index);
        }
        index += 1;
    }
    None
}

proof fn lemma_distinct_below(s: Seq<usize>, limit: int)
    requires
        s.no_duplicates(),
        limit >= 0,
        forall|i: int| 0 <= i < s.len() ==> (#[trigger] s[i]) < limit,
    ensures
        s.len() <= limit,
{
    let ints = s.map_values(|x: usize| x as int);
    assert(ints.no_duplicates());
    ints.unique_seq_to_set();
    vstd::set_lib::lemma_int_range(0, limit);
    assert(ints.to_set().subset_of(vstd::set_lib::set_int_range(0, limit)));
    vstd::set_lib::lemma_len_subset(ints.to_set(), vstd::set_lib::set_int_range(0, limit));
}

/// Checks that every dependency exists and that no resource depends on itself
/// through others. The message names a missing dependency, if there is one, or
/// else a resource on a cycle.
pub fn validate_graph(graph: &Graph) -> (result: Result<(), Error>)
    ensures
        match result {
            Ok(_) => is_valid(graph@),
            Err(error) => {
                ||| exists|dependency: Seq<char>| #[trigger]
                    is_missing(graph@, dependency) && error@ == missing_message(dependency)
                ||| {
                    &&& forall|dependency: Seq<char>| !#[trigger] is_missing(graph@, dependency)
                    &&& exists|name: Seq<char>| #[trigger]
                        on_cycle(graph@, name) && error@ == cycle_message(name)
                }
            },
        },
{
    proof {
        use_type_invariant(graph);
    }
    let mut index: usize = 0;
    while index < graph.names.len()
        invariant
            graph.wf(),
            index <= graph.names@.len(),
            forall|i: int, k: int|
                0 <= i < index && 0 <= k < graph.dependencies@[i]@.len() ==> text::views(
                    graph.names@,
                ).contains(#[trigger] graph.dependencies@[i]@[k]@),
        decreases graph.names@.len() - index,
    {
        let mut next: usize = 0;
        while next < graph.dependencies[index].len()
            invariant
                graph.wf(),
                index < graph.names@.len(),
                next <= graph.dependencies@[index as int]@.len(),
                forall|i: int, k: int|
                    0 <= i < index && 0 <= k < graph.dependencies@[i]@.len() ==> text::views(
                        graph.names@,
                    ).contains(#[trigger] graph.dependencies@[i]@[k]@),
                forall|k: int|
                    0 <= k < next ==> text::views(graph.names@).contains(
                        #[trigger] graph.dependencies@[index as int]@[k]@,
                    ),
            decreases graph.dependencies@[index as int]@.len() - next,
        {
            if graph.find(graph.dependencies[index][next].as_str()).is_none() {
                proof {
                    let wanted = graph.dependencies@[index as int]@[next as int]@;
                    let names = text::views(graph.names@);
                    assert(names[index as int] == graph.names@[index as int]@);
                    assert(names.index_of(names[index as int]) == index);
                    assert(text::views(graph.dependencies@[index as int]@)[next as int] == wanted);
                    assert(graph@.dom().contains(names[index as int]));
                    assert(is_missing(graph@, wanted));
                }
                return Err(
                    Error::new(
                        owned("dependency does not exist: ").concat(
                            graph.dependencies[index][next].as_str(),
                        ),
                    ),
                );
            }
            next += 1;
        }
        index += 1;
    }
    proof {
        assert(graph.complete());
        assert forall|dependency: Seq<char>| !#[trigger] is_missing(graph@, dependency) by {
            if is_missing(graph@, dependency) {
                let name = choose|name: Seq<char>| #[trigger]
                    graph@.dom().contains(name) && graph@[name].contains(dependency);
                let names = text::views(graph.names@);
                let i = names.index_of(name);
                assert(names[i] == name);
                let list = text::views(graph.dependencies@[i]@);
                let k = list.index_of(dependency);
                assert(list[k] == dependency);
                assert(graph.dependencies@[i]@[k]@ == dependency);
            }
        }
    }
    let mut path: Vec<usize> = Vec::new();
    let mut order: Vec<usize> = Vec::new();
    let mut at: usize = 0;
    while at < graph.names.len()
        invariant
            graph.wf(),
            graph.complete(),
            at <= graph.names@.len(),
            path@.len() == 0,
            graph.finished(order@),
            forall|i: usize| i < at ==> order@.contains(i),
            forall|dependency: Seq<char>| !#[trigger] is_missing(graph@, dependency),
        decreases graph.names@.len() - at,
    {
        match graph.visit(at, &mut path, &mut order) {
            Ok(_) => {},
            Err(place) => {
                proof {
                    graph.lemma_loop_is_cycle(place);
                }
                return Err(
                    Error::new(
                        owned("cyclic resource dependency involving ").concat(
                            graph.names[place].as_str(),
                        ),
                    ),
                );
            },
        }
        at += 1;
    }
    assert(graph.names.len() <= usize::MAX);
    proof {
        graph.lemma_finished_is_acyclic(order@);
    }
    Ok(())
}

// ---------------------------------------------------------------------------
// Managed resources
// ---------------------------------------------------------------------------

/// A kind of resource that can depend on others.
#[derive(Debug, Clone, Copy, PartialEq, Eq, Structural)]
pub enum ResourceKind {
    Jail,
    Vm,
}

/// An entry of a directory that holds resources.
#[derive(Debug)]
pub struct Entry {
    pub kind: ResourceKind,
    pub name: String,
    /// Whether the entry is a directory.
    pub directory: bool,
    /// Whether a base jail has this name.
    pub base: bool,
}

/// The directory that holds the resources of a kind.
pub open spec fn base_path(kind: ResourceKind) -> Seq<char> {
    match kind {
        ResourceKind::Jail => JAIL_BASE@,
        ResourceKind::Vm => VM_BASE@,
    }
}

/// Whether an entry is a managed resource.
pub open spec fn is_managed(entry: Entry) -> bool {
    entry.directory && !(entry.kind == ResourceKind::Jail && entry.base)
}

/// The dataset of a resource.
pub open spec fn resource_dataset(pool: Seq<char>, kind: ResourceKind, name: Seq<char>) -> Seq<
    char,
> {
    config::dataset_spec(pool, text::join_path_spec(base_path(kind), name))
}

/// A resource with its name and dataset, as characters.
pub type ResourceModel = (ResourceKind, Seq<char>, Seq<char>);

/// The managed resources among directory entries.
pub open spec fn resources_spec(pool: Seq<char>, entries: Seq<Entry>) -> Seq<ResourceModel>
    decreases entries.len(),
{
    if entries.len() == 0 {
        seq![]
    } else {
        let before = resources_spec(pool, entries.drop_last());
        let entry = entries.last();
        if is_managed(entry) {
            before.push((entry.kind, entry.name@, resource_dataset(pool, entry.kind, entry.name@)))
        } else {
            before
        }
    }
}

/// Resources, as characters.
pub open spec fn resource_views(list: Seq<(ResourceKind, String, String)>) -> Seq<ResourceModel> {
    list.map_values(|item: (ResourceKind, String, String)| (item.0, item.1@, item.2@))
}

/// The managed resources among directory entries, with their datasets.
pub fn resources(config: &Config, entries: &Vec<Entry>) -> (list: Vec<
    (ResourceKind, String, String),
>)
    ensures
        resource_views(list@) == resources_spec(config.zfs_pool@, entries@),
{
    let mut list: Vec<(ResourceKind, String, String)> = Vec::new();
    let mut index: usize = 0;
    proof {
        assert(resource_views(list@) =~= resources_spec(config.zfs_pool@, entries@.take(0)));
    }
    while index < entries.len()
        invariant
            index <= entries@.len(),
            resource_views(list@) == resources_spec(
                config.zfs_pool@,
                entries@.take(index as int),
            ),
        decreases entries@.len() - index,
    {
        let entry = &entries[index];
        let ghost before = list@;
        proof {
            assert(entries@.take(index + 1).drop_last() =~= entries@.take(index as int));
        }
        let skipped = match entry.kind {
            ResourceKind::Jail => entry.base,
            ResourceKind::Vm => false,
        };
        if entry.directory && !skipped {
            let base = match entry.kind {
                ResourceKind::Jail => JAIL_BASE,
                ResourceKind::Vm => VM_BASE,
            };
            let path = join_path(base, entry.name.as_str());
            list.push((entry.kind, entry.name.clone(), config::dataset(config, path.as_str())));
            proof {
                assert(resource_views(list@) =~= resource_views(before).push(
                    (
                        entry.kind,
                        entry.name@,
                        resource_dataset(config.zfs_pool@, entry.kind, entry.name@),
                    ),
                ));
            }
        }
        index += 1;
    }
    proof {
        assert(entries@.take(index as int) =~= entries@);
    }
    list
}

/// A resource with the value of one of its properties.
#[derive(Debug)]
pub struct Stored {
    pub kind: ResourceKind,
    pub name: String,
    pub dataset: String,
    pub value: Option<String>,
}

/// The list that a property gives; none where it is not set.
pub open spec fn stored_list(value: Option<String>) -> Seq<Seq<char>> {
    match value {
        Some(value) => text::list_items(value@),
        None => text::list_items(""@),
    }
}

/// Reads the list that a property gives.
pub fn dependency_list(value: &Option<String>) -> (list: Vec<String>)
    ensures
        text::views(list@) == stored_list(*value),
{
    match value {
        Some(value) => parse_list(value.as_str()),
        None => parse_list(""),
    }
}

/// The dependencies that are stored. Of two resources with one name the later counts.
pub open spec fn stored_graph(stored: Seq<Stored>) -> Dependencies
    decreases stored.len(),
{
    if stored.len() == 0 {
        Map::empty()
    } else {
        stored_graph(stored.drop_last()).insert(
            stored.last().name@,
            stored_list(stored.last().value),
        )
    }
}

/// The graph of the dependencies that are stored.
pub fn graph(stored: &Vec<Stored>) -> (graph: Graph)
    ensures
        graph@ == stored_graph(stored@),
{
    let mut graph = Graph::new();
    let mut index: usize = 0;
    while index < stored.len()
        invariant
            index <= stored@.len(),
            graph@ == stored_graph(stored@.take(index as int)),
        decreases stored@.len() - index,
    {
        proof {
            assert(stored@.take(index + 1).drop_last() =~= stored@.take(index as int));
        }
        graph = graph.insert(stored[index].name.as_str(), dependency_list(&stored[index].value));
        index += 1;
    }
    proof {
        assert(stored@.take(index as int) =~= stored@);
    }
    graph
}

/// What a validation of a graph says.
pub open spec fn is_verdict(graph: Dependencies, result: Result<(), Error>) -> bool {
    match result {
        Ok(_) => is_valid(graph),
        Err(error) => {
            ||| exists|dependency: Seq<char>| #[trigger]
                is_missing(graph, dependency) && error@ == missing_message(dependency)
            ||| {
                &&& forall|dependency: Seq<char>| !#[trigger] is_missing(graph, dependency)
                &&& exists|name: Seq<char>| #[trigger]
                    on_cycle(graph, name) && error@ == cycle_message(name)
            }
        },
    }
}

/// Checks what the graph would be if a resource had these dependencies.
pub fn validate(name: &str, dependencies: &Vec<String>, stored: &Vec<Stored>) -> (result: Result<
    (),
    Error,
>)
    ensures
        is_verdict(stored_graph(stored@).insert(name@, text::views(dependencies@)), result),
{
    let graph = graph(stored).insert(name, text::copies(dependencies));
    validate_graph(&graph)
}

/// Checks the graph as it is stored.
pub fn validate_all(stored: &Vec<Stored>) -> (result: Result<(), Error>)
    ensures
        is_verdict(stored_graph(stored@), result),
{
    let graph = graph(stored);
    validate_graph(&graph)
}

/// The list without a name.
pub open spec fn without(list: Seq<Seq<char>>, name: Seq<char>) -> Seq<Seq<char>>
    decreases list.len(),
{
    if list.len() == 0 {
        seq![]
    } else if list.last() == name {
        without(list.drop_last(), name)
    } else {
        without(list.drop_last(), name).push(list.last())
    }
}

fn remove_name(list: &Vec<String>, name: &str) -> (kept: Vec<String>)
    ensures
        text::views(kept@) == without(text::views(list@), name@),
{
    let mut kept: Vec<String> = Vec::new();
    let mut index: usize = 0;
    proof {
        assert(text::views(kept@) =~= without(text::views(list@).take(0), name@));
    }
    while index < list.len()
        invariant
            index <= list@.len(),
            text::views(kept@) == without(text::views(list@).take(index as int), name@),
        decreases list@.len() - index,
    {
        let ghost before = kept@;
        proof {
            let step = text::views(list@).take(index + 1);
            assert(step.drop_last() =~= text::views(list@).take(index as int));
            assert(step.last() == list@[index as int]@);
        }
        if !text::same(list[index].as_str(), name) {
            kept.push(list[index].clone());
            proof {
                assert(text::views(kept@) =~= text::views(before).push(list@[index as int]@));
            }
        }
        index += 1;
    }
    proof {
        assert(text::views(list@).take(index as int) =~= text::views(list@));
    }
    kept
}

/// The command that stores what a resource depends on.
pub open spec fn store_spec(dataset: Seq<char>, list: Seq<Seq<char>>) -> CommandLine {
    metadata::set_spec(dataset, "dependencies"@, text::join_spec(list, ","@))
}

/// The steps that take a name out of every list that holds it.
pub open spec fn removal_plan(name: Seq<char>, stored: Seq<Stored>) -> PlanModel
    decreases stored.len(),
{
    if stored.len() == 0 {
        plan::no_steps()
    } else {
        let before = removal_plan(name, stored.drop_last());
        let current = stored_list(stored.last().value);
        let kept = without(current, name);
        if kept.len() == current.len() {
            before
        } else {
            before.run(store_spec(stored.last().dataset@, kept))
        }
    }
}

/// Plans to take a name out of every list of dependencies that holds it. Lists that do
/// not hold it are left alone.
pub fn remove_references(name: &str, stored: &Vec<Stored>) -> (plan: Plan)
    ensures
        plan@ == removal_plan(name@, stored@),
{
    let mut plan = Plan::new();
    let mut index: usize = 0;
    while index < stored.len()
        invariant
            index <= stored@.len(),
            plan@ == removal_plan(name@, stored@.take(index as int)),
        decreases stored@.len() - index,
    {
        proof {
            assert(stored@.take(index + 1).drop_last() =~= stored@.take(index as int));
        }
        let current = dependency_list(&stored[index].value);
        let kept = remove_name(&current, name);
        proof {
            assert(text::views(kept@).len() == kept@.len());
            assert(text::views(current@).len() == current@.len());
        }
        if kept.len() != current.len() {
            plan = plan.run(
                metadata::set(
                    stored[index].dataset.as_str(),
                    "dependencies",
                    join(&kept, ",").as_str(),
                ),
            );
        }
        index += 1;
    }
    proof {
        assert(stored@.take(index as int) =~= stored@);
    }
    plan
}

/// After its removal a name is in the list no more, everything else is there as often
/// as before, and the list has changed exactly if it held the name.
pub proof fn law_removal_keeps_the_others(list: Seq<Seq<char>>, name: Seq<char>)
    ensures
        !without(list, name).contains(name),
        forall|other: Seq<char>|
            other != name ==> #[trigger] without(list, name).contains(other) == list.contains(other),
        without(list, name).len() <= list.len(),
        (without(list, name).len() == list.len()) == !list.contains(name),
        !list.contains(name) ==> without(list, name) == list,
    decreases list.len(),
{
    if list.len() > 0 {
        let front = list.drop_last();
        law_removal_keeps_the_others(front, name);
        assert(list =~= front.push(list.last()));
        assert forall|other: Seq<char>| #[trigger] list.contains(other) == (front.contains(other)
            || list.last() == other) by {
            if list.contains(other) {
                let i = list.index_of(other);
                if i < front.len() {
                    assert(front[i] == other);
                }
            }
            if front.contains(other) {
                assert(list[front.index_of(other)] == other);
            }
            if list.last() == other {
                assert(list[list.len() - 1] == other);
            }
        }
        let kept = without(front, name);
        if list.last() != name {
            assert forall|other: Seq<char>| #[trigger] without(list, name).contains(other) == (
            kept.contains(other) || list.last() == other) by {
                let longer = kept.push(list.last());
                if longer.contains(other) {
                    let i = longer.index_of(other);
                    if i < kept.len() {
                        assert(kept[i] == other);
                    }
                }
                if kept.contains(other) {
                    assert(longer[kept.index_of(other)] == other);
                }
                if list.last() == other {
                    assert(longer[kept.len() as int] == other);
                }
            }
        }
    }
}

// ---------------------------------------------------------------------------
// What becomes of the stored graph
// ---------------------------------------------------------------------------

/// What an action records as the dependencies of a dataset, if it records them.
pub open spec fn recorded_by(action: Act, dataset: Seq<char>) -> Option<Seq<char>> {
    let mark = metadata::property_spec("dependencies"@) + "="@;
    match action {
        Act::Run(command) => {
            if command.program == "zfs"@ && command.args.len() == 3 && command.args[0] == "set"@
                && command.args[2] == dataset && command.args[1].len() >= mark.len()
                && command.args[1].take(mark.len() as int) == mark {
                Some(command.args[1].skip(mark.len() as int))
            } else {
                None
            }
        },
        _ => None,
    }
}

/// The value that is read of what was recorded.
pub open spec fn read_back(recorded: Seq<char>) -> Option<Seq<char>> {
    metadata::value_spec(true, recorded.push('\n'))
}

/// The value that is read of a dataset once steps have been carried out.
pub open spec fn value_after(
    steps: Seq<StepModel>,
    dataset: Seq<char>,
    before: Option<Seq<char>>,
) -> Option<Seq<char>>
    decreases steps.len(),
{
    if steps.len() == 0 {
        before
    } else {
        match recorded_by(steps.last().action, dataset) {
            Some(recorded) => read_back(recorded),
            None => value_after(steps.drop_last(), dataset, before),
        }
    }
}

/// Whether this is what is stored of a resource once steps have been carried out.
pub open spec fn is_stored_after(steps: Seq<StepModel>, before: Stored, after: Stored) -> bool {
    &&& after.name@ == before.name@
    &&& after.dataset@ == before.dataset@
    &&& text::optional_view(after.value) == value_after(
        steps,
        before.dataset@,
        text::optional_view(before.value),
    )
}

/// Whether this is what is stored of all resources once steps have been carried out.
pub open spec fn are_stored_after(
    steps: Seq<StepModel>,
    before: Seq<Stored>,
    after: Seq<Stored>,
) -> bool {
    &&& after.len() == before.len()
    &&& forall|i: int|
        0 <= i < before.len() ==> is_stored_after(steps, before[i], #[trigger] after[i])
}

/// Whether this is what is stored of the resources that are left once steps have been
/// carried out, among them the destruction of a dataset.
pub open spec fn are_left_after(
    steps: Seq<StepModel>,
    dataset: Seq<char>,
    before: Seq<Stored>,
    after: Seq<Stored>,
) -> bool
    decreases before.len(),
{
    if before.len() == 0 {
        after.len() == 0
    } else if before.last().dataset@ == dataset {
        are_left_after(steps, dataset, before.drop_last(), after)
    } else {
        &&& after.len() > 0
        &&& is_stored_after(steps, before.last(), after.last())
        &&& are_left_after(steps, dataset, before.drop_last(), after.drop_last())
    }
}

/// Whether the resources with a name are those with a dataset.
pub open spec fn owns(stored: Seq<Stored>, name: Seq<char>, dataset: Seq<char>) -> bool {
    forall|i: int|
        0 <= i < stored.len() ==> ((#[trigger] stored[i]).name@ == name) == (stored[i].dataset@
            == dataset)
}

/// Whether no two resources share a dataset.
pub open spec fn have_own_datasets(stored: Seq<Stored>) -> bool {
    forall|i: int, j: int|
        0 <= i < j < stored.len() ==> (#[trigger] stored[i]).dataset@ != (
        #[trigger] stored[j]).dataset@
}

/// Whether no name in a list holds a comma or has white space around it.
pub open spec fn are_plain(list: Seq<Seq<char>>) -> bool {
    forall|i: int|
        0 <= i < list.len() ==> !(#[trigger] list[i]).contains(',') && text::is_trimmed(list[i])
}

/// The list that the value of a property gives.
spec fn value_list(value: Option<Seq<char>>) -> Seq<Seq<char>> {
    match value {
        Some(value) => text::list_items(value),
        None => text::list_items(""@),
    }
}

proof fn lemma_no_items()
    ensures
        text::list_items(""@).len() == 0,
{
    reveal_strlit("");
    assert(""@ =~= seq![]);
    text::law_list_reads_back(seq![]);
}

// Nothing comes back that was not in the list.
proof fn lemma_read_back(list: Seq<Seq<char>>)
    requires
        are_plain(list),
    ensures
        forall|item: Seq<char>| #[trigger]
            value_list(read_back(text::join_spec(list, ","@))).contains(item) ==> list.contains(
                item,
            ),
{
    let joined = text::join_spec(list, ","@);
    text::lemma_joined_is_trimmed(list);
    metadata::lemma_printed_value(joined);
    lemma_no_items();
    if list.len() > 0 {
        text::lemma_split_joined(list);
        text::lemma_non_empty_parts(list);
    }
}

proof fn lemma_recorded(dataset: Seq<char>, list: Seq<Seq<char>>, other: Seq<char>)
    ensures
        recorded_by(Act::Run(store_spec(dataset, list)), other) == if other == dataset {
            Some(text::join_spec(list, ","@))
        } else {
            None
        },
{
    let mark = metadata::property_spec("dependencies"@) + "="@;
    let joined = text::join_spec(list, ","@);
    let command = store_spec(dataset, list);
    assert(command.args.len() == 3 && command.args[0] == "set"@ && command.args[2] == dataset);
    assert(command.args[1] =~= mark + joined);
    assert(command.args[1].take(mark.len() as int) =~= mark);
    assert(command.args[1].skip(mark.len() as int) =~= joined);
}

// A graph with fewer resources and dependencies stays valid, unless what is left depends on
// what is gone.
proof fn lemma_part_is_valid(whole: Dependencies, part: Dependencies)
    requires
        is_valid(whole),
        forall|name: Seq<char>| #[trigger]
            part.dom().contains(name) ==> whole.dom().contains(name),
        forall|name: Seq<char>, item: Seq<char>|
            part.dom().contains(name) && #[trigger] part[name].contains(item)
                ==> whole[name].contains(item) && (whole.dom().contains(item)
                ==> part.dom().contains(item)),
    ensures
        is_valid(part),
{
    assert forall|item: Seq<char>| !#[trigger] is_missing(part, item) by {
        if is_missing(part, item) {
            let name = choose|name: Seq<char>| #[trigger]
                part.dom().contains(name) && part[name].contains(item);
            assert(whole.dom().contains(name));
            assert(whole[name].contains(item));
            assert(!is_missing(whole, item));
        }
    }
    assert forall|name: Seq<char>| !#[trigger] on_cycle(part, name) by {
        if on_cycle(part, name) {
            let walk = choose|walk: Seq<Seq<char>>| #[trigger]
                is_walk(part, walk) && walk.first() == name && walk.last() == name;
            assert forall|i: int| 0 <= i < walk.len() - 1 implies #[trigger] whole.dom().contains(
                walk[i],
            ) && whole[walk[i]].contains(walk[i + 1]) by {
                assert(part.dom().contains(walk[i]));
                assert(part[walk[i]].contains(walk[i + 1]));
            }
            assert(is_walk(whole, walk));
            assert(on_cycle(whole, name));
        }
    }
}

proof fn lemma_graph_after(
    steps: Seq<StepModel>,
    before: Seq<Stored>,
    after: Seq<Stored>,
    name: Seq<char>,
    list: Seq<Seq<char>>,
)
    requires
        are_stored_after(steps, before, after),
        forall|i: int|
            0 <= i < before.len() && (#[trigger] before[i]).name@ != name ==> value_after(
                steps,
                before[i].dataset@,
                text::optional_view(before[i].value),
            ) == text::optional_view(before[i].value),
        forall|i: int, item: Seq<char>|
            0 <= i < before.len() && before[i].name@ == name && #[trigger] value_list(
                value_after(steps, before[i].dataset@, text::optional_view(before[i].value)),
            ).contains(item) ==> list.contains(item),
    ensures
        stored_graph(after).dom() == stored_graph(before).dom(),
        forall|other: Seq<char>|
            other != name && stored_graph(before).dom().contains(other) ==> #[trigger] stored_graph(
                after,
            )[other] == stored_graph(before)[other],
        forall|item: Seq<char>|
            stored_graph(before).dom().contains(name) && #[trigger] stored_graph(
                after,
            )[name].contains(item) ==> list.contains(item),
    decreases before.len(),
{
    if before.len() > 0 {
        let first = before.drop_last();
        let second = after.drop_last();
        assert(is_stored_after(steps, before[before.len() - 1], after[before.len() - 1]));
        assert forall|i: int| 0 <= i < first.len() implies is_stored_after(
            steps,
            first[i],
            #[trigger] second[i],
        ) by {
            assert(is_stored_after(steps, before[i], after[i]));
        }
        assert forall|i: int| 0 <= i < first.len() && (#[trigger] first[i]).name@
            != name implies value_after(
            steps,
            first[i].dataset@,
            text::optional_view(first[i].value),
        ) == text::optional_view(first[i].value) by {
            assert(first[i] == before[i]);
        }
        assert forall|i: int, item: Seq<char>|
            0 <= i < first.len() && first[i].name@ == name && #[trigger] value_list(
                value_after(steps, first[i].dataset@, text::optional_view(first[i].value)),
            ).contains(item) implies list.contains(item) by {
            assert(first[i] == before[i]);
        }
        lemma_graph_after(steps, first, second, name, list);
        let last = before.last();
        assert(stored_list(after.last().value) == value_list(
            value_after(steps, last.dataset@, text::optional_view(last.value)),
        ));
        assert(stored_graph(after).dom() =~= stored_graph(before).dom());
    }
}

/// A list that was accepted leaves the whole stored graph valid once it is recorded and read
/// back.
pub proof fn lemma_accepted_list(
    name: Seq<char>,
    dataset: Seq<char>,
    list: Seq<Seq<char>>,
    before: Seq<Stored>,
    after: Seq<Stored>,
)
    requires
        is_valid(stored_graph(before).insert(name, list)),
        stored_graph(before).dom().contains(name),
        owns(before, name, dataset),
        are_plain(list),
        are_stored_after(plan::no_steps().run(store_spec(dataset, list)).steps, before, after),
    ensures
        is_valid(stored_graph(after)),
{
    let steps = plan::no_steps().run(store_spec(dataset, list)).steps;
    assert(steps.drop_last() =~= seq![]);
    lemma_read_back(list);
    assert forall|other: Seq<char>, value: Option<Seq<char>>| #[trigger]
        value_after(steps, other, value) == if other == dataset {
            read_back(text::join_spec(list, ","@))
        } else {
            value
        } by {
        lemma_recorded(dataset, list, other);
        reveal_with_fuel(value_after, 2);
    }
    lemma_graph_after(steps, before, after, name, list);
    let whole = stored_graph(before).insert(name, list);
    let part = stored_graph(after);
    assert(whole.dom() =~= part.dom());
    assert forall|n: Seq<char>, item: Seq<char>|
        part.dom().contains(n) && #[trigger] part[n].contains(item) implies whole[n].contains(item)
        && (whole.dom().contains(item) ==> part.dom().contains(item)) by {
        if n != name {
            assert(part[n] == stored_graph(before)[n]);
        }
    }
    lemma_part_is_valid(whole, part);
}

proof fn lemma_kept_items(list: Seq<Seq<char>>, name: Seq<char>)
    requires
        are_plain(list),
    ensures
        are_plain(without(list, name)),
{
    law_removal_keeps_the_others(list, name);
    let kept = without(list, name);
    assert forall|i: int| 0 <= i < kept.len() implies !(#[trigger] kept[i]).contains(',')
        && text::is_trimmed(kept[i]) by {
        assert(kept.contains(kept[i]));
        assert(kept[i] != name);
        assert(list.contains(kept[i]));
        let j = list.index_of(kept[i]);
        assert(list[j] == kept[i]);
    }
}

proof fn lemma_stored_items_are_whole(value: Option<String>)
    ensures
        forall|i: int|
            0 <= i < stored_list(value).len() ==> !(#[trigger] stored_list(value)[i]).contains(','),
{
    lemma_no_items();
    if let Some(value) = value {
        let parts = text::split_spec(value@, ',');
        let items = text::list_items(value@);
        text::lemma_parts_are_whole(value@, ',');
        text::lemma_non_empty_parts(parts);
        assert forall|i: int| 0 <= i < items.len() implies !(#[trigger] items[i]).contains(',') by {
            assert(items.contains(items[i]));
            let j = parts.index_of(items[i]);
            assert(parts[j] == items[i]);
        }
    }
}

/// The value that is read of a resource once a name has been taken out of every list.
pub open spec fn removed_value(name: Seq<char>, stored: Stored) -> Option<Seq<char>> {
    let current = stored_list(stored.value);
    let kept = without(current, name);
    if kept.len() == current.len() {
        text::optional_view(stored.value)
    } else {
        read_back(text::join_spec(kept, ","@))
    }
}

proof fn lemma_other_dataset(
    name: Seq<char>,
    stored: Seq<Stored>,
    dataset: Seq<char>,
    value: Option<Seq<char>>,
)
    requires
        forall|i: int| 0 <= i < stored.len() ==> (#[trigger] stored[i]).dataset@ != dataset,
    ensures
        value_after(removal_plan(name, stored).steps, dataset, value) == value,
    decreases stored.len(),
{
    if stored.len() > 0 {
        let front = stored.drop_last();
        assert forall|i: int| 0 <= i < front.len() implies (#[trigger] front[i]).dataset@
            != dataset by {
            assert(front[i] == stored[i]);
        }
        lemma_other_dataset(name, front, dataset, value);
        let last = stored[stored.len() - 1];
        let kept = without(stored_list(last.value), name);
        lemma_recorded(last.dataset@, kept, dataset);
        let before = removal_plan(name, front);
        let longer = before.run(store_spec(last.dataset@, kept));
        assert(longer.steps.drop_last() =~= before.steps);
    }
}

proof fn lemma_removed_value(name: Seq<char>, stored: Seq<Stored>, at: int)
    requires
        have_own_datasets(stored),
        0 <= at < stored.len(),
    ensures
        value_after(
            removal_plan(name, stored).steps,
            stored[at].dataset@,
            text::optional_view(stored[at].value),
        ) == removed_value(name, stored[at]),
    decreases stored.len(),
{
    let front = stored.drop_last();
    let last = stored.last();
    let kept = without(stored_list(last.value), name);
    let before = removal_plan(name, front);
    let longer = before.run(store_spec(last.dataset@, kept));
    assert(longer.steps.drop_last() =~= before.steps);
    lemma_recorded(last.dataset@, kept, stored[at].dataset@);
    if at == front.len() {
        assert forall|i: int| 0 <= i < front.len() implies (#[trigger] front[i]).dataset@
            != last.dataset@ by {
            assert(stored[i].dataset@ != stored[at].dataset@);
        }
        lemma_other_dataset(name, front, last.dataset@, text::optional_view(last.value));
    } else {
        assert(stored[at].dataset@ != stored[stored.len() - 1].dataset@);
        assert(front[at] == stored[at]);
        assert(have_own_datasets(front)) by {
            assert forall|i: int, j: int| 0 <= i < j < front.len() implies (
            #[trigger] front[i]).dataset@ != (#[trigger] front[j]).dataset@ by {
                assert(stored[i].dataset@ != stored[j].dataset@);
            }
        }
        lemma_removed_value(name, front, at);
    }
}

// What is read after the removal was there before, and is not the name.
proof fn lemma_removed_items(name: Seq<char>, stored: Stored)
    requires
        are_plain(stored_list(stored.value)),
    ensures
        forall|item: Seq<char>| #[trigger]
            value_list(removed_value(name, stored)).contains(item) ==> item != name && stored_list(
                stored.value,
            ).contains(item),
{
    let current = stored_list(stored.value);
    let kept = without(current, name);
    law_removal_keeps_the_others(current, name);
    lemma_kept_items(current, name);
    lemma_read_back(kept);
    assert(value_list(text::optional_view(stored.value)) == current);
}

proof fn lemma_graph_left(
    steps: Seq<StepModel>,
    dataset: Seq<char>,
    before: Seq<Stored>,
    after: Seq<Stored>,
    name: Seq<char>,
)
    requires
        are_left_after(steps, dataset, before, after),
        owns(before, name, dataset),
        forall|i: int, item: Seq<char>|
            0 <= i < before.len() && #[trigger] value_list(
                value_after(steps, before[i].dataset@, text::optional_view(before[i].value)),
            ).contains(item) ==> item != name && stored_list(before[i].value).contains(item),
    ensures
        forall|other: Seq<char>| #[trigger]
            stored_graph(after).dom().contains(other) <==> other != name && stored_graph(
                before,
            ).dom().contains(other),
        forall|other: Seq<char>, item: Seq<char>|
            stored_graph(after).dom().contains(other) && #[trigger] stored_graph(
                after,
            )[other].contains(item) ==> item != name && stored_graph(before)[other].contains(item),
        forall|i: int|
            0 <= i < after.len() ==> !stored_list((#[trigger] after[i]).value).contains(name),
    decreases before.len(),
{
    if before.len() > 0 {
        let first = before.drop_last();
        let last = before[before.len() - 1];
        assert(owns(first, name, dataset)) by {
            assert forall|i: int| 0 <= i < first.len() implies ((#[trigger] first[i]).name@ == name)
                == (first[i].dataset@ == dataset) by {
                assert(first[i] == before[i]);
            }
        }
        assert forall|i: int, item: Seq<char>|
            0 <= i < first.len() && #[trigger] value_list(
                value_after(steps, first[i].dataset@, text::optional_view(first[i].value)),
            ).contains(item) implies item != name && stored_list(first[i].value).contains(item) by {
            assert(first[i] == before[i]);
        }
        assert((last.name@ == name) == (last.dataset@ == dataset));
        let old_graph = stored_graph(first);
        let whole = stored_graph(before);
        assert(whole == old_graph.insert(last.name@, stored_list(last.value)));
        let part = stored_graph(after);
        if last.dataset@ == dataset {
            lemma_graph_left(steps, dataset, first, after, name);
            assert forall|other: Seq<char>| #[trigger] part.dom().contains(other) <==> other != name
                && whole.dom().contains(other) by {
                assert(part.dom().contains(other) <==> other != name && old_graph.dom().contains(
                    other,
                ));
            }
        } else {
            let second = after.drop_last();
            lemma_graph_left(steps, dataset, first, second, name);
            let rest = stored_graph(second);
            let left = stored_list(after.last().value);
            assert(after.last().name@ == last.name@);
            assert(part == rest.insert(last.name@, left));
            assert(left == value_list(
                value_after(steps, last.dataset@, text::optional_view(last.value)),
            ));
            assert forall|item: Seq<char>| #[trigger] left.contains(item) implies item != name
                && stored_list(last.value).contains(item) by {
                assert(before[before.len() - 1] == last);
            }
            assert forall|other: Seq<char>| #[trigger] part.dom().contains(other) <==> other != name
                && whole.dom().contains(other) by {
                assert(rest.dom().contains(other) <==> other != name && old_graph.dom().contains(
                    other,
                ));
            }
            assert forall|other: Seq<char>, item: Seq<char>|
                part.dom().contains(other) && #[trigger] part[other].contains(item) implies item
                != name && whole[other].contains(item) by {
                if other != last.name@ {
                    assert(rest.dom().contains(other) && rest[other].contains(item));
                }
            }
            assert forall|i: int| 0 <= i < after.len() implies !stored_list(
                (#[trigger] after[i]).value,
            ).contains(name) by {
                if i < second.len() {
                    assert(after[i] == second[i]);
                }
            }
        }
    }
}

/// A valid stored graph stays valid when a resource goes and every reference to it is taken
/// out, whatever else is done that records no dependencies; and nothing that is left depends
/// on the resource.
pub proof fn lemma_removed_resource(
    name: Seq<char>,
    dataset: Seq<char>,
    steps: Seq<StepModel>,
    before: Seq<Stored>,
    after: Seq<Stored>,
)
    requires
        is_valid(stored_graph(before)),
        owns(before, name, dataset),
        have_own_datasets(before),
        forall|i: int| 0 <= i < before.len() ==> names_are_trimmed(#[trigger] before[i]),
        forall|other: Seq<char>, value: Option<Seq<char>>| #[trigger]
            value_after(steps, other, value) == value_after(
                removal_plan(name, before).steps,
                other,
                value,
            ),
        are_left_after(steps, dataset, before, after),
    ensures
        is_valid(stored_graph(after)),
        forall|i: int|
            0 <= i < after.len() ==> !stored_list((#[trigger] after[i]).value).contains(name),
{
    assert forall|i: int, item: Seq<char>|
        0 <= i < before.len() && #[trigger] value_list(
            value_after(steps, before[i].dataset@, text::optional_view(before[i].value)),
        ).contains(item) implies item != name && stored_list(before[i].value).contains(item) by {
        lemma_removed_value(name, before, i);
        assert(names_are_trimmed(before[i]));
        lemma_stored_items_are_whole(before[i].value);
        lemma_removed_items(name, before[i]);
    }
    lemma_graph_left(steps, dataset, before, after, name);
    lemma_part_is_valid(stored_graph(before), stored_graph(after));
}

/// Whether an action sets a property.
pub open spec fn is_setting(action: Act) -> bool {
    action matches Act::Run(command) && command.program == "zfs"@ && command.args.len() == 3
        && command.args[0] == "set"@
}

/// Whether an action destroys a dataset.
pub open spec fn is_destruction(action: Act) -> bool {
    action matches Act::Run(command) && command.program == "zfs"@ && command.args.len() > 0
        && command.args[0] == "destroy"@
}

/// References are taken out by setting properties alone.
pub proof fn lemma_removal_sets(name: Seq<char>, stored: Seq<Stored>)
    ensures
        forall|i: int|
            0 <= i < removal_plan(name, stored).steps.len() ==> is_setting(
                (#[trigger] removal_plan(name, stored).steps[i]).action,
            ) && !is_destruction(removal_plan(name, stored).steps[i].action),
    decreases stored.len(),
{
    if stored.len() > 0 {
        lemma_removal_sets(name, stored.drop_last());
        reveal_strlit("set");
        reveal_strlit("destroy");
        assert("set"@.len() != "destroy"@.len());
    }
}

/// Steps that set nothing change no value, whether they come before others or behind them.
pub proof fn lemma_other_steps(
    front: Seq<StepModel>,
    steps: Seq<StepModel>,
    back: Seq<StepModel>,
    dataset: Seq<char>,
    value: Option<Seq<char>>,
)
    requires
        forall|i: int| 0 <= i < front.len() ==> !is_setting((#[trigger] front[i]).action),
        forall|i: int| 0 <= i < back.len() ==> !is_setting((#[trigger] back[i]).action),
    ensures
        value_after(front + steps + back, dataset, value) == value_after(steps, dataset, value),
    decreases front.len() + steps.len() + back.len(),
{
    let all = front + steps + back;
    if back.len() > 0 {
        assert(all.drop_last() =~= front + steps + back.drop_last());
        assert(!is_setting(back[back.len() - 1].action));
        lemma_other_steps(front, steps, back.drop_last(), dataset, value);
    } else if steps.len() > 0 {
        assert(all =~= front + steps);
        assert(all.drop_last() =~= front + steps.drop_last() + back);
        lemma_other_steps(front, steps.drop_last(), back, dataset, value);
    } else if front.len() > 0 {
        assert(all =~= front);
        assert(all.drop_last() =~= front.drop_last() + steps + back);
        assert(!is_setting(front[front.len() - 1].action));
        lemma_other_steps(front.drop_last(), steps, back, dataset, value);
    }
}

/// Whether no name that a resource depends on has white space around it.
pub open spec fn names_are_trimmed(stored: Stored) -> bool {
    forall|i: int|
        0 <= i < stored_list(stored.value).len() ==> text::is_trimmed(
            #[trigger] stored_list(stored.value)[i],
        )
}

/// The resources that are started with the daemon.
pub open spec fn enabled_spec(stored: Seq<Stored>) -> Result<
    Seq<(ResourceKind, Seq<char>)>,
    Seq<char>,
>
    decreases stored.len(),
{
    if stored.len() == 0 {
        Ok(seq![])
    } else {
        match enabled_spec(stored.drop_last()) {
            Err(error) => Err(error),
            Ok(before) => match metadata::bool_spec(
                "enabled"@,
                text::optional_view(stored.last().value),
                true,
            ) {
                Err(error) => Err(error),
                Ok(true) => Ok(before.push((stored.last().kind, stored.last().name@))),
                Ok(false) => Ok(before),
            },
        }
    }
}

/// Names with their kinds, as characters.
pub open spec fn named_views(list: Seq<(ResourceKind, String)>) -> Seq<(ResourceKind, Seq<char>)> {
    list.map_values(|item: (ResourceKind, String)| (item.0, item.1@))
}

/// The resources that are started with the daemon: all but those whose `enabled`
/// property says that they are not.
pub fn enabled(stored: &Vec<Stored>) -> (result: Result<Vec<(ResourceKind, String)>, Error>)
    ensures
        match result {
            Ok(list) => enabled_spec(stored@) == Ok::<Seq<(ResourceKind, Seq<char>)>, Seq<char>>(
                named_views(list@),
            ),
            Err(error) => enabled_spec(stored@) == Err::<
                Seq<(ResourceKind, Seq<char>)>,
                Seq<char>,
            >(error@),
        },
{
    let mut list: Vec<(ResourceKind, String)> = Vec::new();
    let mut index: usize = 0;
    proof {
        assert(named_views(list@) =~= seq![]);
    }
    while index < stored.len()
        invariant
            index <= stored@.len(),
            enabled_spec(stored@.take(index as int)) == Ok::<
                Seq<(ResourceKind, Seq<char>)>,
                Seq<char>,
            >(named_views(list@)),
        decreases stored@.len() - index,
    {
        let ghost before = list@;
        proof {
            assert(stored@.take(index + 1).drop_last() =~= stored@.take(index as int));
        }
        match metadata::get_bool("enabled", &stored[index].value, true) {
            Err(error) => {
                proof {
                    lemma_enabled_failure(stored@, index + 1);
                }
                return Err(error);
            },
            Ok(flag) => {
                if flag {
                    list.push((stored[index].kind, stored[index].name.clone()));
                    proof {
                        assert(named_views(list@) =~= named_views(before).push(
                            (stored@[index as int].kind, stored@[index as int].name@),
                        ));
                    }
                }
            },
        }
        index += 1;
    }
    proof {
        assert(stored@.take(index as int) =~= stored@);
    }
    Ok(list)
}

proof fn lemma_enabled_failure(stored: Seq<Stored>, count: int)
    requires
        0 <= count <= stored.len(),
        enabled_spec(stored.take(count)) is Err,
    ensures
        enabled_spec(stored) == enabled_spec(stored.take(count)),
    decreases stored.len(),
{
    if count < stored.len() {
        assert(stored.drop_last().take(count) =~= stored.take(count));
        lemma_enabled_failure(stored.drop_last(), count);
    } else {
        assert(stored.take(count) =~= stored);
    }
}

/// Whether an entry is the managed resource with this kind and name.
pub open spec fn is_entry_of(entry: Entry, kind: ResourceKind, name: Seq<char>) -> bool {
    &&& entry.kind == kind && entry.name@ == name && entry.directory
    &&& kind == ResourceKind::Jail ==> !entry.base
}

/// A resource is listed with its dataset exactly if a directory entry is that managed
/// resource; so a base jail is never managed as a jail.
pub proof fn law_managed_entries_are_listed(
    pool: Seq<char>,
    entries: Seq<Entry>,
    kind: ResourceKind,
    name: Seq<char>,
)
    ensures
        resources_spec(pool, entries).contains((kind, name, resource_dataset(pool, kind, name)))
            <==> exists|i: int|
            0 <= i < entries.len() && is_entry_of(#[trigger] entries[i], kind, name),
    decreases entries.len(),
{
    let wanted = (kind, name, resource_dataset(pool, kind, name));
    let list = resources_spec(pool, entries);
    if entries.len() > 0 {
        let front = entries.drop_last();
        let before = resources_spec(pool, front);
        law_managed_entries_are_listed(pool, front, kind, name);
        if before.contains(wanted) {
            let i = choose|i: int|
                0 <= i < front.len() && is_entry_of(#[trigger] front[i], kind, name);
            assert(is_entry_of(entries[i], kind, name));
            assert(list[before.index_of(wanted)] == wanted);
        }
        if is_managed(entries.last()) && list.contains(wanted) && !before.contains(wanted) {
            let i = list.index_of(wanted);
            if i < before.len() {
                assert(before[i] == wanted);
            }
            assert(is_entry_of(entries[entries.len() - 1], kind, name));
        }
        if exists|i: int| 0 <= i < entries.len() && is_entry_of(#[trigger] entries[i], kind, name) {
            let i = choose|i: int|
                0 <= i < entries.len() && is_entry_of(#[trigger] entries[i], kind, name);
            if i < front.len() {
                assert(is_entry_of(front[i], kind, name));
            } else {
                assert(list[before.len() as int] == wanted);
            }
        }
    }
}

/// Whether what is recorded of a resource says that it is started with the daemon.
pub open spec fn is_enabled(stored: Stored, kind: ResourceKind, name: Seq<char>) -> bool {
    stored.kind == kind && stored.name@ == name && metadata::bool_spec(
        "enabled"@,
        text::optional_view(stored.value),
        true,
    ) == Ok::<bool, Seq<char>>(true)
}

/// A resource is started with the daemon exactly if it is recorded as enabled, or nothing
/// is recorded of that.
pub proof fn law_enabled_resources_are_started(
    stored: Seq<Stored>,
    kind: ResourceKind,
    name: Seq<char>,
)
    requires
        enabled_spec(stored) is Ok,
    ensures
        enabled_spec(stored)->Ok_0.contains((kind, name)) <==> exists|i: int|
            0 <= i < stored.len() && is_enabled(#[trigger] stored[i], kind, name),
    decreases stored.len(),
{
    let wanted = (kind, name);
    let list = enabled_spec(stored)->Ok_0;
    if stored.len() > 0 {
        let front = stored.drop_last();
        let before = enabled_spec(front)->Ok_0;
        law_enabled_resources_are_started(front, kind, name);
        if before.contains(wanted) {
            let i = choose|i: int|
                0 <= i < front.len() && is_enabled(#[trigger] front[i], kind, name);
            assert(is_enabled(stored[i], kind, name));
            assert(list[before.index_of(wanted)] == wanted);
        }
        if list.contains(wanted) && !before.contains(wanted) {
            let i = list.index_of(wanted);
            if i < before.len() {
                assert(before[i] == wanted);
            }
            assert(is_enabled(stored[stored.len() - 1], kind, name));
        }
        if exists|i: int| 0 <= i < stored.len() && is_enabled(#[trigger] stored[i], kind, name) {
            let i = choose|i: int|
                0 <= i < stored.len() && is_enabled(#[trigger] stored[i], kind, name);
            if i < front.len() {
                assert(is_enabled(front[i], kind, name));
            } else {
                assert(list[before.len() as int] == wanted);
            }
        }
    }
}

/// The dataset of a resource lies in the pool behind the directory of its kind, so a jail
/// and a virtual machine of the same name have different ones.
pub proof fn law_kinds_have_their_own_datasets(pool: Seq<char>, name: Seq<char>)
    requires
        name.len() > 0 && name[0] != '/',
    ensures
        resource_dataset(pool, ResourceKind::Jail, name) == config::dataset_spec(
            pool,
            JAIL_BASE@ + "/"@ + name,
        ),
        resource_dataset(pool, ResourceKind::Vm, name) == config::dataset_spec(
            pool,
            VM_BASE@ + "/"@ + name,
        ),
{
    reveal_strlit("/var/priosun/jail");
    reveal_strlit("/var/priosun/vm");
    reveal_strlit("/");
    assert(text::join_path_spec(JAIL_BASE@, name) =~= JAIL_BASE@ + "/"@ + name);
    assert(text::join_path_spec(VM_BASE@, name) =~= VM_BASE@ + "/"@ + name);
}

/// A verdict names what is wrong: a refusal ends with the name of a resource that some
/// resource depends on and that there is not, or else with that of one that depends on
/// itself; and a graph where each dependency is a resource and none leads back is accepted.
pub proof fn law_verdict_names_the_resource(graph: Dependencies, result: Result<(), Error>)
    requires
        is_verdict(graph, result),
    ensures
        result is Err ==> exists|name: Seq<char>| #[trigger]
            text::ends_with_spec(result->Err_0@, name) && (is_missing(graph, name) || on_cycle(
                graph,
                name,
            )),
        result is Ok ==> forall|name: Seq<char>, other: Seq<char>| #[trigger]
            graph.dom().contains(name) && #[trigger] graph[name].contains(other)
                ==> graph.dom().contains(other) && other != name,
        (forall|name: Seq<char>| !#[trigger] is_missing(graph, name)) && (forall|name: Seq<char>|
            !#[trigger] on_cycle(graph, name)) ==> result is Ok,
{
    if let Err(error) = result {
        if exists|name: Seq<char>| #[trigger]
            is_missing(graph, name) && error@ == missing_message(name) {
            let name = choose|name: Seq<char>| #[trigger]
                is_missing(graph, name) && error@ == missing_message(name);
            assert(error@.skip(error@.len() - name.len()) =~= name);
            assert(text::ends_with_spec(error@, name));
        } else {
            let name = choose|name: Seq<char>| #[trigger]
                on_cycle(graph, name) && error@ == cycle_message(name);
            assert(error@.skip(error@.len() - name.len()) =~= name);
            assert(text::ends_with_spec(error@, name));
        }
    } else {
        assert forall|name: Seq<char>, other: Seq<char>| #[trigger]
            graph.dom().contains(name) && #[trigger] graph[name].contains(other) implies graph.dom().contains(
        other) && other != name by {
            assert(!is_missing(graph, other));
            if other == name {
                let walk = seq![name, name];
                assert(is_walk(graph, walk));
                assert(walk.first() == name && walk.last() == name);
                assert(on_cycle(graph, name));
            }
        }
    }
}

} // verus!
