//! The transition graph: for every (event, leaf) pair, the one edge that the
//! most specific matching transition produces, if any.
use vstd::prelude::*;
use crate::definition::{
    MachineDefinition, EventDefinition, names, index_of, position, concat_names,
};
use crate::validation::{
    valid_definition, events_problem_from, event_problem, transitions_problem_from,
    transition_problem,
};

verus! {

/// The first transition of `e` from position `j` on that lists `c` among its
/// sources, or -1.
pub open spec fn first_transition_from(e: EventDefinition, c: Seq<char>, j: int) -> int
    decreases e.transitions@.len() - j,
{
    if j < 0 || j >= e.transitions@.len() {
        -1
    } else if names(e.transitions@[j].sources@).contains(c) {
        j
    } else {
        first_transition_from(e, c, j + 1)
    }
}

/// The first level of `chain` from `k` on that some transition of `e` names
/// as a source, or -1.
pub open spec fn selected_level(e: EventDefinition, chain: Seq<Seq<char>>, k: int) -> int
    decreases chain.len() - k,
{
    if k < 0 || k >= chain.len() {
        -1
    } else if first_transition_from(e, chain[k], 0) >= 0 {
        k
    } else {
        selected_level(e, chain, k + 1)
    }
}

/// A leaf followed by its ancestors: the levels from most to least specific.
pub open spec fn specificity_chain(m: MachineDefinition, leaf: Seq<char>) -> Seq<Seq<char>> {
    seq![leaf] + m.ancestor_chain(leaf)
}

/// The transition of event `ei` that applies to `leaf`: the first declared
/// one at the most specific level of the leaf's chain, or -1.
pub open spec fn selected_transition(m: MachineDefinition, ei: int, leaf: Seq<char>) -> int {
    let e = m.events@[ei];
    let chain = specificity_chain(m, leaf);
    let level = selected_level(e, chain, 0);
    if level < 0 {
        -1
    } else {
        first_transition_from(e, chain[level], 0)
    }
}

/// One resolved edge: the leaf it leaves, the event, the leaf it enters (and
/// that leaf's position in `states`), the transition it comes from, and the
/// combined guard and callback lists in the order they run.
#[derive(Debug, Clone)]
pub struct TransitionEdge {
    pub source: String,
    pub event: String,
    pub target: String,
    pub target_index: usize,
    pub transition: usize,
    pub guards: Vec<String>,
    pub unless: Vec<String>,
    pub before: Vec<String>,
    pub after: Vec<String>,
    pub around: Vec<String>,
    pub payload: Option<String>,
}

/// Edges indexed by event, then by leaf position; `None` where the event
/// has no transition from that leaf.
#[derive(Debug, Clone)]
pub struct TransitionGraph {
    pub edges: Vec<Vec<Option<TransitionEdge>>>,
}

/// The selected transition's target does not resolve to a declared leaf.
#[derive(Debug, Clone, Copy, PartialEq, Eq, Structural)]
pub struct GraphError {
    pub event: usize,
    pub state: usize,
}

/// `edge` is the edge of event `ei` from leaf `li`: guards, unless guards,
/// before callbacks and around callbacks are the event's followed by the
/// transition's; after callbacks are the transition's followed by the event's.
pub open spec fn edge_for(m: MachineDefinition, ei: int, li: int, edge: TransitionEdge) -> bool {
    let e = m.events@[ei];
    let ti = selected_transition(m, ei, m.leaf_names()[li]);
    let t = e.transitions@[ti];
    &&& 0 <= ti < e.transitions@.len()
    &&& edge.transition == ti
    &&& edge.source == m.states@[li]
    &&& edge.event == e.name
    &&& m.resolved_target(t.target@) == Some(edge.target@)
    &&& edge.target_index < m.states@.len()
    &&& index_of(m.leaf_names(), edge.target@) == edge.target_index
    &&& edge.guards@ == e.guards@ + t.guards@
    &&& edge.unless@ == e.unless@ + t.unless@
    &&& edge.before@ == e.before@ + t.before@
    &&& edge.after@ == t.after@ + e.after@
    &&& edge.around@ == e.around@ + t.around@
    &&& edge.payload == e.payload
}

/// `g` holds exactly the edges of `m`: one slot per event and leaf, filled
/// where a transition applies.
pub open spec fn graph_of(m: MachineDefinition, g: TransitionGraph) -> bool {
    &&& g.edges@.len() == m.events@.len()
    &&& forall|ei: int|
        0 <= ei < m.events@.len() ==> #[trigger] g.edges@[ei]@.len() == m.states@.len()
    &&& forall|ei: int, li: int|
        0 <= ei < m.events@.len() && 0 <= li < m.states@.len() ==> match #[trigger] g.edges@[ei]@[li] {
            Some(edge) => edge_for(m, ei, li, edge),
            None => selected_transition(m, ei, m.leaf_names()[li]) < 0,
        }
}

fn copy_payload(p: &Option<String>) -> (r: Option<String>)
    ensures
        r == *p,
{
    match p {
        Some(s) => Some(s.clone()),
        None => None,
    }
}

fn first_transition(e: &EventDefinition, c: &String) -> (r: Option<usize>)
    ensures
        match r {
            Some(j) => first_transition_from(*e, c@, 0) == j && j < e.transitions@.len(),
            None => first_transition_from(*e, c@, 0) == -1,
        },
{
    let mut j: usize = 0;
    while j < e.transitions.len()
        invariant
            j <= e.transitions@.len(),
            first_transition_from(*e, c@, 0) == first_transition_from(*e, c@, j as int),
        decreases e.transitions@.len() - j,
    {
        if position(&e.transitions[j].sources, c).is_some() {
            return Some(j);
        }
        j = j + 1;
    }
    None
}

impl MachineDefinition {
    fn select_transition(&self, ei: usize, leaf: &String) -> (r: Option<usize>)
        requires
            ei < self.events@.len(),
        ensures
            match r {
                Some(ti) => selected_transition(*self, ei as int, leaf@) == ti && ti
                    < self.events@[ei as int].transitions@.len(),
                None => selected_transition(*self, ei as int, leaf@) < 0,
            },
    {
        let e = &self.events[ei];
        let mut chain = vec![leaf.clone()];
        let ups = self.ancestors(leaf);
        let mut u: usize = 0;
        while u < ups.len()
            invariant
                u <= ups@.len(),
                names(chain@) == seq![leaf@] + names(ups@).subrange(0, u as int),
            decreases ups@.len() - u,
        {
            let ghost old_chain = chain@;
            chain.push(ups[u].clone());
            assert(names(chain@) =~= names(old_chain).push(ups@[u as int]@));
            assert(names(ups@).subrange(0, u + 1) == names(ups@).subrange(0, u as int).push(
                names(ups@)[u as int],
            ));
            assert(names(chain@) =~= seq![leaf@] + names(ups@).subrange(0, u + 1));
            u = u + 1;
        }
        assert(names(ups@).subrange(0, ups@.len() as int) == names(ups@));
        let ghost ch = names(chain@);
        assert(ch == specificity_chain(*self, leaf@));
        let mut k: usize = 0;
        while k < chain.len()
            invariant
                ei < self.events@.len(),
                e == self.events@[ei as int],
                ch == names(chain@),
                ch == specificity_chain(*self, leaf@),
                k <= chain@.len(),
                selected_level(*e, ch, 0) == selected_level(*e, ch, k as int),
            decreases chain@.len() - k,
        {
            match first_transition(e, &chain[k]) {
                Some(ti) => {
                    return Some(ti);
                },
                None => {},
            }
            k = k + 1;
        }
        None
    }

    fn build_edge(&self, ei: usize, li: usize, ti: usize) -> (r: Result<TransitionEdge, GraphError>)
        requires
            ei < self.events@.len(),
            li < self.states@.len(),
            selected_transition(*self, ei as int, self.leaf_names()[li as int]) == ti,
            ti < self.events@[ei as int].transitions@.len(),
        ensures
            match r {
                Ok(edge) => edge_for(*self, ei as int, li as int, edge),
                Err(g) => g == (GraphError { event: ei, state: li }) && match self.resolved_target(
                    self.events@[ei as int].transitions@[ti as int].target@,
                ) {
                    Some(n) => !self.leaf_names().contains(n),
                    None => true,
                },
            },
    {
        let e = &self.events[ei];
        let t = &e.transitions[ti];
        let target = match self.resolve_target(&t.target) {
            Some(n) => n,
            None => {
                return Err(GraphError { event: ei, state: li });
            },
        };
        let target_index = match position(&self.states, &target) {
            Some(i) => i,
            None => {
                return Err(GraphError { event: ei, state: li });
            },
        };
        Ok(
            TransitionEdge {
                source: self.states[li].clone(),
                event: e.name.clone(),
                target,
                target_index,
                transition: ti,
                guards: concat_names(&e.guards, &t.guards),
                unless: concat_names(&e.unless, &t.unless),
                before: concat_names(&e.before, &t.before),
                after: concat_names(&t.after, &e.after),
                around: concat_names(&e.around, &t.around),
                payload: copy_payload(&e.payload),
            },
        )
    }
}

proof fn lemma_events_problem_none(m: MachineDefinition, k: int, ei: int)
    requires
        0 <= k <= ei < m.events@.len(),
        events_problem_from(m, k) is None,
    ensures
        event_problem(m, ei) is None,
    decreases ei - k,
{
    if k < ei {
        lemma_events_problem_none(m, k + 1, ei);
    }
}

proof fn lemma_transitions_problem_none(m: MachineDefinition, ei: int, k: int, ti: int)
    requires
        0 <= ei < m.events@.len(),
        0 <= k <= ti < m.events@[ei].transitions@.len(),
        transitions_problem_from(m, ei, k) is None,
    ensures
        transition_problem(m, ei, ti) is None,
    decreases ti - k,
{
    if k < ti {
        lemma_transitions_problem_none(m, ei, k + 1, ti);
    }
}

/// In a valid definition every transition's target resolves to a declared leaf.
pub proof fn lemma_valid_target(m: MachineDefinition, ei: int, ti: int)
    requires
        valid_definition(m),
        0 <= ei < m.events@.len(),
        0 <= ti < m.events@[ei].transitions@.len(),
    ensures
        m.resolved_target(m.events@[ei].transitions@[ti].target@) matches Some(n)
            && m.leaf_names().contains(n),
{
    lemma_events_problem_none(m, 0, ei);
    lemma_transitions_problem_none(m, ei, 0, ti);
}

impl MachineDefinition {
    /// Flattens events, transitions and the hierarchy into one edge per
    /// (event, leaf) pair that some transition applies to. A definition that
    /// passes validation always yields a graph.
    pub fn build_transition_graph(&self) -> (r: Result<TransitionGraph, GraphError>)
        ensures
            match r {
                Ok(g) => graph_of(*self, g),
                Err(err) => err.event < self.events@.len() && err.state < self.states@.len()
                    && match self.resolved_target(
                    self.events@[err.event as int].transitions@[selected_transition(
                        *self,
                        err.event as int,
                        self.leaf_names()[err.state as int],
                    )].target@,
                ) {
                    Some(n) => !self.leaf_names().contains(n),
                    None => true,
                },
            },
            valid_definition(*self) ==> r is Ok,
    {
        let mut edges: Vec<Vec<Option<TransitionEdge>>> = Vec::new();
        let mut ei: usize = 0;
        while ei < self.events.len()
            invariant
                ei <= self.events@.len(),
                edges@.len() == ei,
                forall|i: int| 0 <= i < ei ==> #[trigger] edges@[i]@.len() == self.states@.len(),
                forall|i: int, li: int|
                    0 <= i < ei && 0 <= li < self.states@.len() ==> match #[trigger] edges@[i]@[li] {
                        Some(edge) => edge_for(*self, i, li, edge),
                        None => selected_transition(*self, i, self.leaf_names()[li]) < 0,
                    },
            decreases self.events@.len() - ei,
        {
            let mut row: Vec<Option<TransitionEdge>> = Vec::new();
            let mut li: usize = 0;
            while li < self.states.len()
                invariant
                    ei < self.events@.len(),
                    li <= self.states@.len(),
                    row@.len() == li,
                    forall|j: int| 0 <= j < li ==> match #[trigger] row@[j] {
                        Some(edge) => edge_for(*self, ei as int, j, edge),
                        None => selected_transition(*self, ei as int, self.leaf_names()[j]) < 0,
                    },
                decreases self.states@.len() - li,
            {
                assert(self.leaf_names()[li as int] == self.states@[li as int]@);
                match self.select_transition(ei, &self.states[li]) {
                    None => {
                        row.push(None);
                    },
                    Some(ti) => {
                        match self.build_edge(ei, li, ti) {
                            Ok(edge) => {
                                row.push(Some(edge));
                            },
                            Err(err) => {
                                proof {
                                    if valid_definition(*self) {
                                        lemma_valid_target(*self, ei as int, ti as int);
                                    }
                                }
                                return Err(err);
                            },
                        }
                    },
                }
                li = li + 1;
            }
            edges.push(row);
            ei = ei + 1;
        }
        Ok(TransitionGraph { edges })
    }
}

/// Law: a validated machine gets at most one edge per (leaf, event) pair,
/// and where some transition of the event names the leaf itself among its
/// sources, the edge comes from such a transition (the first declared one),
/// never from one inherited through a superstate.
pub proof fn lemma_leaf_specific_wins(
    m: MachineDefinition,
    g: TransitionGraph,
    ei: int,
    li: int,
    ti: int,
)
    requires
        graph_of(m, g),
        0 <= ei < m.events@.len(),
        0 <= li < m.states@.len(),
        0 <= ti < m.events@[ei].transitions@.len(),
        names(m.events@[ei].transitions@[ti].sources@).contains(m.leaf_names()[li]),
    ensures
        g.edges@[ei]@[li] matches Some(edge) && edge.transition <= ti && names(
            m.events@[ei].transitions@[edge.transition as int].sources@,
        ).contains(m.leaf_names()[li]),
{
    let e = m.events@[ei];
    let leaf = m.leaf_names()[li];
    lemma_first_transition_bound(e, leaf, 0, ti);
    let chain = specificity_chain(m, leaf);
    assert(chain[0] == leaf);
    assert(selected_level(e, chain, 0) == 0);
    lemma_first_transition_found(e, leaf, 0);
}

proof fn lemma_first_transition_bound(e: EventDefinition, c: Seq<char>, j: int, ti: int)
    requires
        0 <= j <= ti < e.transitions@.len(),
        names(e.transitions@[ti].sources@).contains(c),
    ensures
        0 <= first_transition_from(e, c, j) <= ti,
    decreases ti - j,
{
    if j < ti && !names(e.transitions@[j].sources@).contains(c) {
        lemma_first_transition_bound(e, c, j + 1, ti);
    }
}

proof fn lemma_first_transition_found(e: EventDefinition, c: Seq<char>, j: int)
    requires
        0 <= j,
        first_transition_from(e, c, j) >= 0,
    ensures
        first_transition_from(e, c, j) < e.transitions@.len(),
        names(e.transitions@[first_transition_from(e, c, j)].sources@).contains(c),
    decreases e.transitions@.len() - j,
{
    if j < e.transitions@.len() && !names(e.transitions@[j].sources@).contains(c) {
        lemma_first_transition_found(e, c, j + 1);
    }
}

impl TransitionGraph {
    /// A graph without events.
    pub fn new() -> (r: Self)
        ensures
            r.edges@.len() == 0,
    {
        TransitionGraph { edges: Vec::new() }
    }

    /// The events, by position, that have an edge leaving leaf `leaf`.
    pub fn outgoing(&self, leaf: usize) -> (r: Vec<usize>)
        requires
            forall|ei: int| 0 <= ei < self.edges@.len() ==> leaf < #[trigger] self.edges@[ei]@.len(),
        ensures
            forall|k: int| 0 <= k < r@.len() ==> r@[k] < self.edges@.len(),
            forall|ei: int|
                0 <= ei < self.edges@.len() ==> (r@.contains(ei as usize) <==> #[trigger] self.edges@[ei]@[leaf as int] is Some),
            forall|k: int, j: int| 0 <= k < j < r@.len() ==> r@[k] < r@[j],
    {
        let mut r: Vec<usize> = Vec::new();
        let mut ei: usize = 0;
        while ei < self.edges.len()
            invariant
                ei <= self.edges@.len(),
                forall|ei2: int| 0 <= ei2 < self.edges@.len() ==> leaf < #[trigger] self.edges@[ei2]@.len(),
                forall|k: int| 0 <= k < r@.len() ==> r@[k] < ei,
                forall|e2: int|
                    0 <= e2 < ei ==> (r@.contains(e2 as usize) <==> #[trigger] self.edges@[e2]@[leaf as int] is Some),
                forall|k: int, j: int| 0 <= k < j < r@.len() ==> r@[k] < r@[j],
            decreases self.edges@.len() - ei,
        {
            let ghost prev = r@;
            if self.edges[ei][leaf].is_some() {
                r.push(ei);
                assert(r@[r@.len() - 1] == ei);
            }
            assert forall|e2: int| 0 <= e2 <= ei implies (r@.contains(e2 as usize) <==> #[trigger] self.edges@[e2]@[leaf as int] is Some) by {
                if e2 < ei {
                    if prev.contains(e2 as usize) {
                        let k = choose|k: int| 0 <= k < prev.len() && prev[k] == e2 as usize;
                        assert(r@[k] == e2 as usize);
                    }
                    if r@.contains(e2 as usize) {
                        let k = choose|k: int| 0 <= k < r@.len() && r@[k] == e2 as usize;
                        assert(k < prev.len());
                        assert(prev[k] == e2 as usize);
                    }
                } else {
                    if r@.contains(e2 as usize) {
                        let k = choose|k: int| 0 <= k < r@.len() && r@[k] == e2 as usize;
                        assert(k == prev.len());
                    }
                    if self.edges@[e2]@[leaf as int] is Some {
                        assert(r@[r@.len() - 1] == ei);
                    }
                }
            }
            ei = ei + 1;
        }
        r
    }
}

} // verus!