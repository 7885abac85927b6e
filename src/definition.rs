//! The machine definition model: states, superstates, events and transitions,
//! all referring to one another by name.
use vstd::prelude::*;

verus! {

/// One transition of an event: the states it leaves from, the state it
/// enters, and the guards and callbacks that apply to it alone.
#[derive(Debug, Clone)]
pub struct TransitionDefinition {
    pub sources: Vec<String>,
    pub target: String,
    pub guards: Vec<String>,
    pub unless: Vec<String>,
    pub before: Vec<String>,
    pub after: Vec<String>,
    pub around: Vec<String>,
}

/// A named trigger with its event-level guards and callbacks, an optional
/// payload type name, and its transitions.
#[derive(Debug, Clone)]
pub struct EventDefinition {
    pub name: String,
    pub guards: Vec<String>,
    pub unless: Vec<String>,
    pub before: Vec<String>,
    pub after: Vec<String>,
    pub around: Vec<String>,
    pub payload: Option<String>,
    pub transitions: Vec<TransitionDefinition>,
}

/// A named group of leaf states. `descendants` lists every leaf below it,
/// nested ones included; `initial` is the child entered when a transition
/// targets the superstate (the first descendant when absent).
#[derive(Debug, Clone)]
pub struct SuperstateDefinition {
    pub name: String,
    pub descendants: Vec<String>,
    pub initial: Option<String>,
}

/// A whole machine. Superstates are listed innermost first, so that the
/// superstates holding a leaf, in list order, form its ancestor chain from
/// the immediate parent outwards. `storage` names the states (leaf or
/// superstate) that own a storage slot; `action` is the optional
/// machine-wide hook run after each state change.
#[derive(Debug, Clone)]
pub struct MachineDefinition {
    pub name: String,
    pub states: Vec<String>,
    pub initial: String,
    pub async_mode: bool,
    pub superstates: Vec<SuperstateDefinition>,
    pub events: Vec<EventDefinition>,
    pub storage: Vec<String>,
    pub action: Option<String>,
}

/// The views of a list of names.
pub open spec fn names(v: Seq<String>) -> Seq<Seq<char>> {
    v.map_values(|s: String| s@)
}

/// `i` is the first position of `n` in `s`.
pub open spec fn first_match(s: Seq<Seq<char>>, n: Seq<char>, i: int) -> bool {
    &&& 0 <= i < s.len()
    &&& s[i] == n
    &&& forall|j: int| 0 <= j < i ==> s[j] != n
}

/// The first position of `n` in `s`, or -1.
pub open spec fn index_of(s: Seq<Seq<char>>, n: Seq<char>) -> int {
    if exists|i: int| first_match(s, n, i) {
        choose|i: int| first_match(s, n, i)
    } else {
        -1
    }
}

pub proof fn lemma_index_of(s: Seq<Seq<char>>, n: Seq<char>, i: int)
    requires
        0 <= i <= s.len(),
        forall|j: int| 0 <= j < i ==> s[j] != n,
        i == s.len() || s[i] == n,
    ensures
        index_of(s, n) == (if i == s.len() { -1 } else { i }),
{
    if i < s.len() {
        assert(first_match(s, n, i));
        let k = choose|k: int| first_match(s, n, k);
        if k < i {
        } else if k > i {
            assert(s[i] != n);
        }
    } else {
        assert forall|k: int| !first_match(s, n, k) by {
            if 0 <= k < s.len() {
                assert(s[k] != n);
            }
        }
    }
}

/// Finds the first name in `v` equal to `n`.
pub fn position(v: &Vec<String>, n: &String) -> (r: Option<usize>)
    ensures
        match r {
            Some(i) => i < v@.len() && index_of(names(v@), n@) == i,
            None => index_of(names(v@), n@) == -1 && !names(v@).contains(n@),
        },
{
    let mut i: usize = 0;
    while i < v.len()
        invariant
            i <= v@.len(),
            forall|j: int| 0 <= j < i ==> names(v@)[j] != n@,
        decreases v@.len() - i,
    {
        if v[i] == *n {
            proof {
                lemma_index_of(names(v@), n@, i as int);
            }
            return Some(i);
        }
        i = i + 1;
    }
    proof {
        lemma_index_of(names(v@), n@, i as int);
    }
    None
}

/// A copy of a list of names.
pub fn copy_names(v: &Vec<String>) -> (r: Vec<String>)
    ensures
        r@ == v@,
{
    let mut r: Vec<String> = Vec::new();
    let mut i: usize = 0;
    while i < v.len()
        invariant
            i <= v@.len(),
            r@ == v@.subrange(0, i as int),
        decreases v@.len() - i,
    {
        r.push(v[i].clone());
        assert(v@.subrange(0, i + 1) == v@.subrange(0, i as int).push(v@[i as int]));
        i = i + 1;
    }
    assert(v@.subrange(0, v@.len() as int) == v@);
    r
}

/// The names of `a` followed by those of `b`.
pub fn concat_names(a: &Vec<String>, b: &Vec<String>) -> (r: Vec<String>)
    ensures
        r@ == a@ + b@,
{
    let mut r = copy_names(a);
    let mut i: usize = 0;
    while i < b.len()
        invariant
            i <= b@.len(),
            r@ == a@ + b@.subrange(0, i as int),
        decreases b@.len() - i,
    {
        r.push(b[i].clone());
        assert(b@.subrange(0, i + 1) == b@.subrange(0, i as int).push(b@[i as int]));
        i = i + 1;
    }
    assert(b@.subrange(0, b@.len() as int) == b@);
    r
}

} // verus!
