//! The hierarchy resolver: superstate expansion, target resolution and
//! ancestor chains, all derived from a machine definition.
use vstd::prelude::*;
use crate::definition::{
    MachineDefinition, SuperstateDefinition, names, index_of, lemma_index_of, copy_names,
};

verus! {

impl MachineDefinition {
    pub open spec fn leaf_names(self) -> Seq<Seq<char>> {
        names(self.states@)
    }

    pub open spec fn superstate_names(self) -> Seq<Seq<char>> {
        self.superstates@.map_values(|s: SuperstateDefinition| s.name@)
    }

    pub open spec fn is_superstate_name(self, n: Seq<char>) -> bool {
        self.superstate_names().contains(n)
    }

    /// The first superstate declared under the name `n`.
    pub open spec fn superstate_named(self, n: Seq<char>) -> SuperstateDefinition {
        self.superstates@[index_of(self.superstate_names(), n)]
    }

    /// The leaves a state reference stands for: a superstate's descendants,
    /// a declared leaf alone, or nothing for an unknown name.
    pub open spec fn expansion(self, n: Seq<char>) -> Seq<Seq<char>> {
        if self.is_superstate_name(n) {
            names(self.superstate_named(n).descendants@)
        } else if self.leaf_names().contains(n) {
            seq![n]
        } else {
            Seq::empty()
        }
    }

    /// The child entered when a superstate is targeted: the declared initial
    /// child, else the first descendant.
    pub open spec fn initial_child_of(self, n: Seq<char>) -> Option<Seq<char>> {
        if self.is_superstate_name(n) {
            let s = self.superstate_named(n);
            match s.initial {
                Some(i) => Some(i@),
                None => if s.descendants@.len() > 0 {
                    Some(s.descendants@[0]@)
                } else {
                    None
                },
            }
        } else {
            None
        }
    }

    /// A target reference resolved to a leaf name; a leaf stays as it is.
    pub open spec fn resolved_target(self, n: Seq<char>) -> Option<Seq<char>> {
        if self.is_superstate_name(n) {
            self.initial_child_of(n)
        } else {
            Some(n)
        }
    }

    /// The superstates among the first `k` that hold `leaf`, in list order.
    pub open spec fn ancestors_upto(self, leaf: Seq<char>, k: int) -> Seq<Seq<char>>
        decreases k,
    {
        if k <= 0 {
            Seq::empty()
        } else {
            self.ancestors_upto(leaf, k - 1) + (if names(
                self.superstates@[k - 1].descendants@,
            ).contains(leaf) {
                seq![self.superstates@[k - 1].name@]
            } else {
                Seq::empty()
            })
        }
    }

    /// The ancestor chain of a leaf, immediate parent first.
    pub open spec fn ancestor_chain(self, leaf: Seq<char>) -> Seq<Seq<char>> {
        self.ancestors_upto(leaf, self.superstates@.len() as int)
    }

    /// The position of the first superstate called `n`.
    pub fn superstate_index(&self, n: &String) -> (r: Option<usize>)
        ensures
            match r {
                Some(i) => i < self.superstates@.len() && index_of(self.superstate_names(), n@)
                    == i && self.is_superstate_name(n@),
                None => !self.is_superstate_name(n@),
            },
    {
        let ghost ns = self.superstate_names();
        let mut i: usize = 0;
        while i < self.superstates.len()
            invariant
                i <= self.superstates@.len(),
                ns == self.superstate_names(),
                forall|j: int| 0 <= j < i ==> ns[j] != n@,
            decreases self.superstates@.len() - i,
        {
            if self.superstates[i].name == *n {
                proof {
                    lemma_index_of(ns, n@, i as int);
                }
                assert(ns[i as int] == n@);
                return Some(i);
            }
            i = i + 1;
        }
        assert forall|j: int| 0 <= j < ns.len() implies ns[j] != n@ by {}
        None
    }

    /// Whether `n` names a superstate.
    pub fn is_superstate(&self, n: &String) -> (r: bool)
        ensures
            r == self.is_superstate_name(n@),
    {
        self.superstate_index(n).is_some()
    }

    pub(crate) fn is_leaf(&self, n: &String) -> (r: bool)
        ensures
            r == self.leaf_names().contains(n@),
    {
        let mut i: usize = 0;
        while i < self.states.len()
            invariant
                i <= self.states@.len(),
                forall|j: int| 0 <= j < i ==> self.leaf_names()[j] != n@,
            decreases self.states@.len() - i,
        {
            if self.states[i] == *n {
                assert(self.leaf_names()[i as int] == n@);
                return true;
            }
            i = i + 1;
        }
        false
    }

    /// Expands a state reference to the leaves it stands for; an empty
    /// result means the name is unknown.
    pub fn expand_state(&self, n: &String) -> (r: Vec<String>)
        ensures
            names(r@) == self.expansion(n@),
    {
        match self.superstate_index(n) {
            Some(i) => copy_names(&self.superstates[i].descendants),
            None => {
                if self.is_leaf(n) {
                    let r = vec![n.clone()];
                    assert(names(r@) =~= seq![n@]);
                    r
                } else {
                    let r: Vec<String> = Vec::new();
                    assert(names(r@) =~= Seq::<Seq<char>>::empty());
                    r
                }
            },
        }
    }

    /// The initial child of a superstate, or `None` for a name that is no
    /// superstate or a superstate without children.
    pub fn initial_child(&self, n: &String) -> (r: Option<String>)
        ensures
            match r {
                Some(c) => self.initial_child_of(n@) == Some(c@),
                None => self.initial_child_of(n@) is None,
            },
    {
        match self.superstate_index(n) {
            Some(i) => {
                let s = &self.superstates[i];
                match &s.initial {
                    Some(c) => Some(c.clone()),
                    None => if s.descendants.len() > 0 {
                        Some(s.descendants[0].clone())
                    } else {
                        None
                    },
                }
            },
            None => None,
        }
    }

    /// Resolves a target reference to the leaf that is entered.
    pub fn resolve_target(&self, n: &String) -> (r: Option<String>)
        ensures
            match r {
                Some(c) => self.resolved_target(n@) == Some(c@),
                None => self.resolved_target(n@) is None,
            },
    {
        if self.is_superstate(n) {
            self.initial_child(n)
        } else {
            Some(n.clone())
        }
    }

    /// The ancestor chain of a leaf, immediate parent first.
    pub fn ancestors(&self, leaf: &String) -> (r: Vec<String>)
        ensures
            names(r@) == self.ancestor_chain(leaf@),
    {
        let mut r: Vec<String> = Vec::new();
        let mut k: usize = 0;
        while k < self.superstates.len()
            invariant
                k <= self.superstates@.len(),
                names(r@) == self.ancestors_upto(leaf@, k as int),
            decreases self.superstates@.len() - k,
        {
            let s = &self.superstates[k];
            let mut j: usize = 0;
            let mut found = false;
            while j < s.descendants.len() && !found
                invariant
                    s == self.superstates@[k as int],
                    j <= s.descendants@.len(),
                    found ==> names(s.descendants@).contains(leaf@),
                    !found ==> forall|m: int| 0 <= m < j ==> names(s.descendants@)[m] != leaf@,
                decreases s.descendants@.len() - j,
            {
                if s.descendants[j] == *leaf {
                    assert(names(s.descendants@)[j as int] == leaf@);
                    found = true;
                }
                j = j + 1;
            }
            let ghost before = r@;
            if found {
                r.push(s.name.clone());
                assert(names(r@) =~= names(before) + seq![s.name@]);
            } else {
                assert(names(r@) =~= names(before) + Seq::<Seq<char>>::empty());
            }
            k = k + 1;
        }
        r
    }
}

} // verus!
