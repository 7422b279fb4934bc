//! Lexical scopes: which names are bound where.
//!
//! Scopes form a tree under the top level. They are kept in one table and named by their
//! position in it, so that a scope and the scopes below it can be used in turn.
use crate::config::same_text;
use crate::model::texts;
use vstd::prelude::*;

verus! {

/// A scope: the names bound in it, and the scope around it. A scope without a parent
/// stands directly under the top level.
pub struct Scope {
    pub parent: Option<usize>,
    pub bindings: Vec<String>,
}

/// The top-level names and all scopes below them.
pub struct BindingEnv {
    pub top_level: Vec<String>,
    pub scopes: Vec<Scope>,
}

/// A scope as the contracts see it.
pub struct ScopeModel {
    pub parent: Option<int>,
    pub bindings: Seq<Seq<char>>,
}

/// The top-level names and all scopes as the contracts see them.
pub struct Bindings {
    pub top_level: Seq<Seq<char>>,
    pub scopes: Seq<ScopeModel>,
}

impl View for Scope {
    type V = ScopeModel;

    open spec fn view(&self) -> ScopeModel {
        ScopeModel {
            parent: match self.parent {
                Some(p) => Some(p as int),
                None => None,
            },
            bindings: texts(self.bindings@),
        }
    }
}

impl View for BindingEnv {
    type V = Bindings;

    open spec fn view(&self) -> Bindings {
        Bindings {
            top_level: texts(self.top_level@),
            scopes: self.scopes@.map_values(|s: Scope| s@),
        }
    }
}

impl Bindings {
    /// Every scope was made after the scope around it.
    pub open spec fn well_formed(self) -> bool {
        forall|i: int|
            0 <= i < self.scopes.len() ==> ((#[trigger] self.scopes[i]).parent matches Some(p)
                ==> 0 <= p < i)
    }

    /// `symbol` is bound in `scope` or in a scope around it.
    pub open spec fn bound_in(self, scope: int, symbol: Seq<char>) -> bool
        decreases scope,
    {
        if scope < 0 || scope >= self.scopes.len() {
            false
        } else if self.scopes[scope].bindings.contains(symbol) {
            true
        } else {
            match self.scopes[scope].parent {
                Some(p) => if 0 <= p < scope {
                    self.bound_in(p, symbol)
                } else {
                    false
                },
                None => false,
            }
        }
    }

    /// `symbol` can be used in `scope`: it is bound at the top level, in `scope`, or in
    /// a scope around it.
    pub open spec fn contains(self, scope: int, symbol: Seq<char>) -> bool {
        self.top_level.contains(symbol) || self.bound_in(scope, symbol)
    }

    /// The bindings with a new empty scope under `parent`; the new scope is the last.
    pub open spec fn with_scope(self, parent: Option<int>) -> Bindings {
        Bindings {
            scopes: self.scopes.push(ScopeModel { parent, bindings: Seq::empty() }),
            ..self
        }
    }

    /// The bindings with `symbol` bound in `scope`.
    pub open spec fn with_binding(self, scope: int, symbol: Seq<char>) -> Bindings {
        if 0 <= scope < self.scopes.len() {
            Bindings {
                scopes: self.scopes.update(
                    scope,
                    ScopeModel {
                        bindings: self.scopes[scope].bindings.push(symbol),
                        ..self.scopes[scope]
                    },
                ),
                ..self
            }
        } else {
            self
        }
    }

    /// The bindings with `symbol` bound at the top level.
    pub open spec fn with_top_level(self, symbol: Seq<char>) -> Bindings {
        Bindings { top_level: self.top_level.push(symbol), ..self }
    }
}

impl Scope {
    /// Binds `symbol` in this scope.
    pub fn bind(&mut self, symbol: String)
        ensures
            final(self)@ == (ScopeModel {
                bindings: old(self)@.bindings.push(symbol@),
                ..old(self)@
            }),
    {
        self.bindings.push(symbol);
        assert(texts(self.bindings@) =~= texts(old(self).bindings@).push(symbol@));
    }
}

/// Whether `names` holds `symbol`.
fn has_name(names: &Vec<String>, symbol: &str) -> (found: bool)
    ensures
        found == texts(names@).contains(symbol@),
{
    let mut i: usize = 0;
    while i < names.len()
        invariant
            i <= names.len(),
            forall|j: int| 0 <= j < i ==> texts(names@)[j] != symbol@,
        decreases names.len() - i,
    {
        if same_text(names[i].as_str(), symbol) {
            assert(texts(names@)[i as int] == symbol@);
            return true;
        }
        i += 1;
    }
    false
}

impl BindingEnv {
    /// Bindings with the given top-level names and no scope.
    pub fn new(top_level: Vec<String>) -> (env: BindingEnv)
        ensures
            env@.top_level == texts(top_level@),
            env@.scopes.len() == 0,
            env@.well_formed(),
    {
        BindingEnv { top_level, scopes: Vec::new() }
    }

    /// A new scope directly under the top level.
    pub fn scope(&mut self) -> (id: usize)
        requires
            old(self)@.well_formed(),
        ensures
            final(self)@ == old(self)@.with_scope(None),
            final(self)@.well_formed(),
            id == old(self)@.scopes.len(),
    {
        let fresh = Scope { parent: None, bindings: Vec::new() };
        assert(fresh@.bindings =~= Seq::<Seq<char>>::empty());
        self.scopes.push(fresh);
        proof {
            assert(self@.scopes =~= old(self)@.with_scope(None).scopes);
        }
        self.scopes.len() - 1
    }

    /// A new scope inside `parent`.
    pub fn new_scope(&mut self, parent: usize) -> (id: usize)
        requires
            old(self)@.well_formed(),
            parent < old(self)@.scopes.len(),
        ensures
            final(self)@ == old(self)@.with_scope(Some(parent as int)),
            final(self)@.well_formed(),
            id == old(self)@.scopes.len(),
    {
        let fresh = Scope { parent: Some(parent), bindings: Vec::new() };
        assert(fresh@.bindings =~= Seq::<Seq<char>>::empty());
        self.scopes.push(fresh);
        proof {
            assert(self@.scopes =~= old(self)@.with_scope(Some(parent as int)).scopes);
        }
        self.scopes.len() - 1
    }

    /// Whether `symbol` can be used in `scope`.
    pub fn contains(&self, scope: usize, symbol: &str) -> (found: bool)
        requires
            self@.well_formed(),
        ensures
            found == self@.contains(scope as int, symbol@),
    {
        if has_name(&self.top_level, symbol) {
            return true;
        }
        if scope >= self.scopes.len() {
            return false;
        }
        let mut current: usize = scope;
        loop
            invariant
                self@.well_formed(),
                current < self.scopes.len(),
                !texts(self.top_level@).contains(symbol@),
                self@.bound_in(current as int, symbol@) == self@.bound_in(scope as int, symbol@),
            decreases current,
        {
            assert(self@.scopes[current as int] == self.scopes[current as int]@);
            if has_name(&self.scopes[current].bindings, symbol) {
                return true;
            }
            match self.scopes[current].parent {
                Some(p) => {
                    current = p;
                },
                None => {
                    return false;
                },
            }
        }
    }

    /// Binds `symbol` in `scope`.
    pub fn bind(&mut self, scope: usize, symbol: String)
        requires
            old(self)@.well_formed(),
            scope < old(self)@.scopes.len(),
        ensures
            final(self)@ == old(self)@.with_binding(scope as int, symbol@),
            final(self)@.well_formed(),
            final(self)@.scopes.len() == old(self)@.scopes.len(),
    {
        let ghost before = self@;
        let mut taken = self.scopes.remove(scope);
        taken.bind(symbol);
        self.scopes.insert(scope, taken);
        assert(self@.scopes =~= before.with_binding(scope as int, symbol@).scopes);
    }

    /// Binds `symbol` at the top level.
    pub fn bind_top_level(&mut self, symbol: String)
        ensures
            final(self)@ == old(self)@.with_top_level(symbol@),
            old(self)@.well_formed() ==> final(self)@.well_formed(),
    {
        self.top_level.push(symbol);
        assert(self@.top_level =~= old(self)@.with_top_level(symbol@).top_level);
    }
}

} // verus!
