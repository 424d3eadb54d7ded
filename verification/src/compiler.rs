//! The specification compiler.
//!
//! A caller describes a peripheral declaratively: its states, the initial
//! state, the named transition edges (with their extra parameters and
//! whether they carry a transition-time effect), and the extra methods
//! available in a single state. Expanding that description into a typestate
//! API only makes sense when the description is coherent, so this module
//! validates it once — rejecting references to undeclared states and
//! ambiguous transition declarations — and hands back a [`TransitionTable`]
//! that enumerates the legal edges and answers queries about them. A
//! `(method, source-state)` pair absent from the table resolves to nothing,
//! mirroring the build-time absence of the corresponding generated method.
use vstd::prelude::*;

verus! {

/// One declared transition edge: a named method from one state to another,
/// with the names of its extra parameters and whether a transition-time
/// effect was declared for it.
pub struct TransitionDecl {
    pub method: String,
    pub from: String,
    pub to: String,
    pub params: Vec<String>,
    pub has_effect: bool,
}

/// The mathematical shape of a transition declaration: every name as a
/// sequence of characters.
pub struct TransitionDeclView {
    pub method: Seq<char>,
    pub from: Seq<char>,
    pub to: Seq<char>,
    pub params: Seq<Seq<char>>,
    pub has_effect: bool,
}

impl View for TransitionDecl {
    type V = TransitionDeclView;

    open spec fn view(&self) -> TransitionDeclView {
        TransitionDeclView {
            method: self.method@,
            from: self.from@,
            to: self.to@,
            params: self.params.deep_view(),
            has_effect: self.has_effect,
        }
    }
}

impl DeepView for TransitionDecl {
    type V = TransitionDeclView;

    open spec fn deep_view(&self) -> TransitionDeclView {
        self.view()
    }
}

/// One declared per-state method: available only while the peripheral is
/// in `state`.
pub struct StateMethodDecl {
    pub state: String,
    pub method: String,
    pub params: Vec<String>,
}

/// The mathematical shape of a per-state method declaration.
pub struct StateMethodDeclView {
    pub state: Seq<char>,
    pub method: Seq<char>,
    pub params: Seq<Seq<char>>,
}

impl View for StateMethodDecl {
    type V = StateMethodDeclView;

    open spec fn view(&self) -> StateMethodDeclView {
        StateMethodDeclView {
            state: self.state@,
            method: self.method@,
            params: self.params.deep_view(),
        }
    }
}

impl DeepView for StateMethodDecl {
    type V = StateMethodDeclView;

    open spec fn deep_view(&self) -> StateMethodDeclView {
        self.view()
    }
}

/// A complete declarative peripheral specification, as handed in by a
/// caller: the input of the compiler.
pub struct PeripheralDecl {
    pub name: String,
    pub fields: Vec<String>,
    pub states: Vec<String>,
    pub initial: String,
    pub transitions: Vec<TransitionDecl>,
    pub methods: Vec<StateMethodDecl>,
}

/// The mathematical shape of a peripheral specification.
pub struct PeripheralDeclView {
    pub name: Seq<char>,
    pub fields: Seq<Seq<char>>,
    pub states: Seq<Seq<char>>,
    pub initial: Seq<char>,
    pub transitions: Seq<TransitionDeclView>,
    pub methods: Seq<StateMethodDeclView>,
}

impl View for PeripheralDecl {
    type V = PeripheralDeclView;

    open spec fn view(&self) -> PeripheralDeclView {
        PeripheralDeclView {
            name: self.name@,
            fields: self.fields.deep_view(),
            states: self.states.deep_view(),
            initial: self.initial@,
            transitions: self.transitions.deep_view(),
            methods: self.methods.deep_view(),
        }
    }
}

/// The first transition in `ts` whose method name and source state are
/// `method` and `from`, if any: the declaration a generated call resolves
/// to.
pub open spec fn lookup_edge(
    ts: Seq<TransitionDeclView>,
    method: Seq<char>,
    from: Seq<char>,
) -> Option<TransitionDeclView>
    decreases ts.len(),
{
    if ts.len() == 0 {
        None
    } else if ts[0].method == method && ts[0].from == from {
        Some(ts[0])
    } else {
        lookup_edge(ts.skip(1), method, from)
    }
}

impl PeripheralDeclView {
    /// The state name `s` appears in the declared state list.
    pub open spec fn declares(self, s: Seq<char>) -> bool {
        self.states.contains(s)
    }

    /// Some transition is declared from `from` to `to`, under any method
    /// name: the capability fact "this edge is legal".
    pub open spec fn has_edge(self, from: Seq<char>, to: Seq<char>) -> bool {
        exists|i: int|
            0 <= i < self.transitions.len() && (#[trigger] self.transitions[i]).from == from
                && self.transitions[i].to == to
    }

    /// The transition declaration a call of `method` on a wrapper in state
    /// `from` resolves to, if any.
    pub open spec fn edge_for(self, method: Seq<char>, from: Seq<char>) -> Option<
        TransitionDeclView,
    > {
        lookup_edge(self.transitions, method, from)
    }

    /// A per-state method named `method` is declared for state `state`.
    pub open spec fn has_state_method(self, state: Seq<char>, method: Seq<char>) -> bool {
        exists|i: int|
            0 <= i < self.methods.len() && (#[trigger] self.methods[i]).state == state
                && self.methods[i].method == method
    }

    /// Every state the specification refers to — the initial state, both
    /// ends of every transition, and the owning state of every per-state
    /// method — is a declared state.
    pub open spec fn refs_declared(self) -> bool {
        &&& self.declares(self.initial)
        &&& forall|i: int|
            0 <= i < self.transitions.len() ==> self.declares(
                (#[trigger] self.transitions[i]).from,
            ) && self.declares(self.transitions[i].to)
        &&& forall|i: int|
            0 <= i < self.methods.len() ==> self.declares((#[trigger] self.methods[i]).state)
    }

    /// No two transitions share a `(method name, source state)` pair: each
    /// generated method name is attached to a given state at most once.
    pub open spec fn no_duplicate_edge(self) -> bool {
        forall|i: int, j: int|
            0 <= i < j < self.transitions.len() ==> !((#[trigger] self.transitions[i]).method
                == (#[trigger] self.transitions[j]).method && self.transitions[i].from
                == self.transitions[j].from)
    }

    /// A specification is well-formed exactly when expansion can succeed:
    /// all state references resolve and no transition is ambiguous.
    pub open spec fn well_formed(self) -> bool {
        self.refs_declared() && self.no_duplicate_edge()
    }
}

/// Why a specification was rejected at expansion time.
#[derive(Clone, Copy, PartialEq, Eq, Structural, Debug)]
pub enum CompileError {
    /// The specification refers to a state name it never declares.
    UndeclaredState,
    /// Two transitions share the same method name and source state.
    DuplicateTransition,
}

/// A validated specification: the single product of a successful
/// compilation. It enumerates the declared states and legal edges, and is
/// the runtime gate a generated API consults — a query for anything the
/// specification never declared comes back negative.
pub struct TransitionTable {
    decl: PeripheralDecl,
}

impl View for TransitionTable {
    type V = PeripheralDeclView;

    closed spec fn view(&self) -> PeripheralDeclView {
        self.decl@
    }
}

impl PeripheralDecl {
    /// Expands — validates — the specification. Succeeds exactly on
    /// well-formed specifications and reports a reference to an undeclared
    /// state in preference to a duplicate transition, so a malformed
    /// specification is rejected here, never half-expanded.
    pub fn compile(self) -> (r: Result<TransitionTable, CompileError>)
        ensures
            r is Ok <==> self@.well_formed(),
            (r matches Ok(t) ==> t@ == self@),
            (r matches Err(e) ==> ((e == CompileError::UndeclaredState) <==> !self@.refs_declared())),
            (r matches Err(e) ==> ((e == CompileError::DuplicateTransition) <==> (
            self@.refs_declared() && !self@.no_duplicate_edge()))),
    {
        if !contains_name(&self.states, &self.initial) {
            return Err(CompileError::UndeclaredState);
        }
        let nt = self.transitions.len();
        let mut i: usize = 0;
        while i < nt
            invariant
                nt == self.transitions.len(),
                i <= nt,
                forall|j: int|
                    0 <= j < i ==> self@.declares((#[trigger] self@.transitions[j]).from)
                        && self@.declares(self@.transitions[j].to),
            decreases nt - i,
        {
            let t = &self.transitions[i];
            if !contains_name(&self.states, &t.from) {
                proof {
                    assert(self@.transitions[i as int].from == t.from@);
                    assert(!self@.refs_declared());
                }
                return Err(CompileError::UndeclaredState);
            }
            if !contains_name(&self.states, &t.to) {
                proof {
                    assert(self@.transitions[i as int].to == t.to@);
                    assert(!self@.refs_declared());
                }
                return Err(CompileError::UndeclaredState);
            }
            i += 1;
        }
        let nm = self.methods.len();
        let mut k: usize = 0;
        while k < nm
            invariant
                nm == self.methods.len(),
                k <= nm,
                forall|j: int|
                    0 <= j < k ==> self@.declares((#[trigger] self@.methods[j]).state),
            decreases nm - k,
        {
            if !contains_name(&self.states, &self.methods[k].state) {
                proof {
                    assert(self@.methods[k as int].state == self.methods@[k as int].state@);
                    assert(!self@.refs_declared());
                }
                return Err(CompileError::UndeclaredState);
            }
            k += 1;
        }
        assert(self@.refs_declared());
        let mut a: usize = 0;
        while a < nt
            invariant
                nt == self.transitions.len(),
                a <= nt,
                self@.refs_declared(),
                forall|x: int, y: int|
                    0 <= x < y < nt && x < a ==> !((#[trigger] self@.transitions[x]).method
                        == (#[trigger] self@.transitions[y]).method && self@.transitions[x].from
                        == self@.transitions[y].from),
            decreases nt - a,
        {
            let mut b: usize = a + 1;
            while b < nt
                invariant
                    nt == self.transitions.len(),
                    a < nt,
                    a < b <= nt,
                    self@.refs_declared(),
                    forall|y: int|
                        a < y < b ==> !(self@.transitions[a as int].method
                            == (#[trigger] self@.transitions[y]).method
                            && self@.transitions[a as int].from == self@.transitions[y].from),
                decreases nt - b,
            {
                if self.transitions[a].method == self.transitions[b].method
                    && self.transitions[a].from == self.transitions[b].from {
                    proof {
                        let bi = b as int;
                        assert(self@.transitions[a as int].method == self@.transitions[bi].method
                            && self@.transitions[a as int].from == self@.transitions[bi].from);
                        assert(!self@.no_duplicate_edge());
                    }
                    return Err(CompileError::DuplicateTransition);
                }
                b += 1;
            }
            a += 1;
        }
        assert(self@.no_duplicate_edge());
        Ok(TransitionTable { decl: self })
    }
}

impl TransitionTable {
    /// The declared initial state: the state every generated constructor
    /// tags its result with.
    pub fn initial_state(&self) -> (r: &String)
        ensures
            r@ == self@.initial,
    {
        &self.decl.initial
    }

    /// Whether `name` is a declared state: the capability fact "the
    /// peripheral may carry this state".
    pub fn is_state(&self, name: &String) -> (r: bool)
        ensures
            r == self@.declares(name@),
    {
        contains_name(&self.decl.states, name)
    }

    /// Whether some transition from `from` to `to` is declared: the
    /// capability fact "this edge is legal". A pair that was never
    /// declared — including an undeclared self-loop — is refused.
    pub fn edge_allowed(&self, from: &String, to: &String) -> (r: bool)
        ensures
            r == self@.has_edge(from@, to@),
    {
        let n = self.decl.transitions.len();
        let mut i: usize = 0;
        while i < n
            invariant
                n == self@.transitions.len(),
                i <= n,
                forall|j: int|
                    0 <= j < i ==> !((#[trigger] self@.transitions[j]).from == from@
                        && self@.transitions[j].to == to@),
            decreases n - i,
        {
            let t = &self.decl.transitions[i];
            if t.from == *from && t.to == *to {
                proof {
                    assert(self@.transitions[i as int].from == from@ && self@.transitions[
                        i as int
                    ].to == to@);
                }
                return true;
            }
            i += 1;
        }
        false
    }

    /// Resolves a `(method, source state)` pair to the declared transition,
    /// handing back its destination state. A pair the specification never
    /// declared resolves to nothing — the dynamic mirror of the generated
    /// method not existing at all.
    pub fn resolve(&self, method: &String, from: &String) -> (r: Option<&String>)
        ensures
            (match r {
                Some(to) => self@.edge_for(method@, from@) matches Some(t) && t.to == to@,
                None => self@.edge_for(method@, from@) is None,
            }),
    {
        let n = self.decl.transitions.len();
        let mut i: usize = 0;
        proof {
            assert(self@.transitions.skip(0) =~= self@.transitions);
        }
        while i < n
            invariant
                n == self@.transitions.len(),
                i <= n,
                lookup_edge(self@.transitions, method@, from@) == lookup_edge(
                    self@.transitions.skip(i as int),
                    method@,
                    from@,
                ),
            decreases n - i,
        {
            let t = &self.decl.transitions[i];
            if t.method == *method && t.from == *from {
                proof {
                    assert(self@.transitions.skip(i as int)[0] == self@.transitions[i as int]);
                }
                return Some(&t.to);
            }
            proof {
                assert(self@.transitions.skip(i as int)[0] == self@.transitions[i as int]);
                assert(self@.transitions.skip(i as int).skip(1) =~= self@.transitions.skip(
                    i as int + 1,
                ));
            }
            i += 1;
        }
        proof {
            assert(self@.transitions.skip(n as int).len() == 0);
        }
        None
    }

    /// Whether a per-state method `method` is declared for `state`: a
    /// wrapper in any other state has no such method.
    pub fn state_method_allowed(&self, state: &String, method: &String) -> (r: bool)
        ensures
            r == self@.has_state_method(state@, method@),
    {
        let n = self.decl.methods.len();
        let mut i: usize = 0;
        while i < n
            invariant
                n == self@.methods.len(),
                i <= n,
                forall|j: int|
                    0 <= j < i ==> !((#[trigger] self@.methods[j]).state == state@
                        && self@.methods[j].method == method@),
            decreases n - i,
        {
            let m = &self.decl.methods[i];
            if m.state == *state && m.method == *method {
                proof {
                    assert(self@.methods[i as int].state == state@ && self@.methods[
                        i as int
                    ].method == method@);
                }
                return true;
            }
            i += 1;
        }
        false
    }
}

/// Law: in a well-formed specification every declared edge resolves, and
/// resolves to itself — a call of the declared method name on a wrapper in
/// the declared source state finds exactly that transition, so the
/// generated method for edge `(From, To)` is available on `From` and leads
/// to `To`.
pub proof fn lemma_declared_edge_resolves(v: PeripheralDeclView, i: int)
    requires
        v.well_formed(),
        0 <= i < v.transitions.len(),
    ensures
        v.edge_for(v.transitions[i].method, v.transitions[i].from) == Some(v.transitions[i]),
{
    lemma_lookup_first_match(v.transitions, i);
}

/// The first-match lookup finds entry `i` when no earlier entry shares its
/// `(method, source)` pair.
proof fn lemma_lookup_first_match(ts: Seq<TransitionDeclView>, i: int)
    requires
        0 <= i < ts.len(),
        forall|x: int, y: int|
            0 <= x < y < ts.len() ==> !((#[trigger] ts[x]).method == (#[trigger] ts[y]).method
                && ts[x].from == ts[y].from),
    ensures
        lookup_edge(ts, ts[i].method, ts[i].from) == Some(ts[i]),
    decreases ts.len(),
{
    if i == 0 {
        assert(lookup_edge(ts, ts[0].method, ts[0].from) == Some(ts[0]));
    } else {
        assert(!(ts[0].method == ts[i].method && ts[0].from == ts[i].from));
        let tail = ts.skip(1);
        assert(tail[i - 1] == ts[i]);
        assert forall|x: int, y: int| 0 <= x < y < tail.len() implies !((#[trigger] tail[x]).method
            == (#[trigger] tail[y]).method && tail[x].from == tail[y].from) by {
            assert(tail[x] == ts[x + 1]);
            assert(tail[y] == ts[y + 1]);
        }
        lemma_lookup_first_match(tail, i - 1);
    }
}

/// Whether `target` occurs in `names`.
fn contains_name(names: &Vec<String>, target: &String) -> (r: bool)
    ensures
        r == names.deep_view().contains(target@),
{
    let n = names.len();
    let mut i: usize = 0;
    while i < n
        invariant
            n == names.len(),
            i <= n,
            forall|j: int| 0 <= j < i ==> names.deep_view()[j] != target@,
        decreases n - i,
    {
        if names[i] == *target {
            assert(names.deep_view()[i as int] == target@);
            return true;
        }
        i += 1;
    }
    assert(forall|j: int| 0 <= j < names.deep_view().len() ==> names.deep_view()[j] != target@);
    false
}

} // verus!

