//! The dynamic registry: a runtime shadow ledger for peripherals whose
//! state changes the static typestate model cannot observe (for example
//! interrupt-driven ones).
//!
//! The registry enforces no transition graph. It records, per peripheral
//! key: the last written state (last write wins), the lifecycle hooks
//! registered for sleep, restore and access (append-only, duplicates
//! retained in registration order), and the interrupt-handler names the
//! peripheral knows about; plus one global set of currently active
//! interrupt-handler names. Enabling an interrupt records its name both
//! against the peripheral and in the global active set; disabling removes
//! it only from the global active set — the peripheral keeps knowing the
//! name. Peripherals and hooks are identified by caller-chosen `u64` keys;
//! state and interrupt-handler names are strings.
//!
//! The registry is a single-owner service value: it does no locking, so a
//! multi-threaded host must serialise access to it externally.
use vstd::prelude::*;
use vstd::string::StringExecFns;

verus! {

/// The baseline state label every peripheral is recorded at when first
/// enrolled.
pub open spec fn off_label() -> Seq<char> {
    "off"@
}

/// The baseline state label as an owned string, for checking against.
pub fn off_state() -> (r: String)
    ensures
        r@ == off_label(),
{
    String::from_str("off")
}

/// The mathematical content of the registry: the recorded state per
/// peripheral, the three hook ledgers in registration order, the
/// per-peripheral known interrupt names, and the global active set.
#[verifier::ext_equal]
pub struct RegistryView {
    pub states: Map<u64, Seq<char>>,
    pub sleep_hooks: Seq<(u64, u64)>,
    pub restore_hooks: Seq<(u64, u64)>,
    pub access_hooks: Seq<(u64, u64)>,
    pub known_isrs: Set<(u64, Seq<char>)>,
    pub active_isrs: Set<Seq<char>>,
}

/// The hooks recorded for peripheral `p` in ledger `s`, in registration
/// order, duplicates retained.
pub open spec fn hooks_for(s: Seq<(u64, u64)>, p: u64) -> Seq<u64>
    decreases s.len(),
{
    if s.len() == 0 {
        Seq::empty()
    } else {
        let rest = hooks_for(s.drop_last(), p);
        if s.last().0 == p {
            rest.push(s.last().1)
        } else {
            rest
        }
    }
}

impl RegistryView {
    /// A registry that has recorded nothing.
    pub open spec fn empty() -> RegistryView {
        RegistryView {
            states: Map::empty(),
            sleep_hooks: Seq::empty(),
            restore_hooks: Seq::empty(),
            access_hooks: Seq::empty(),
            known_isrs: Set::empty(),
            active_isrs: Set::empty(),
        }
    }

    /// Enrolling records the peripheral at the baseline state, overwriting
    /// any earlier record.
    pub open spec fn after_enroll(self, p: u64) -> RegistryView {
        RegistryView { states: self.states.insert(p, off_label()), ..self }
    }

    /// Updating overwrites the recorded state unconditionally, enrolled or
    /// not: last write wins.
    pub open spec fn after_update(self, p: u64, s: Seq<char>) -> RegistryView {
        RegistryView { states: self.states.insert(p, s), ..self }
    }

    /// Registering a sleep hook appends it to the ledger.
    pub open spec fn after_register_sleep(self, p: u64, f: u64) -> RegistryView {
        RegistryView { sleep_hooks: self.sleep_hooks.push((p, f)), ..self }
    }

    /// Registering a restore hook appends it to the ledger.
    pub open spec fn after_register_restore(self, p: u64, f: u64) -> RegistryView {
        RegistryView { restore_hooks: self.restore_hooks.push((p, f)), ..self }
    }

    /// Registering an access hook appends it to the ledger.
    pub open spec fn after_register_access(self, p: u64, f: u64) -> RegistryView {
        RegistryView { access_hooks: self.access_hooks.push((p, f)), ..self }
    }

    /// Enabling an interrupt records its name against the peripheral and
    /// in the global active set.
    pub open spec fn after_enable_isr(self, p: u64, n: Seq<char>) -> RegistryView {
        RegistryView {
            known_isrs: self.known_isrs.insert((p, n)),
            active_isrs: self.active_isrs.insert(n),
            ..self
        }
    }

    /// Disabling an interrupt removes its name from the global active set
    /// only: every peripheral that knew the name keeps knowing it.
    pub open spec fn after_disable_isr(self, n: Seq<char>) -> RegistryView {
        RegistryView { active_isrs: self.active_isrs.remove(n), ..self }
    }

    /// Whether the recorded state of `p` is exactly `s`; false when `p`
    /// was never recorded.
    pub open spec fn state_check(self, p: u64, s: Seq<char>) -> bool {
        self.states.contains_key(p) && self.states[p] == s
    }

    /// Whether peripheral `p` knows the interrupt-handler name `n`.
    pub open spec fn knows_isr(self, p: u64, n: Seq<char>) -> bool {
        self.known_isrs.contains((p, n))
    }

    /// Whether the interrupt-handler name `n` is globally active.
    pub open spec fn isr_is_active(self, n: Seq<char>) -> bool {
        self.active_isrs.contains(n)
    }
}

/// The recorded state of peripheral `p`, built from the state ledger.
spec fn states_map_of(s: Seq<(u64, String)>) -> Map<u64, Seq<char>>
    decreases s.len(),
{
    if s.len() == 0 {
        Map::empty()
    } else {
        states_map_of(s.drop_last()).insert(s.last().0, s.last().1@)
    }
}

/// The set of (peripheral, interrupt name) pairs recorded in `s`.
spec fn known_set_of(s: Seq<(u64, String)>) -> Set<(u64, Seq<char>)> {
    Set::new(
        |pr: (u64, Seq<char>)|
            exists|i: int|
                0 <= i < s.len() && (#[trigger] s[i]).0 == pr.0 && s[i].1@ == pr.1,
    )
}

/// The set of interrupt names recorded in `s`.
spec fn active_set_of(s: Seq<String>) -> Set<Seq<char>> {
    Set::new(|n: Seq<char>| exists|i: int| 0 <= i < s.len() && (#[trigger] s[i])@ == n)
}

/// The dynamic registry. Its observable content is a [`RegistryView`];
/// every operation's contract states exactly the view it leaves behind.
pub struct Registry {
    states: Vec<(u64, String)>,
    sleep_hooks: Vec<(u64, u64)>,
    restore_hooks: Vec<(u64, u64)>,
    access_hooks: Vec<(u64, u64)>,
    known_isrs: Vec<(u64, String)>,
    active_isrs: Vec<String>,
}

impl View for Registry {
    type V = RegistryView;

    closed spec fn view(&self) -> RegistryView {
        RegistryView {
            states: states_map_of(self.states@),
            sleep_hooks: self.sleep_hooks@,
            restore_hooks: self.restore_hooks@,
            access_hooks: self.access_hooks@,
            known_isrs: known_set_of(self.known_isrs@),
            active_isrs: active_set_of(self.active_isrs@),
        }
    }
}

impl Registry {
    /// A registry with no records.
    pub fn new() -> (r: Registry)
        ensures
            r@ == RegistryView::empty(),
    {
        let r = Registry {
            states: Vec::new(),
            sleep_hooks: Vec::new(),
            restore_hooks: Vec::new(),
            access_hooks: Vec::new(),
            known_isrs: Vec::new(),
            active_isrs: Vec::new(),
        };
        proof {
            assert(known_set_of(r.known_isrs@) =~= Set::<(u64, Seq<char>)>::empty());
            assert(active_set_of(r.active_isrs@) =~= Set::<Seq<char>>::empty());
            assert(r@ =~= RegistryView::empty());
        }
        r
    }

    /// Records `p` at the implicit baseline state; an idempotent overwrite
    /// if `p` was already enrolled.
    pub fn enroll(&mut self, p: u64)
        ensures
            final(self)@ == old(self)@.after_enroll(p),
    {
        let label = off_state();
        self.states.push((p, label));
        proof {
            assert(self.states@.drop_last() =~= old(self).states@);
            assert(self@ =~= old(self)@.after_enroll(p));
        }
    }

    /// Overwrites the recorded state of `p` with `s`, enrolled or not:
    /// last write wins.
    pub fn update(&mut self, p: u64, s: String)
        ensures
            final(self)@ == old(self)@.after_update(p, s@),
    {
        self.states.push((p, s));
        proof {
            assert(self.states@.drop_last() =~= old(self).states@);
            assert(self@ =~= old(self)@.after_update(p, s@));
        }
    }

    /// Whether the recorded state of `p` equals `expected`. A peripheral
    /// that was never enrolled checks false — a normal result, not an
    /// error.
    pub fn check(&self, p: u64, expected: &String) -> (r: bool)
        ensures
            r == self@.state_check(p, expected@),
    {
        let n = self.states.len();
        let mut i: usize = n;
        proof {
            assert(self.states@.take(n as int) =~= self.states@);
        }
        while i > 0
            invariant
                n == self.states.len(),
                i <= n,
                states_map_of(self.states@.take(i as int)).contains_key(p)
                    == states_map_of(self.states@).contains_key(p),
                states_map_of(self.states@).contains_key(p) ==> states_map_of(
                    self.states@.take(i as int),
                )[p] == states_map_of(self.states@)[p],
            decreases i,
        {
            let entry = &self.states[i - 1];
            proof {
                assert(self.states@.take(i as int).last() == self.states@[i as int - 1]);
                assert(self.states@.take(i as int).drop_last() =~= self.states@.take(
                    i as int - 1,
                ));
            }
            if entry.0 == p {
                proof {
                    assert(states_map_of(self.states@.take(i as int)).contains_key(p));
                    assert(states_map_of(self.states@.take(i as int))[p] == entry.1@);
                }
                return entry.1 == *expected;
            }
            i -= 1;
        }
        false
    }

    /// Appends a sleep hook for `p`; duplicates are retained in
    /// registration order.
    pub fn register_sleep(&mut self, p: u64, hook: u64)
        ensures
            final(self)@ == old(self)@.after_register_sleep(p, hook),
    {
        self.sleep_hooks.push((p, hook));
        proof {
            assert(self@ =~= old(self)@.after_register_sleep(p, hook));
        }
    }

    /// Appends a restore hook for `p`; duplicates are retained in
    /// registration order.
    pub fn register_restore(&mut self, p: u64, hook: u64)
        ensures
            final(self)@ == old(self)@.after_register_restore(p, hook),
    {
        self.restore_hooks.push((p, hook));
        proof {
            assert(self@ =~= old(self)@.after_register_restore(p, hook));
        }
    }

    /// Appends an access hook for `p`; duplicates are retained in
    /// registration order.
    pub fn register_access(&mut self, p: u64, hook: u64)
        ensures
            final(self)@ == old(self)@.after_register_access(p, hook),
    {
        self.access_hooks.push((p, hook));
        proof {
            assert(self@ =~= old(self)@.after_register_access(p, hook));
        }
    }

    /// The sleep hooks recorded for `p`, in registration order.
    pub fn sleep_hooks_for(&self, p: u64) -> (r: Vec<u64>)
        ensures
            r@ == hooks_for(self@.sleep_hooks, p),
    {
        collect_hooks(&self.sleep_hooks, p)
    }

    /// The restore hooks recorded for `p`, in registration order.
    pub fn restore_hooks_for(&self, p: u64) -> (r: Vec<u64>)
        ensures
            r@ == hooks_for(self@.restore_hooks, p),
    {
        collect_hooks(&self.restore_hooks, p)
    }

    /// The access hooks recorded for `p`, in registration order.
    pub fn access_hooks_for(&self, p: u64) -> (r: Vec<u64>)
        ensures
            r@ == hooks_for(self@.access_hooks, p),
    {
        collect_hooks(&self.access_hooks, p)
    }

    /// Records interrupt-handler `name` both as known to `p` and in the
    /// global active set.
    pub fn enable_isr(&mut self, p: u64, name: String)
        ensures
            final(self)@ == old(self)@.after_enable_isr(p, name@),
    {
        let copy = name.clone();
        self.known_isrs.push((p, name));
        self.active_isrs.push(copy);
        proof {
            lemma_known_push(old(self).known_isrs@, p, name);
            lemma_active_push(old(self).active_isrs@, copy);
            assert(self@ =~= old(self)@.after_enable_isr(p, name@));
        }
    }

    /// Removes interrupt-handler `name` from the global active set only:
    /// the peripheral argument is deliberately not consulted, and every
    /// peripheral that knew the name keeps knowing it.
    pub fn disable_isr(&mut self, _p: u64, name: &String)
        ensures
            final(self)@ == old(self)@.after_disable_isr(name@),
    {
        let n = self.active_isrs.len();
        let mut kept: Vec<String> = Vec::new();
        let mut i: usize = 0;
        proof {
            assert(active_set_of(self.active_isrs@.take(0)) =~= Set::<Seq<char>>::empty());
            assert(active_set_of(kept@) =~= Set::<Seq<char>>::empty());
            assert(active_set_of(kept@) =~= active_set_of(self.active_isrs@.take(0)).remove(
                name@,
            ));
        }
        while i < n
            invariant
                n == self.active_isrs.len(),
                i <= n,
                active_set_of(kept@) == active_set_of(self.active_isrs@.take(i as int)).remove(
                    name@,
                ),
            decreases n - i,
        {
            let cur = &self.active_isrs[i];
            proof {
                assert(self.active_isrs@.take(i as int + 1) =~= self.active_isrs@.take(
                    i as int,
                ).push(self.active_isrs@[i as int]));
                lemma_active_push(self.active_isrs@.take(i as int), self.active_isrs@[i as int]);
            }
            if *cur == *name {
                proof {
                    assert(active_set_of(self.active_isrs@.take(i as int)).insert(name@).remove(
                        name@,
                    ) =~= active_set_of(self.active_isrs@.take(i as int)).remove(name@));
                }
            } else {
                let c = cur.clone();
                proof {
                    lemma_active_push(kept@, c);
                    assert(active_set_of(self.active_isrs@.take(i as int)).insert(c@).remove(
                        name@,
                    ) =~= active_set_of(self.active_isrs@.take(i as int)).remove(name@).insert(
                        c@,
                    ));
                }
                kept.push(c);
            }
            i += 1;
        }
        self.active_isrs = kept;
        proof {
            assert(old(self).active_isrs@.take(n as int) =~= old(self).active_isrs@);
            assert(self@ =~= old(self)@.after_disable_isr(name@));
        }
    }

    /// Whether `p` knows the interrupt-handler name `name`.
    pub fn isr_known(&self, p: u64, name: &String) -> (r: bool)
        ensures
            r == self@.knows_isr(p, name@),
    {
        let n = self.known_isrs.len();
        let mut i: usize = 0;
        while i < n
            invariant
                n == self.known_isrs.len(),
                i <= n,
                forall|j: int|
                    0 <= j < i ==> !((#[trigger] self.known_isrs@[j]).0 == p
                        && self.known_isrs@[j].1@ == name@),
            decreases n - i,
        {
            let entry = &self.known_isrs[i];
            if entry.0 == p && entry.1 == *name {
                proof {
                    assert((self.known_isrs@[i as int]).0 == p && self.known_isrs@[i as int].1@
                        == name@);
                    assert(known_set_of(self.known_isrs@).contains((p, name@)));
                }
                return true;
            }
            i += 1;
        }
        assert(!known_set_of(self.known_isrs@).contains((p, name@)));
        false
    }

    /// Whether the interrupt-handler name `name` is globally active.
    pub fn isr_active(&self, name: &String) -> (r: bool)
        ensures
            r == self@.isr_is_active(name@),
    {
        let n = self.active_isrs.len();
        let mut i: usize = 0;
        while i < n
            invariant
                n == self.active_isrs.len(),
                i <= n,
                forall|j: int| 0 <= j < i ==> (#[trigger] self.active_isrs@[j])@ != name@,
            decreases n - i,
        {
            if self.active_isrs[i] == *name {
                proof {
                    assert((self.active_isrs@[i as int])@ == name@);
                    assert(active_set_of(self.active_isrs@).contains(name@));
                }
                return true;
            }
            i += 1;
        }
        assert(!active_set_of(self.active_isrs@).contains(name@));
        false
    }
}

/// The hooks recorded for `p` in `list`, in registration order.
fn collect_hooks(list: &Vec<(u64, u64)>, p: u64) -> (r: Vec<u64>)
    ensures
        r@ == hooks_for(list@, p),
{
    let n = list.len();
    let mut out: Vec<u64> = Vec::new();
    let mut i: usize = 0;
    proof {
        assert(list@.take(0) =~= Seq::<(u64, u64)>::empty());
    }
    while i < n
        invariant
            n == list.len(),
            i <= n,
            out@ == hooks_for(list@.take(i as int), p),
        decreases n - i,
    {
        let e = list[i];
        proof {
            assert(list@.take(i as int + 1).drop_last() =~= list@.take(i as int));
            assert(list@.take(i as int + 1).last() == list@[i as int]);
        }
        if e.0 == p {
            out.push(e.1);
        }
        i += 1;
    }
    proof {
        assert(list@.take(n as int) =~= list@);
    }
    out
}

/// Pushing a pair onto the known-interrupt ledger adds exactly that pair
/// to its set.
proof fn lemma_known_push(s: Seq<(u64, String)>, p: u64, name: String)
    ensures
        known_set_of(s.push((p, name))) == known_set_of(s).insert((p, name@)),
{
    let lhs = known_set_of(s.push((p, name)));
    let rhs = known_set_of(s).insert((p, name@));
    assert forall|pr: (u64, Seq<char>)| lhs.contains(pr) implies rhs.contains(pr) by {
        let i = choose|i: int|
            0 <= i < s.push((p, name)).len() && (#[trigger] s.push((p, name))[i]).0 == pr.0 && s.push(
                (p, name),
            )[i].1@ == pr.1;
        if i < s.len() {
            assert((s[i]).0 == pr.0 && s[i].1@ == pr.1);
        } else {
            assert(pr == (p, name@));
        }
    }
    assert forall|pr: (u64, Seq<char>)| rhs.contains(pr) implies lhs.contains(pr) by {
        if pr == (p, name@) {
            assert((s.push((p, name))[s.len() as int]).0 == pr.0 && s.push((p, name))[
                s.len() as int
            ].1@ == pr.1);
        } else {
            let i = choose|i: int|
                0 <= i < s.len() && (#[trigger] s[i]).0 == pr.0 && s[i].1@ == pr.1;
            assert((s.push((p, name))[i]).0 == pr.0 && s.push((p, name))[i].1@ == pr.1);
        }
    }
    assert(lhs =~= rhs);
}

/// Pushing a name onto the active-interrupt ledger adds exactly that name
/// to its set.
proof fn lemma_active_push(s: Seq<String>, v: String)
    ensures
        active_set_of(s.push(v)) == active_set_of(s).insert(v@),
{
    let lhs = active_set_of(s.push(v));
    let rhs = active_set_of(s).insert(v@);
    assert forall|x: Seq<char>| lhs.contains(x) implies rhs.contains(x) by {
        let i = choose|i: int| 0 <= i < s.push(v).len() && (#[trigger] s.push(v)[i])@ == x;
        if i < s.len() {
            assert(s[i]@ == x);
        } else {
            assert(x == v@);
        }
    }
    assert forall|x: Seq<char>| rhs.contains(x) implies lhs.contains(x) by {
        if x == v@ {
            assert((s.push(v)[s.len() as int])@ == x);
        } else {
            let i = choose|i: int| 0 <= i < s.len() && (#[trigger] s[i])@ == x;
            assert((s.push(v)[i])@ == x);
        }
    }
    assert(lhs =~= rhs);
}

/// Law: enrolling a peripheral records the baseline state, so a check for
/// the baseline immediately afterwards succeeds.
pub proof fn lemma_enroll_then_check(v: RegistryView, p: u64)
    ensures
        v.after_enroll(p).state_check(p, off_label()),
{
}

/// Law: updating a peripheral's state records exactly that state, so a
/// check for it immediately afterwards succeeds — enrolled beforehand or
/// not.
pub proof fn lemma_update_then_check(v: RegistryView, p: u64, s: Seq<char>)
    ensures
        v.after_update(p, s).state_check(p, s),
{
}

/// Law: a peripheral that was never recorded checks false against every
/// state.
pub proof fn lemma_check_never_enrolled(v: RegistryView, p: u64, s: Seq<char>)
    requires
        !v.states.contains_key(p),
    ensures
        !v.state_check(p, s),
{
}

/// Law: the later of two updates wins.
pub proof fn lemma_update_last_write_wins(v: RegistryView, p: u64, s1: Seq<char>, s2: Seq<char>)
    ensures
        v.after_update(p, s1).after_update(p, s2).state_check(p, s2),
{
}

/// Law: enabling then disabling an interrupt leaves the peripheral
/// knowing the name while the name is no longer globally active — the
/// deliberate asymmetry of the two ledgers.
pub proof fn lemma_isr_enable_disable_asymmetry(v: RegistryView, p: u64, n: Seq<char>)
    ensures
        v.after_enable_isr(p, n).after_disable_isr(n).knows_isr(p, n),
        !v.after_enable_isr(p, n).after_disable_isr(n).isr_is_active(n),
{
}

/// Law: registering a hook appends it for its peripheral and leaves every
/// other peripheral's hooks unchanged, so registration order and
/// duplicates are retained.
pub proof fn lemma_register_sleep_order(v: RegistryView, p: u64, q: u64, f: u64)
    ensures
        hooks_for(v.after_register_sleep(p, f).sleep_hooks, p) == hooks_for(
            v.sleep_hooks,
            p,
        ).push(f),
        q != p ==> hooks_for(v.after_register_sleep(p, f).sleep_hooks, q) == hooks_for(
            v.sleep_hooks,
            q,
        ),
{
    assert(v.sleep_hooks.push((p, f)).drop_last() =~= v.sleep_hooks);
}

} // verus!

