//! Sparks (plug-in modules): the registry of known sparks and whether each can
//! run, and the scripts, styles and meta tags they add to pages.
use vstd::prelude::*;

use crate::text::{str_eq, strings_view, vec_has_str};

verus! {

/// A plug-in module.
pub trait Spark {
    /// The spark's name.
    fn name(&self) -> &str;

    /// A one-line description of the spark; by default a generic one.
    fn description(&self) -> (r: &str)
        default_ensures
            r@ == "A Catalyst Spark module"@,
    {
        "A Catalyst Spark module"
    }

    /// Whether the spark can run in this environment; by default every
    /// environment suits it.
    fn is_compatible_with_environment(&self) -> (r: bool)
        default_ensures
            r,
    {
        true
    }

    /// Whether the configuration enables the spark.
    fn is_enabled(&self) -> bool;

    /// Whether the spark is both compatible and enabled.
    fn is_available(&self) -> bool {
        self.is_compatible_with_environment() && self.is_enabled()
    }
}

/// Whether a spark is enabled, given its `enabled` setting if one is
/// configured: sparks are enabled unless configured otherwise.
pub fn enabled_setting(configured: Option<bool>) -> (r: bool)
    ensures
        r == match configured {
            Some(b) => b,
            None => true,
        },
{
    match configured {
        Some(b) => b,
        None => true,
    }
}

/// The sparks this build knows how to create.
pub open spec fn known_spark(name: Seq<char>) -> bool {
    name == "plznohac"@ || name == "vigil"@
}

/// Whether this build knows how to create the named spark.
pub fn is_known_spark(name: &str) -> (r: bool)
    ensures
        r == known_spark(name@),
{
    str_eq(name, "plznohac") || str_eq(name, "vigil")
}

// ---------------------------------------------------------------------------
// The registry
// ---------------------------------------------------------------------------

/// The registered sparks, each with how to create it, and which of them can
/// run (compatible) or not (incompatible).
pub struct SparkRegistry<C> {
    registered_sparks: Vec<(String, C)>,
    compatible_sparks: Vec<String>,
    incompatible_sparks: Vec<String>,
}

/// The names of registered entries, in order.
pub open spec fn entry_names<C>(v: Seq<(String, C)>) -> Seq<Seq<char>> {
    v.map_values(|e: (String, C)| e.0@)
}

impl<C> SparkRegistry<C> {
    /// The registered names, in registration order.
    pub closed spec fn names(&self) -> Seq<Seq<char>> {
        entry_names(self.registered_sparks@)
    }

    /// The names of the sparks that can run, in registration order.
    pub closed spec fn compatible(&self) -> Seq<Seq<char>> {
        strings_view(self.compatible_sparks@)
    }

    /// The names of the sparks that cannot run, in registration order.
    pub closed spec fn incompatible(&self) -> Seq<Seq<char>> {
        strings_view(self.incompatible_sparks@)
    }

    /// The creator registered under a name, viewed.
    pub closed spec fn creator_of(&self, name: Seq<char>) -> Option<C> {
        creator_in(self.registered_sparks@, name)
    }

    /// Well-formed: each name is registered once and is either compatible or
    /// incompatible, never both.
    pub open spec fn wf(&self) -> bool {
        &&& self.names().no_duplicates()
        &&& self.compatible().no_duplicates()
        &&& self.incompatible().no_duplicates()
        &&& forall|x: Seq<char>| #[trigger] self.names().contains(x) <==> (self.compatible().contains(x) || self.incompatible().contains(x))
        &&& forall|x: Seq<char>| !(#[trigger] self.compatible().contains(x) && self.incompatible().contains(x))
    }

    /// An empty registry.
    pub fn new() -> (r: Self)
        ensures
            r.wf(),
            r.names().len() == 0,
            r.compatible().len() == 0,
            r.incompatible().len() == 0,
    {
        let r = SparkRegistry {
            registered_sparks: Vec::new(),
            compatible_sparks: Vec::new(),
            incompatible_sparks: Vec::new(),
        };
        assert(r.names() =~= Seq::<Seq<char>>::empty());
        assert(r.compatible() =~= Seq::<Seq<char>>::empty());
        assert(r.incompatible() =~= Seq::<Seq<char>>::empty());
        r
    }

    /// Whether a spark is registered under `name`.
    pub fn contains(&self, name: &str) -> (r: bool)
        ensures
            r == self.names().contains(name@),
    {
        let mut i: usize = 0;
        while i < self.registered_sparks.len()
            invariant
                i <= self.registered_sparks@.len(),
                forall|j: int| 0 <= j < i ==> (#[trigger] self.registered_sparks@[j]).0@ != name@,
            decreases self.registered_sparks@.len() - i,
        {
            if str_eq(self.registered_sparks[i].0.as_str(), name) {
                assert(self.names()[i as int] == name@);
                return true;
            }
            i = i + 1;
        }
        proof {
            if self.names().contains(name@) {
                let j = choose|j: int| 0 <= j < self.names().len() && self.names()[j] == name@;
                assert(self.registered_sparks@[j].0@ == name@);
            }
        }
        false
    }

    /// Registers a spark under `name` with its creator, as compatible when
    /// `available`; a name already registered is left as it is.
    pub fn register(&mut self, name: &str, creator: C, available: bool)
        requires
            old(self).wf(),
        ensures
            final(self).wf(),
            old(self).names().contains(name@) ==> {
                &&& *final(self) == *old(self)
                &&& final(self).names() == old(self).names()
                &&& final(self).compatible() == old(self).compatible()
                &&& final(self).incompatible() == old(self).incompatible()
                &&& forall|x: Seq<char>| final(self).creator_of(x) == old(self).creator_of(x)
            },
            !old(self).names().contains(name@) ==> {
                &&& final(self).names() == old(self).names().push(name@)
                &&& final(self).compatible() == if available {
                    old(self).compatible().push(name@)
                } else {
                    old(self).compatible()
                }
                &&& final(self).incompatible() == if available {
                    old(self).incompatible()
                } else {
                    old(self).incompatible().push(name@)
                }
                &&& final(self).creator_of(name@) == Some(creator)
            },
    {
        if self.contains(name) {
            return;
        }
        let ghost old_names = self.names();
        let ghost old_reg = self.registered_sparks@;
        self.registered_sparks.push((String::from_str(name), creator));
        assert(self.names() =~= old_names.push(name@));
        proof {
            let e = self.registered_sparks@.last();
            assert(self.registered_sparks@ =~= old_reg.push(e));
            assert(entry_names(old_reg) == old_names);
            lemma_creator_in_push(old_reg, e, name@);
        }
        if available {
            let ghost c = self.compatible();
            self.compatible_sparks.push(String::from_str(name));
            assert(self.compatible() =~= c.push(name@));
        } else {
            let ghost c = self.incompatible();
            self.incompatible_sparks.push(String::from_str(name));
            assert(self.incompatible() =~= c.push(name@));
        }
        proof {
            assert forall|x: Seq<char>| #[trigger] self.names().contains(x) <==> (self.compatible().contains(x)
                || self.incompatible().contains(x)) by {
                if x == name@ {
                    assert(self.names()[self.names().len() - 1] == x);
                    if available {
                        assert(self.compatible()[self.compatible().len() - 1] == x);
                    } else {
                        assert(self.incompatible()[self.incompatible().len() - 1] == x);
                    }
                }
                lemma_push_contains(old_names, name@, x);
                lemma_push_contains(old(self).compatible(), name@, x);
                lemma_push_contains(old(self).incompatible(), name@, x);
            }
            assert forall|x: Seq<char>| !(#[trigger] self.compatible().contains(x) && self.incompatible().contains(
                x,
            )) by {
                lemma_push_contains(old(self).compatible(), name@, x);
                lemma_push_contains(old(self).incompatible(), name@, x);
            }
            lemma_push_no_dup(old_names, name@);
            if available {
                lemma_push_no_dup(old(self).compatible(), name@);
            } else {
                lemma_push_no_dup(old(self).incompatible(), name@);
            }
        }
    }

    /// The sparks that can run, in registration order.
    pub fn get_compatible_sparks(&self) -> (r: Vec<String>)
        ensures
            strings_view(r@) == self.compatible(),
    {
        let mut out: Vec<String> = Vec::new();
        let mut i: usize = 0;
        while i < self.compatible_sparks.len()
            invariant
                i <= self.compatible_sparks@.len(),
                out@ == self.compatible_sparks@.subrange(0, i as int),
            decreases self.compatible_sparks@.len() - i,
        {
            let item = self.compatible_sparks[i].clone();
            out.push(item);
            assert(out@ =~= self.compatible_sparks@.subrange(0, i + 1));
            i = i + 1;
        }
        assert(out@ =~= self.compatible_sparks@);
        out
    }

    /// How to create the spark registered under `name`, if any.
    pub fn get_creator(&self, name: &str) -> (r: Option<&C>)
        ensures
            match r {
                Some(c) => self.creator_of(name@) == Some(*c),
                None => self.creator_of(name@) is None,
            },
    {
        let mut i: usize = 0;
        assert(self.registered_sparks@.subrange(0, self.registered_sparks@.len() as int) =~= self.registered_sparks@);
        while i < self.registered_sparks.len()
            invariant
                i <= self.registered_sparks@.len(),
                creator_in(self.registered_sparks@, name@) == creator_in(
                    self.registered_sparks@.subrange(i as int, self.registered_sparks@.len() as int),
                    name@,
                ),
            decreases self.registered_sparks@.len() - i,
        {
            let ghost rest = self.registered_sparks@.subrange(i as int, self.registered_sparks@.len() as int);
            if str_eq(self.registered_sparks[i].0.as_str(), name) {
                assert(rest[0] == self.registered_sparks@[i as int]);
                return Some(&self.registered_sparks[i].1);
            }
            assert(rest.drop_first() =~= self.registered_sparks@.subrange(i + 1, self.registered_sparks@.len() as int));
            i = i + 1;
        }
        None
    }
}

/// The creator of the first entry registered under `name`.
pub open spec fn creator_in<C>(v: Seq<(String, C)>, name: Seq<char>) -> Option<C>
    decreases v.len(),
{
    if v.len() == 0 {
        None
    } else if v[0].0@ == name {
        Some(v[0].1)
    } else {
        creator_in(v.drop_first(), name)
    }
}

proof fn lemma_creator_in_push<C>(v: Seq<(String, C)>, e: (String, C), name: Seq<char>)
    ensures
        forall|x: Seq<char>| x != e.0@ ==> creator_in(v.push(e), x) == creator_in(v, x),
        !entry_names(v).contains(e.0@) ==> creator_in(v.push(e), e.0@) == Some(e.1),
    decreases v.len(),
{
    assert forall|x: Seq<char>| x != e.0@ implies creator_in(v.push(e), x) == creator_in(v, x) by {
        if v.len() == 0 {
            assert(v.push(e)[0] == e);
            assert(v.push(e).drop_first() =~= Seq::<(String, C)>::empty());
        } else {
            lemma_creator_in_push(v.drop_first(), e, name);
            assert(v.push(e).drop_first() =~= v.drop_first().push(e));
            assert(v.push(e)[0] == v[0]);
            if v[0].0@ != x {
                assert(creator_in(v.push(e), x) == creator_in(v.push(e).drop_first(), x));
                assert(creator_in(v.drop_first().push(e), x) == creator_in(v.drop_first(), x));
                assert(creator_in(v, x) == creator_in(v.drop_first(), x));
            }
        }
    }
    if v.len() > 0 {
        lemma_creator_in_push(v.drop_first(), e, name);
        assert(v.push(e).drop_first() =~= v.drop_first().push(e));
        assert(v.push(e)[0] == v[0]);
        if !entry_names(v).contains(e.0@) {
            assert(entry_names(v)[0] == v[0].0@);
            assert forall|k: int| 0 <= k < entry_names(v.drop_first()).len() implies entry_names(v.drop_first())[k]
                != e.0@ by {
                assert(entry_names(v.drop_first())[k] == entry_names(v)[k + 1]);
            }
        }
    } else {
        assert(v.push(e)[0] == e);
        assert(v.push(e).drop_first() =~= Seq::<(String, C)>::empty());
    }
}

proof fn lemma_push_contains(s: Seq<Seq<char>>, a: Seq<char>, x: Seq<char>)
    ensures
        s.push(a).contains(x) <==> (s.contains(x) || x == a),
{
    if s.push(a).contains(x) {
        let j = choose|j: int| 0 <= j < s.push(a).len() && s.push(a)[j] == x;
        if j < s.len() {
            assert(s[j] == x);
        }
    }
    if s.contains(x) {
        let j = choose|j: int| 0 <= j < s.len() && s[j] == x;
        assert(s.push(a)[j] == x);
    }
    if x == a {
        assert(s.push(a)[s.len() as int] == x);
    }
}

proof fn lemma_push_no_dup(s: Seq<Seq<char>>, a: Seq<char>)
    requires
        s.no_duplicates(),
        !s.contains(a),
    ensures
        s.push(a).no_duplicates(),
{
    assert forall|i: int, j: int| 0 <= i < s.push(a).len() && 0 <= j < s.push(a).len() && i != j implies s.push(a)[i]
        != s.push(a)[j] by {
        if i < s.len() && j < s.len() {
        } else if i < s.len() {
            assert(s[i] == s.push(a)[i]);
        } else if j < s.len() {
            assert(s[j] == s.push(a)[j]);
        }
    }
}

/// Creates the registry unless it exists.
pub fn init_registry<C>(registry: &mut Option<SparkRegistry<C>>)
    requires
        *old(registry) matches Some(r) ==> r.wf(),
    ensures
        *final(registry) matches Some(r) && r.wf(),
        *old(registry) is Some ==> *final(registry) == *old(registry),
        *old(registry) is None ==> {
            &&& final(registry)->0.names().len() == 0
            &&& final(registry)->0.compatible().len() == 0
            &&& final(registry)->0.incompatible().len() == 0
        },
{
    if registry.is_none() {
        *registry = Some(SparkRegistry::new());
    }
}

/// The registered names, none without a registry.
pub open spec fn names_of<C>(registry: Option<SparkRegistry<C>>) -> Seq<Seq<char>> {
    match registry {
        Some(r) => r.names(),
        None => seq![],
    }
}

/// The sparks that can run, none without a registry.
pub open spec fn compatible_of<C>(registry: Option<SparkRegistry<C>>) -> Seq<Seq<char>> {
    match registry {
        Some(r) => r.compatible(),
        None => seq![],
    }
}

/// The sparks that cannot run, none without a registry.
pub open spec fn incompatible_of<C>(registry: Option<SparkRegistry<C>>) -> Seq<Seq<char>> {
    match registry {
        Some(r) => r.incompatible(),
        None => seq![],
    }
}

/// The registered names and the names of the sparks that can run, in
/// registration order; none without a registry.
pub open spec fn registry_state<C>(registry: Option<SparkRegistry<C>>) -> (Seq<Seq<char>>, Seq<Seq<char>>) {
    (names_of(registry), compatible_of(registry))
}

/// One registration of `name`: a new name is added, and to the sparks that
/// can run when `available`; a name already registered changes nothing.
pub open spec fn registration_step(
    state: (Seq<Seq<char>>, Seq<Seq<char>>),
    name: Seq<char>,
    available: bool,
) -> (Seq<Seq<char>>, Seq<Seq<char>>) {
    if state.0.contains(name) {
        state
    } else {
        (state.0.push(name), if available {
            state.1.push(name)
        } else {
            state.1
        })
    }
}

/// The registry state after registrations (each a name and whether the
/// spark can run), in order, from an empty registry.
pub open spec fn registered_after(regs: Seq<(Seq<char>, bool)>) -> (Seq<Seq<char>>, Seq<Seq<char>>)
    decreases regs.len(),
{
    if regs.len() == 0 {
        (seq![], seq![])
    } else {
        let last = regs.last();
        registration_step(registered_after(regs.drop_last()), last.0, last.1)
    }
}

/// The `i`-th registration is the first of its name.
pub open spec fn first_registration(regs: Seq<(Seq<char>, bool)>, i: int) -> bool {
    0 <= i < regs.len() && forall|j: int| 0 <= j < i ==> (#[trigger] regs[j]).0 != regs[i].0
}

/// Registers a spark, creating the registry first when needed: a new name
/// is added, to the sparks that can run when `available` and to those that
/// cannot otherwise; a name already registered leaves the registry as it was.
pub fn register_spark<C>(registry: &mut Option<SparkRegistry<C>>, name: &str, creator: C, available: bool)
    requires
        *old(registry) matches Some(r) ==> r.wf(),
    ensures
        *final(registry) matches Some(r) && r.wf() && r.names().contains(name@),
        names_of(*old(registry)).contains(name@) ==> {
            &&& *final(registry) == *old(registry)
        },
        !names_of(*old(registry)).contains(name@) ==> {
            &&& names_of(*final(registry)) == names_of(*old(registry)).push(name@)
            &&& compatible_of(*final(registry)) == if available {
                compatible_of(*old(registry)).push(name@)
            } else {
                compatible_of(*old(registry))
            }
            &&& incompatible_of(*final(registry)) == if available {
                incompatible_of(*old(registry))
            } else {
                incompatible_of(*old(registry)).push(name@)
            }
            &&& final(registry)->0.creator_of(name@) == Some(creator)
        },
        registry_state(*final(registry)) == registration_step(registry_state(*old(registry)), name@, available),
{
    init_registry(registry);
    match registry {
        Some(r) => {
            r.register(name, creator, available);
            proof {
                if !r.names().contains(name@) {
                    assert(r.names()[r.names().len() - 1] == name@);
                }
            }
        },
        None => {},
    }
}

/// The sparks that can run; none before the registry exists.
pub fn get_available_sparks<C>(registry: &Option<SparkRegistry<C>>) -> (r: Vec<String>)
    ensures
        match registry {
            Some(g) => strings_view(r@) == g.compatible(),
            None => r@.len() == 0,
        },
        strings_view(r@) == compatible_of(*registry),
{
    match registry {
        Some(g) => g.get_compatible_sparks(),
        None => Vec::new(),
    }
}

/// After a series of registrations on an empty registry, the registered
/// names are the names registered, each once, and the sparks that can run
/// (what `get_available_sparks` returns) are exactly the names whose first
/// registration found the spark available: each once, in the order of those
/// first registrations. Later registrations of a name change nothing.
pub proof fn law_available_sparks(regs: Seq<(Seq<char>, bool)>)
    ensures
        registered_after(regs).0.no_duplicates(),
        registered_after(regs).1.no_duplicates(),
        forall|x: Seq<char>|
            #[trigger] registered_after(regs).0.contains(x) <==> exists|i: int|
                0 <= i < regs.len() && (#[trigger] regs[i]).0 == x,
        forall|x: Seq<char>|
            #[trigger] registered_after(regs).1.contains(x) <==> exists|i: int|
                #[trigger] first_registration(regs, i) && regs[i].1 && regs[i].0 == x,
        forall|i: int, k: int|
            #![trigger first_registration(regs, i), first_registration(regs, k)]
            first_registration(regs, i) && first_registration(regs, k) && regs[i].1 && regs[k].1 && i < k
                ==> exists|p: int, q: int|
                0 <= p < q < registered_after(regs).1.len() && #[trigger] registered_after(regs).1[p] == regs[i].0
                    && #[trigger] registered_after(regs).1[q] == regs[k].0,
    decreases regs.len(),
{
    if regs.len() > 0 {
        let init = regs.drop_last();
        let n = regs.len() - 1;
        let (x, a) = regs.last();
        law_available_sparks(init);
        let prev = registered_after(init);
        let cur = registered_after(regs);
        assert(regs[n] == (x, a));
        assert forall|j: int| 0 <= j < n implies #[trigger] init[j] == regs[j] by {}
        assert forall|i: int| 0 <= i < n implies (#[trigger] first_registration(regs, i) <==> first_registration(init, i)) by {
            if first_registration(init, i) {
                assert forall|j: int| 0 <= j < i implies (#[trigger] regs[j]).0 != regs[i].0 by {
                    assert(init[j] == regs[j]);
                }
            }
            if first_registration(regs, i) {
                assert forall|j: int| 0 <= j < i implies (#[trigger] init[j]).0 != init[i].0 by {
                    assert(regs[j] == init[j]);
                }
            }
        }
        // Every name seen before is registered before.
        assert(forall|c: Seq<char>| #[trigger] prev.1.contains(c) ==> prev.0.contains(c)) by {
            assert forall|c: Seq<char>| #[trigger] prev.1.contains(c) implies prev.0.contains(c) by {
                let i = choose|i: int| first_registration(init, i) && init[i].1 && init[i].0 == c;
                assert(init[i].0 == c);
            }
        }
        if prev.0.contains(x) {
            assert(cur == prev);
            let i0 = choose|i: int| 0 <= i < init.len() && (#[trigger] init[i]).0 == x;
            assert(regs[i0].0 == x);
            assert(!first_registration(regs, n));
            assert forall|y: Seq<char>| #[trigger] cur.0.contains(y) <==> exists|i: int|
                0 <= i < regs.len() && (#[trigger] regs[i]).0 == y by {
                if exists|i: int| 0 <= i < regs.len() && (#[trigger] regs[i]).0 == y {
                    let i = choose|i: int| 0 <= i < regs.len() && (#[trigger] regs[i]).0 == y;
                    if i == n {
                        assert(init[i0].0 == y);
                    } else {
                        assert(init[i].0 == y);
                    }
                }
                if cur.0.contains(y) {
                    let i = choose|i: int| 0 <= i < init.len() && (#[trigger] init[i]).0 == y;
                    assert(regs[i].0 == y);
                }
            }
            assert forall|y: Seq<char>| #[trigger] cur.1.contains(y) <==> exists|i: int|
                #[trigger] first_registration(regs, i) && regs[i].1 && regs[i].0 == y by {
                if exists|i: int| #[trigger] first_registration(regs, i) && regs[i].1 && regs[i].0 == y {
                    let i = choose|i: int| #[trigger] first_registration(regs, i) && regs[i].1 && regs[i].0 == y;
                    assert(i < n);
                    assert(first_registration(init, i));
                    assert(init[i] == regs[i]);
                }
                if cur.1.contains(y) {
                    let i = choose|i: int| #[trigger] first_registration(init, i) && init[i].1 && init[i].0 == y;
                    assert(first_registration(regs, i));
                    assert(init[i] == regs[i]);
                }
            }
            assert forall|i: int, k: int|
                first_registration(regs, i) && first_registration(regs, k) && regs[i].1 && regs[k].1 && i < k
                    implies exists|p: int, q: int|
                0 <= p < q < cur.1.len() && #[trigger] cur.1[p] == regs[i].0 && #[trigger] cur.1[q] == regs[k].0 by {
                assert(k < n);
                assert(first_registration(init, i) && first_registration(init, k));
                assert(init[i] == regs[i] && init[k] == regs[k]);
            }
        } else {
            assert(first_registration(regs, n)) by {
                assert forall|j: int| 0 <= j < n implies (#[trigger] regs[j]).0 != regs[n].0 by {
                    assert(init[j] == regs[j]);
                    if regs[j].0 == x {
                        assert(prev.0.contains(init[j].0));
                    }
                }
            }
            assert(!prev.1.contains(x));
            assert(cur.0 == prev.0.push(x));
            assert(cur.1 == if a { prev.1.push(x) } else { prev.1 });
            assert forall|y: Seq<char>| #[trigger] cur.0.contains(y) <==> exists|i: int|
                0 <= i < regs.len() && (#[trigger] regs[i]).0 == y by {
                if exists|i: int| 0 <= i < regs.len() && (#[trigger] regs[i]).0 == y {
                    let i = choose|i: int| 0 <= i < regs.len() && (#[trigger] regs[i]).0 == y;
                    if i == n {
                        assert(cur.0[prev.0.len() as int] == y);
                    } else {
                        assert(init[i].0 == y);
                        assert(prev.0.contains(y));
                        let p = choose|p: int| 0 <= p < prev.0.len() && prev.0[p] == y;
                        assert(cur.0[p] == y);
                    }
                }
                if cur.0.contains(y) {
                    let p = choose|p: int| 0 <= p < cur.0.len() && cur.0[p] == y;
                    if p == prev.0.len() {
                        assert(regs[n].0 == y);
                    } else {
                        assert(prev.0[p] == y);
                        assert(prev.0.contains(y));
                        let i = choose|i: int| 0 <= i < init.len() && (#[trigger] init[i]).0 == y;
                        assert(regs[i].0 == y);
                    }
                }
            }
            assert forall|y: Seq<char>| #[trigger] cur.1.contains(y) <==> exists|i: int|
                #[trigger] first_registration(regs, i) && regs[i].1 && regs[i].0 == y by {
                if exists|i: int| #[trigger] first_registration(regs, i) && regs[i].1 && regs[i].0 == y {
                    let i = choose|i: int| #[trigger] first_registration(regs, i) && regs[i].1 && regs[i].0 == y;
                    if i == n {
                        assert(cur.1[prev.1.len() as int] == y);
                    } else {
                        assert(first_registration(init, i));
                        assert(init[i] == regs[i]);
                        assert(prev.1.contains(y));
                        let p = choose|p: int| 0 <= p < prev.1.len() && prev.1[p] == y;
                        assert(cur.1[p] == y);
                    }
                }
                if cur.1.contains(y) {
                    let p = choose|p: int| 0 <= p < cur.1.len() && cur.1[p] == y;
                    if a && p == prev.1.len() {
                        assert(y == x);
                        assert(first_registration(regs, n) && regs[n].1 && regs[n].0 == y);
                    } else {
                        assert(prev.1[p] == y);
                        assert(prev.1.contains(y));
                        let i = choose|i: int| #[trigger] first_registration(init, i) && init[i].1 && init[i].0 == y;
                        assert(first_registration(regs, i));
                        assert(init[i] == regs[i]);
                    }
                }
            }
            assert forall|i: int, k: int|
                first_registration(regs, i) && first_registration(regs, k) && regs[i].1 && regs[k].1 && i < k
                    implies exists|p: int, q: int|
                0 <= p < q < cur.1.len() && #[trigger] cur.1[p] == regs[i].0 && #[trigger] cur.1[q] == regs[k].0 by {
                assert(first_registration(init, i));
                assert(init[i] == regs[i]);
                if k == n {
                    assert(a);
                    assert(prev.1.contains(regs[i].0));
                    let p = choose|p: int| 0 <= p < prev.1.len() && prev.1[p] == regs[i].0;
                    assert(cur.1[p] == regs[i].0);
                    assert(cur.1[prev.1.len() as int] == regs[k].0);
                } else {
                    assert(first_registration(init, k));
                    assert(init[k] == regs[k]);
                    let (p, q) = choose|p: int, q: int|
                        0 <= p < q < prev.1.len() && #[trigger] prev.1[p] == init[i].0 && #[trigger] prev.1[q] == init[k].0;
                    assert(cur.1[p] == regs[i].0 && cur.1[q] == regs[k].0);
                }
            }
            assert(cur.0.no_duplicates());
            assert(cur.1.no_duplicates());
        }
    }
}

/// Every registered spark is either compatible or incompatible, never both.
pub proof fn law_registered_spark_has_one_status<C>(r: SparkRegistry<C>, name: Seq<char>)
    requires
        r.wf(),
        r.names().contains(name),
    ensures
        r.compatible().contains(name) != r.incompatible().contains(name),
{
}

// ---------------------------------------------------------------------------
// Page components
// ---------------------------------------------------------------------------

/// The scripts, styles and meta tags that sparks add to pages: each with the
/// spark that added it and whether it is for development only.
#[derive(Debug)]
pub struct TemplateComponents {
    pub head_scripts: Vec<(String, String, bool)>,
    pub head_styles: Vec<(String, String, bool)>,
    pub meta_tags: Vec<(String, String, bool)>,
    pub footer_scripts: Vec<(String, String, bool)>,
}

/// What a page includes: the components in force and the sparks that added them.
#[derive(Debug)]
pub struct TemplateComponentsView {
    pub head_scripts: Vec<String>,
    pub head_styles: Vec<String>,
    pub meta_tags: Vec<String>,
    pub footer_scripts: Vec<String>,
    pub active_sparks: Vec<String>,
}

/// A component is in force unless it is for development only outside development.
pub open spec fn in_force(c: (String, String, bool), is_dev: bool) -> bool {
    !c.2 || is_dev
}

/// The components in force, in order.
pub open spec fn kept_components(v: Seq<(String, String, bool)>, is_dev: bool) -> Seq<Seq<char>>
    decreases v.len(),
{
    if v.len() == 0 {
        seq![]
    } else {
        let rest = kept_components(v.drop_last(), is_dev);
        if in_force(v.last(), is_dev) {
            rest.push(v.last().1@)
        } else {
            rest
        }
    }
}

/// The sparks of the components in force, in order, repeats included.
pub open spec fn kept_sparks(v: Seq<(String, String, bool)>, is_dev: bool) -> Seq<Seq<char>>
    decreases v.len(),
{
    if v.len() == 0 {
        seq![]
    } else {
        let rest = kept_sparks(v.drop_last(), is_dev);
        if in_force(v.last(), is_dev) {
            rest.push(v.last().0@)
        } else {
            rest
        }
    }
}

/// Each element once, where it first occurs.
pub open spec fn distinct(s: Seq<Seq<char>>) -> Seq<Seq<char>>
    decreases s.len(),
{
    if s.len() == 0 {
        seq![]
    } else {
        let d = distinct(s.drop_last());
        if d.contains(s.last()) {
            d
        } else {
            d.push(s.last())
        }
    }
}

impl TemplateComponents {
    /// No components.
    pub fn new() -> (r: Self)
        ensures
            r.head_scripts@.len() == 0,
            r.head_styles@.len() == 0,
            r.meta_tags@.len() == 0,
            r.footer_scripts@.len() == 0,
    {
        TemplateComponents {
            head_scripts: Vec::new(),
            head_styles: Vec::new(),
            meta_tags: Vec::new(),
            footer_scripts: Vec::new(),
        }
    }

    /// What a page includes, in or out of development: each kind of
    /// component in force, in registration order, and the sparks that added
    /// them, each once.
    pub fn get_view(&self, is_dev: bool) -> (r: TemplateComponentsView)
        ensures
            strings_view(r.head_scripts@) == kept_components(self.head_scripts@, is_dev),
            strings_view(r.head_styles@) == kept_components(self.head_styles@, is_dev),
            strings_view(r.meta_tags@) == kept_components(self.meta_tags@, is_dev),
            strings_view(r.footer_scripts@) == kept_components(self.footer_scripts@, is_dev),
            strings_view(r.active_sparks@) == distinct(
                kept_sparks(self.head_scripts@, is_dev) + kept_sparks(self.head_styles@, is_dev) + kept_sparks(
                    self.meta_tags@,
                    is_dev,
                ) + kept_sparks(self.footer_scripts@, is_dev),
            ),
    {
        let mut active: Vec<String> = Vec::new();
        let ghost s0 = Seq::<Seq<char>>::empty();
        assert(strings_view(active@) =~= distinct(s0));
        let head_scripts = collect_kept(&self.head_scripts, is_dev, &mut active, Ghost(s0));
        let ghost s1 = s0 + kept_sparks(self.head_scripts@, is_dev);
        let head_styles = collect_kept(&self.head_styles, is_dev, &mut active, Ghost(s1));
        let ghost s2 = s1 + kept_sparks(self.head_styles@, is_dev);
        let meta_tags = collect_kept(&self.meta_tags, is_dev, &mut active, Ghost(s2));
        let ghost s3 = s2 + kept_sparks(self.meta_tags@, is_dev);
        let footer_scripts = collect_kept(&self.footer_scripts, is_dev, &mut active, Ghost(s3));
        assert(s0 + kept_sparks(self.head_scripts@, is_dev) =~= kept_sparks(self.head_scripts@, is_dev));
        TemplateComponentsView { head_scripts, head_styles, meta_tags, footer_scripts, active_sparks: active }
    }
}

fn collect_kept(
    items: &Vec<(String, String, bool)>,
    is_dev: bool,
    active: &mut Vec<String>,
    Ghost(before): Ghost<Seq<Seq<char>>>,
) -> (r: Vec<String>)
    requires
        strings_view(old(active)@) == distinct(before),
    ensures
        strings_view(r@) == kept_components(items@, is_dev),
        strings_view(final(active)@) == distinct(before + kept_sparks(items@, is_dev)),
{
    let mut out: Vec<String> = Vec::new();
    let mut i: usize = 0;
    assert(before + kept_sparks(items@.subrange(0, 0), is_dev) =~= before);
    while i < items.len()
        invariant
            i <= items@.len(),
            strings_view(out@) == kept_components(items@.subrange(0, i as int), is_dev),
            strings_view(active@) == distinct(before + kept_sparks(items@.subrange(0, i as int), is_dev)),
        decreases items@.len() - i,
    {
        let ghost p = items@.subrange(0, i + 1);
        proof {
            assert(p.drop_last() =~= items@.subrange(0, i as int));
            assert(p.last() == items@[i as int]);
        }
        let (spark, component, dev_only) = (&items[i].0, &items[i].1, items[i].2);
        if !dev_only || is_dev {
            let ghost o = strings_view(out@);
            out.push(component.clone());
            assert(strings_view(out@) =~= o.push(component@));
            let ghost acc = before + kept_sparks(items@.subrange(0, i as int), is_dev);
            assert(before + kept_sparks(p, is_dev) =~= acc.push(spark@));
            assert((acc.push(spark@)).drop_last() =~= acc);
            proof {
                crate::text::lemma_has_string_contains(active@, spark@);
            }
            if !vec_has_str(active, spark.as_str()) {
                let ghost a = strings_view(active@);
                active.push(spark.clone());
                assert(strings_view(active@) =~= a.push(spark@));
            }
        } else {
            assert(before + kept_sparks(p, is_dev) =~= before + kept_sparks(items@.subrange(0, i as int), is_dev));
        }
        i = i + 1;
    }
    assert(items@.subrange(0, items@.len() as int) =~= items@);
    out
}

/// The component registry.
pub fn init_template_registry(components: &mut Option<TemplateComponents>)
    ensures
        *final(components) matches Some(_),
        *old(components) is Some ==> *final(components) == *old(components),
        *old(components) is None ==> (*final(components) matches Some(c) && c.head_scripts@.len() == 0
            && c.head_styles@.len() == 0 && c.meta_tags@.len() == 0 && c.footer_scripts@.len() == 0),
{
    if components.is_none() {
        *components = Some(TemplateComponents::new());
    }
}

/// One registered component, viewed.
pub open spec fn component(spark: Seq<char>, content: Seq<char>, dev_only: bool) -> (Seq<char>, Seq<char>, bool) {
    (spark, content, dev_only)
}

/// The components of a list, viewed.
pub open spec fn components_view(v: Seq<(String, String, bool)>) -> Seq<(Seq<char>, Seq<char>, bool)> {
    v.map_values(|c: (String, String, bool)| (c.0@, c.1@, c.2))
}

fn push_component(list: &mut Vec<(String, String, bool)>, spark_name: &str, content: String, dev_only: bool)
    ensures
        components_view(final(list)@) == components_view(old(list)@).push(component(spark_name@, content@, dev_only)),
{
    let ghost before = components_view(list@);
    let ghost c = content@;
    list.push((String::from_str(spark_name), content, dev_only));
    assert(components_view(list@) =~= before.push(component(spark_name@, c, dev_only)));
}

/// The kinds of page component.
#[derive(Clone, Copy, Debug, PartialEq, Eq, Structural)]
pub enum ComponentKind {
    HeadScript,
    HeadStyle,
    MetaTag,
    FooterScript,
}

/// The list a kind of component goes to.
pub open spec fn list_of(c: TemplateComponents, kind: ComponentKind) -> Seq<(String, String, bool)> {
    match kind {
        ComponentKind::HeadScript => c.head_scripts@,
        ComponentKind::HeadStyle => c.head_styles@,
        ComponentKind::MetaTag => c.meta_tags@,
        ComponentKind::FooterScript => c.footer_scripts@,
    }
}

/// Registering adds the component to its kind's list and leaves the other
/// lists alone; without a registry nothing happens.
pub open spec fn registered(
    old: Option<TemplateComponents>,
    new: Option<TemplateComponents>,
    kind: ComponentKind,
    spark: Seq<char>,
    content: Seq<char>,
    dev_only: bool,
) -> bool {
    match old {
        None => new is None,
        Some(o) => new matches Some(n) && forall|k: ComponentKind| #[trigger] components_view(list_of(n, k)) == if k
            == kind {
            components_view(list_of(o, k)).push(component(spark, content, dev_only))
        } else {
            components_view(list_of(o, k))
        },
    }
}

fn register_component(
    components: &mut Option<TemplateComponents>,
    kind: ComponentKind,
    spark_name: &str,
    content: String,
    dev_only: bool,
)
    ensures
        registered(*old(components), *final(components), kind, spark_name@, content@, dev_only),
{
    let ghost c = content@;
    match components {
        Some(cs) => {
            match kind {
                ComponentKind::HeadScript => push_component(&mut cs.head_scripts, spark_name, content, dev_only),
                ComponentKind::HeadStyle => push_component(&mut cs.head_styles, spark_name, content, dev_only),
                ComponentKind::MetaTag => push_component(&mut cs.meta_tags, spark_name, content, dev_only),
                ComponentKind::FooterScript => push_component(&mut cs.footer_scripts, spark_name, content, dev_only),
            }
        },
        None => {},
    }
}

/// Adds a spark's script to page heads.
pub fn register_head_script(components: &mut Option<TemplateComponents>, spark_name: &str, script: String, dev_only: bool)
    ensures
        registered(*old(components), *final(components), ComponentKind::HeadScript, spark_name@, script@, dev_only),
{
    register_component(components, ComponentKind::HeadScript, spark_name, script, dev_only)
}

/// Adds a spark's script to page footers.
pub fn register_footer_script(
    components: &mut Option<TemplateComponents>,
    spark_name: &str,
    script: String,
    dev_only: bool,
)
    ensures
        registered(*old(components), *final(components), ComponentKind::FooterScript, spark_name@, script@, dev_only),
{
    register_component(components, ComponentKind::FooterScript, spark_name, script, dev_only)
}

/// Adds a spark's style sheet to page heads.
pub fn register_head_style(components: &mut Option<TemplateComponents>, spark_name: &str, style: String, dev_only: bool)
    ensures
        registered(*old(components), *final(components), ComponentKind::HeadStyle, spark_name@, style@, dev_only),
{
    register_component(components, ComponentKind::HeadStyle, spark_name, style, dev_only)
}

/// Adds a spark's meta tag to page heads.
pub fn register_meta_tag(components: &mut Option<TemplateComponents>, spark_name: &str, meta: String, dev_only: bool)
    ensures
        registered(*old(components), *final(components), ComponentKind::MetaTag, spark_name@, meta@, dev_only),
{
    register_component(components, ComponentKind::MetaTag, spark_name, meta, dev_only)
}

/// What pages include; nothing before the registry exists.
pub fn get_template_components(components: &Option<TemplateComponents>, is_dev: bool) -> (r: TemplateComponentsView)
    ensures
        match components {
            Some(c) => {
                &&& strings_view(r.head_scripts@) == kept_components(c.head_scripts@, is_dev)
                &&& strings_view(r.head_styles@) == kept_components(c.head_styles@, is_dev)
                &&& strings_view(r.meta_tags@) == kept_components(c.meta_tags@, is_dev)
                &&& strings_view(r.footer_scripts@) == kept_components(c.footer_scripts@, is_dev)
                &&& strings_view(r.active_sparks@) == distinct(
                    kept_sparks(c.head_scripts@, is_dev) + kept_sparks(c.head_styles@, is_dev) + kept_sparks(
                        c.meta_tags@,
                        is_dev,
                    ) + kept_sparks(c.footer_scripts@, is_dev),
                )
            },
            None => r.head_scripts@.len() == 0 && r.head_styles@.len() == 0 && r.meta_tags@.len() == 0
                && r.footer_scripts@.len() == 0 && r.active_sparks@.len() == 0,
        },
{
    match components {
        Some(c) => c.get_view(is_dev),
        None => TemplateComponentsView {
            head_scripts: Vec::new(),
            head_styles: Vec::new(),
            meta_tags: Vec::new(),
            footer_scripts: Vec::new(),
            active_sparks: Vec::new(),
        },
    }
}

// ---------------------------------------------------------------------------
// Start-up banner
// ---------------------------------------------------------------------------

/// Announces the loaded sparks at lift-off.
pub struct SparkLoggingFairing;

/// A banner line for one spark, with its note.
pub open spec fn spark_line(name: Seq<char>, note: Seq<char>) -> Seq<char> {
    "   \x1b[1;38;2;255;255;255m>>\x1b[0m \x1b[38;2;76;11;227m"@ + name + "\x1b[0m \x1b[38;2;255;255;255m("@ + note
        + ")\x1b[0m"@
}

/// The note of a spark: its description when its creator is known,
/// `unknown description` otherwise, or `initialized` without a registry.
pub open spec fn spark_note(descriptions: Option<Seq<Option<String>>>, i: int) -> Seq<char> {
    match descriptions {
        Some(d) => match d[i] {
            Some(text) => text@,
            None => "unknown description"@,
        },
        None => "initialized"@,
    }
}

impl SparkLoggingFairing {
    /// The lines announcing the available sparks; `descriptions[i]` is the
    /// description of `sparks[i]` (`None` when it has no creator), and is
    /// absent altogether without a registry.
    pub fn liftoff_lines(&self, sparks: &Vec<String>, descriptions: Option<&Vec<Option<String>>>) -> (r: Vec<String>)
        requires
            descriptions matches Some(d) ==> d@.len() == sparks@.len(),
        ensures
            sparks@.len() == 0 ==> strings_view(r@) == seq!["\x1b[38;2;148;22;127m✨ No Sparks\x1b[34m:\x1b[0m Loaded"@],
            sparks@.len() > 0 ==> {
                &&& r@.len() == sparks@.len() + 1
                &&& r@[0]@ == "\x1b[38;2;148;22;127m✨ Sparks\x1b[34m:\x1b[0m"@
                &&& forall|i: int| 0 <= i < sparks@.len() ==> #[trigger] r@[i + 1]@ == spark_line(
                    sparks@[i]@,
                    spark_note(
                        match descriptions {
                            Some(d) => Some(d@),
                            None => None,
                        },
                        i,
                    ),
                )
            },
    {
        let mut out: Vec<String> = Vec::new();
        if sparks.len() == 0 {
            out.push(String::from_str("\x1b[38;2;148;22;127m✨ No Sparks\x1b[34m:\x1b[0m Loaded"));
            assert(strings_view(out@) =~= seq!["\x1b[38;2;148;22;127m✨ No Sparks\x1b[34m:\x1b[0m Loaded"@]);
            return out;
        }
        out.push(String::from_str("\x1b[38;2;148;22;127m✨ Sparks\x1b[34m:\x1b[0m"));
        let ghost dv = match descriptions {
            Some(d) => Some(d@),
            None => None::<Seq<Option<String>>>,
        };
        let mut i: usize = 0;
        while i < sparks.len()
            invariant
                i <= sparks@.len(),
                out@.len() == i + 1,
                out@[0]@ == "\x1b[38;2;148;22;127m✨ Sparks\x1b[34m:\x1b[0m"@,
                descriptions matches Some(d) ==> d@.len() == sparks@.len(),
                dv == match descriptions {
                    Some(d) => Some(d@),
                    None => None::<Seq<Option<String>>>,
                },
                forall|k: int| 0 <= k < i ==> #[trigger] out@[k + 1]@ == spark_line(sparks@[k]@, spark_note(dv, k)),
            decreases sparks@.len() - i,
        {
            let note: &str = match descriptions {
                Some(d) => match &d[i] {
                    Some(text) => text.as_str(),
                    None => "unknown description",
                },
                None => "initialized",
            };
            let line = String::from_str("   \x1b[1;38;2;255;255;255m>>\x1b[0m \x1b[38;2;76;11;227m").concat(
                sparks[i].as_str(),
            ).concat("\x1b[0m \x1b[38;2;255;255;255m(").concat(note).concat(")\x1b[0m");
            out.push(line);
            i = i + 1;
        }
        out
    }
}

// ---------------------------------------------------------------------------
// Spark settings
// ---------------------------------------------------------------------------

/// A setting's value as read from a TOML table: a string, an integer, a
/// float (by its text), a boolean, or anything else.
#[derive(Debug)]
pub enum ConfigValue {
    Text(String),
    Integer(i64),
    Float(String),
    Boolean(bool),
    Other,
}

/// A table of settings, in order; `None` stands for a value that is not a table.
pub type ConfigTable = Option<Vec<(String, ConfigValue)>>;

/// A spark's settings: the defaults its manifest declares and the overrides
/// the application configures.
#[derive(Debug)]
pub struct SparkConfig {
    pub defaults: ConfigTable,
    pub overrides: ConfigTable,
}

/// The settings of every spark that declared or was given any, by name.
pub type SparkConfigs = Vec<(String, SparkConfig)>;

/// An empty table.
pub open spec fn empty_table(t: ConfigTable) -> bool {
    t matches Some(v) && v@.len() == 0
}

/// The settings of the first spark so named.
pub open spec fn config_of(c: Seq<(String, SparkConfig)>, name: Seq<char>) -> Option<SparkConfig>
    decreases c.len(),
{
    if c.len() == 0 {
        None
    } else if c[0].0@ == name {
        Some(c[0].1)
    } else {
        config_of(c.drop_first(), name)
    }
}

/// Creates the settings registry unless it exists.
pub fn init_spark_configs(configs: &mut Option<SparkConfigs>)
    ensures
        *final(configs) matches Some(_),
        *old(configs) is Some ==> *final(configs) == *old(configs),
        *old(configs) is None ==> (*final(configs) matches Some(c) && c@.len() == 0),
{
    if configs.is_none() {
        *configs = Some(Vec::new());
    }
}

fn config_index(configs: &SparkConfigs, name: &str) -> (r: Option<usize>)
    ensures
        match r {
            Some(i) => i < configs@.len() && configs@[i as int].0@ == name@ && config_of(configs@, name@) == Some(
                configs@[i as int].1,
            ) && forall|k: int| 0 <= k < i ==> (#[trigger] configs@[k]).0@ != name@,
            None => config_of(configs@, name@) is None,
        },
{
    let mut i: usize = 0;
    assert(configs@.subrange(0, configs@.len() as int) =~= configs@);
    while i < configs.len()
        invariant
            i <= configs@.len(),
            forall|k: int| 0 <= k < i ==> (#[trigger] configs@[k]).0@ != name@,
            config_of(configs@, name@) == config_of(configs@.subrange(i as int, configs@.len() as int), name@),
        decreases configs@.len() - i,
    {
        let ghost rest = configs@.subrange(i as int, configs@.len() as int);
        if str_eq(configs[i].0.as_str(), name) {
            assert(rest[0] == configs@[i as int]);
            return Some(i);
        }
        assert(rest.drop_first() =~= configs@.subrange(i + 1, configs@.len() as int));
        i = i + 1;
    }
    assert(configs@.subrange(i as int, configs@.len() as int) =~= Seq::<(String, SparkConfig)>::empty());
    None
}

/// Records the defaults a spark's manifest declares; a spark new to the
/// registry starts with no overrides. Without a registry nothing happens.
pub fn register_spark_manifest(configs: &mut Option<SparkConfigs>, spark_name: &str, defaults: ConfigTable)
    ensures
        match *old(configs) {
            None => *final(configs) is None,
            Some(o) => *final(configs) matches Some(n) && (forall|x: Seq<char>|
                x != spark_name@ ==> #[trigger] config_of(n@, x) == config_of(o@, x)) && match config_of(
                n@,
                spark_name@,
            ) {
                Some(c) => c.defaults == defaults && match config_of(o@, spark_name@) {
                    Some(prev) => c.overrides == prev.overrides,
                    None => empty_table(c.overrides),
                },
                None => false,
            },
        },
{
    match configs {
        None => {},
        Some(cs) => {
            match config_index(cs, spark_name) {
                Some(i) => {
                    let (name, old_config) = cs.remove(i);
                    let entry = (name, SparkConfig { defaults, overrides: old_config.overrides });
                    cs.insert(i, entry);
                    proof {
                        lemma_config_of_replaced(old(configs)->0@, cs@, i as int, spark_name@);
                        assert forall|x: Seq<char>| x != spark_name@ implies #[trigger] config_of(cs@, x)
                            == config_of(old(configs)->0@, x) by {
                            lemma_config_of_other_replaced(old(configs)->0@, cs@, i as int, spark_name@, x);
                        }
                    }
                },
                None => {
                    let entry = (String::from_str(spark_name), SparkConfig { defaults, overrides: Some(Vec::new()) });
                    let ghost before = cs@;
                    cs.push(entry);
                    proof {
                        lemma_config_of_pushed(before, cs@, spark_name@);
                        assert forall|x: Seq<char>| x != spark_name@ implies #[trigger] config_of(cs@, x)
                            == config_of(before, x) by {
                            lemma_config_of_other_pushed(before, cs@.last(), x);
                            assert(cs@ =~= before.push(cs@.last()));
                        }
                    }
                },
            }
        },
    }
}

/// Records the overrides the application configures for a spark; a spark
/// new to the registry starts with no defaults. Without a registry nothing
/// happens.
pub fn register_spark_overrides(configs: &mut Option<SparkConfigs>, spark_name: &str, overrides: ConfigTable)
    ensures
        match *old(configs) {
            None => *final(configs) is None,
            Some(o) => *final(configs) matches Some(n) && (forall|x: Seq<char>|
                x != spark_name@ ==> #[trigger] config_of(n@, x) == config_of(o@, x)) && match config_of(
                n@,
                spark_name@,
            ) {
                Some(c) => c.overrides == overrides && match config_of(o@, spark_name@) {
                    Some(prev) => c.defaults == prev.defaults,
                    None => empty_table(c.defaults),
                },
                None => false,
            },
        },
{
    match configs {
        None => {},
        Some(cs) => {
            match config_index(cs, spark_name) {
                Some(i) => {
                    let (name, old_config) = cs.remove(i);
                    let entry = (name, SparkConfig { defaults: old_config.defaults, overrides });
                    cs.insert(i, entry);
                    proof {
                        lemma_config_of_replaced(old(configs)->0@, cs@, i as int, spark_name@);
                        assert forall|x: Seq<char>| x != spark_name@ implies #[trigger] config_of(cs@, x)
                            == config_of(old(configs)->0@, x) by {
                            lemma_config_of_other_replaced(old(configs)->0@, cs@, i as int, spark_name@, x);
                        }
                    }
                },
                None => {
                    let entry = (String::from_str(spark_name), SparkConfig { defaults: Some(Vec::new()), overrides });
                    let ghost before = cs@;
                    cs.push(entry);
                    proof {
                        lemma_config_of_pushed(before, cs@, spark_name@);
                        assert forall|x: Seq<char>| x != spark_name@ implies #[trigger] config_of(cs@, x)
                            == config_of(before, x) by {
                            lemma_config_of_other_pushed(before, cs@.last(), x);
                            assert(cs@ =~= before.push(cs@.last()));
                        }
                    }
                },
            }
        },
    }
}

/// Replacing the entry of one name leaves every other name's settings.
proof fn lemma_config_of_other_replaced(
    a: Seq<(String, SparkConfig)>,
    b: Seq<(String, SparkConfig)>,
    i: int,
    name: Seq<char>,
    x: Seq<char>,
)
    requires
        0 <= i < a.len(),
        a.len() == b.len(),
        a[i].0@ == name,
        b[i].0@ == name,
        forall|k: int| 0 <= k < a.len() && k != i ==> b[k] == a[k],
        x != name,
    ensures
        config_of(b, x) == config_of(a, x),
    decreases a.len(),
{
    if i == 0 {
        assert(a.drop_first() =~= b.drop_first()) by {
            assert forall|k: int| 0 <= k < a.drop_first().len() implies a.drop_first()[k] == b.drop_first()[k] by {
                assert(b[k + 1] == a[k + 1]);
            }
        }
    } else {
        assert(b[0] == a[0]);
        if a[0].0@ != x {
            lemma_config_of_other_replaced(a.drop_first(), b.drop_first(), i - 1, name, x);
        }
    }
}

/// Adding an entry for one name leaves every other name's settings.
proof fn lemma_config_of_other_pushed(a: Seq<(String, SparkConfig)>, e: (String, SparkConfig), x: Seq<char>)
    requires
        e.0@ != x,
    ensures
        config_of(a.push(e), x) == config_of(a, x),
    decreases a.len(),
{
    if a.len() == 0 {
        assert(a.push(e)[0] == e);
        assert(a.push(e).drop_first() =~= Seq::<(String, SparkConfig)>::empty());
        assert(config_of(a.push(e).drop_first(), x) is None);
    } else {
        assert(a.push(e)[0] == a[0]);
        assert(a.push(e).drop_first() =~= a.drop_first().push(e));
        lemma_config_of_other_pushed(a.drop_first(), e, x);
    }
}

proof fn lemma_config_of_replaced(a: Seq<(String, SparkConfig)>, b: Seq<(String, SparkConfig)>, i: int, name: Seq<char>)
    requires
        0 <= i < a.len(),
        a.len() == b.len(),
        a[i].0@ == name,
        b[i].0@ == name,
        forall|k: int| 0 <= k < i ==> (#[trigger] a[k]).0@ != name,
        forall|k: int| 0 <= k < a.len() && k != i ==> b[k] == a[k],
    ensures
        config_of(b, name) == Some(b[i].1),
    decreases a.len(),
{
    if i == 0 {
    } else {
        assert(b[0] == a[0]);
        assert(a[0].0@ != name);
        lemma_config_of_replaced(a.drop_first(), b.drop_first(), i - 1, name);
    }
}

proof fn lemma_config_of_pushed(a: Seq<(String, SparkConfig)>, b: Seq<(String, SparkConfig)>, name: Seq<char>)
    requires
        config_of(a, name) is None,
        b.len() == a.len() + 1,
        forall|k: int| 0 <= k < a.len() ==> b[k] == a[k],
        b[a.len() as int].0@ == name,
    ensures
        config_of(b, name) == Some(b[a.len() as int].1),
    decreases a.len(),
{
    if a.len() == 0 {
    } else {
        assert(b[0] == a[0]);
        lemma_config_of_pushed(a.drop_first(), b.drop_first(), name);
    }
}

/// The text of a setting that can be read as text: a string as it is, a
/// number or a boolean by its rendering.
pub open spec fn value_text(v: ConfigValue) -> Option<Seq<char>> {
    match v {
        ConfigValue::Text(s) => Some(s@),
        ConfigValue::Integer(i) => Some(crate::text::signed_decimal(i as int)),
        ConfigValue::Float(t) => Some(t@),
        ConfigValue::Boolean(b) => Some(
            if b {
                "true"@
            } else {
                "false"@
            },
        ),
        ConfigValue::Other => None,
    }
}

/// The value of the first setting so named in a table.
pub open spec fn table_value(t: ConfigTable, key: Seq<char>) -> Option<ConfigValue> {
    match t {
        Some(v) => table_lookup(v@, key),
        None => None,
    }
}

/// The value of the first setting so named.
pub open spec fn table_lookup(v: Seq<(String, ConfigValue)>, key: Seq<char>) -> Option<ConfigValue>
    decreases v.len(),
{
    if v.len() == 0 {
        None
    } else if v[0].0@ == key {
        Some(v[0].1)
    } else {
        table_lookup(v.drop_first(), key)
    }
}

/// A boolean as `str::parse::<bool>` reads it.
pub open spec fn parse_bool(s: Seq<char>) -> Option<bool> {
    if s == "true"@ {
        Some(true)
    } else if s == "false"@ {
        Some(false)
    } else {
        None
    }
}

fn parse_bool_exec(s: &str) -> (r: Option<bool>)
    ensures
        r == parse_bool(s@),
{
    if str_eq(s, "true") {
        Some(true)
    } else if str_eq(s, "false") {
        Some(false)
    } else {
        None
    }
}

/// A table's setting read as a boolean.
pub open spec fn table_bool(t: ConfigTable, key: Seq<char>) -> Option<bool> {
    match table_value(t, key) {
        Some(v) => match value_text(v) {
            Some(s) => parse_bool(s),
            None => None,
        },
        None => None,
    }
}

/// A spark's boolean setting: the environment's value when it reads as a
/// boolean, else the override, else the default; `env_value` is the value of
/// the `<SPARK>_<KEY>` variable, if set.
pub open spec fn spark_bool(configs: Option<Seq<(String, SparkConfig)>>, spark: Seq<char>, key: Seq<char>, env_value: Option<Seq<char>>) -> Option<bool> {
    match env_value {
        Some(v) if parse_bool(v) is Some => parse_bool(v),
        _ => match configs {
            Some(c) => match config_of(c, spark) {
                Some(sc) => if table_bool(sc.overrides, key) is Some {
                    table_bool(sc.overrides, key)
                } else {
                    table_bool(sc.defaults, key)
                },
                None => None,
            },
            None => None,
        },
    }
}

fn value_text_exec(v: &ConfigValue) -> (r: Option<String>)
    ensures
        match r {
            Some(s) => value_text(*v) == Some(s@),
            None => value_text(*v) is None,
        },
{
    match v {
        ConfigValue::Text(s) => Some(s.clone()),
        ConfigValue::Integer(i) => {
            let mut out = String::new();
            crate::text::push_signed_decimal(&mut out, *i);
            Some(out)
        },
        ConfigValue::Float(t) => Some(t.clone()),
        ConfigValue::Boolean(b) => {
            if *b {
                Some(String::from_str("true"))
            } else {
                Some(String::from_str("false"))
            }
        },
        ConfigValue::Other => None,
    }
}

fn table_bool_exec(t: &ConfigTable, key: &str) -> (r: Option<bool>)
    ensures
        r == table_bool(*t, key@),
{
    let v = match t {
        None => {
            return None;
        },
        Some(v) => v,
    };
    let mut i: usize = 0;
    assert(v@.subrange(0, v@.len() as int) =~= v@);
    assert(table_value(*t, key@) == table_lookup(v@, key@));
    while i < v.len()
        invariant
            i <= v@.len(),
            table_value(*t, key@) == table_lookup(v@, key@),
            table_lookup(v@, key@) == table_lookup(v@.subrange(i as int, v@.len() as int), key@),
        decreases v@.len() - i,
    {
        let ghost rest = v@.subrange(i as int, v@.len() as int);
        if str_eq(v[i].0.as_str(), key) {
            assert(rest[0] == v@[i as int]);
            assert(table_value(*t, key@) == Some(v@[i as int].1));
            return match value_text_exec(&v[i].1) {
                Some(s) => parse_bool_exec(s.as_str()),
                None => None,
            };
        }
        assert(rest.drop_first() =~= v@.subrange(i + 1, v@.len() as int));
        i = i + 1;
    }
    assert(v@.subrange(i as int, v@.len() as int) =~= Seq::<(String, ConfigValue)>::empty());
    None
}

/// A spark's boolean setting (the environment first, then the configured
/// override, then the manifest's default), if any of them reads as a boolean.
pub fn get_spark_config_bool(configs: &Option<SparkConfigs>, spark_name: &str, key: &str, env_value: Option<&str>) -> (r: Option<bool>)
    ensures
        r == spark_bool(
            match configs {
                Some(c) => Some(c@),
                None => None,
            },
            spark_name@,
            key@,
            match env_value {
                Some(v) => Some(v@),
                None => None,
            },
        ),
{
    match env_value {
        Some(v) => {
            match parse_bool_exec(v) {
                Some(b) => {
                    return Some(b);
                },
                None => {},
            }
        },
        None => {},
    }
    let cs = match configs {
        None => {
            return None;
        },
        Some(cs) => cs,
    };
    match config_index(cs, spark_name) {
        None => None,
        Some(i) => {
            let from_override = table_bool_exec(&cs[i].1.overrides, key);
            if from_override.is_some() {
                from_override
            } else {
                table_bool_exec(&cs[i].1.defaults, key)
            }
        },
    }
}

/// The variable that overrides a spark's setting: `<SPARK>_<KEY>` in upper case.
pub uninterp spec fn upper_case(s: Seq<char>) -> Seq<char>;

/// `str::to_uppercase`: the upper-case form of a string (by Unicode's case
/// mapping, which may change its length).
#[verifier::external_body]
fn to_upper(s: &str) -> (r: String)
    ensures
        r@ == upper_case(s@),
{
    s.to_uppercase()
}

/// The name of the variable that overrides a spark's setting.
pub fn spark_setting_variable(spark_name: &str, key: &str) -> (r: String)
    ensures
        r@ == upper_case(spark_name@) + "_"@ + upper_case(key@),
{
    let a = to_upper(spark_name);
    let b = to_upper(key);
    a.concat("_").concat(b.as_str())
}

/// A boolean setting reads back as itself; a string setting reads as a
/// boolean exactly when it is `true` or `false`; a missing setting, or one
/// that is not a plain value, reads as no boolean.
pub proof fn law_boolean_settings_read_back(t: ConfigTable, key: Seq<char>)
    ensures
        forall|b: bool| table_value(t, key) == Some(ConfigValue::Boolean(b)) ==> table_bool(t, key) == Some(b),
        forall|s: String|
            table_value(t, key) == Some(ConfigValue::Text(s)) ==> table_bool(t, key) == if s@ == "true"@ {
                Some(true)
            } else if s@ == "false"@ {
                Some(false)
            } else {
                None
            },
        table_value(t, key) is None ==> table_bool(t, key) is None,
        table_value(t, key) == Some(ConfigValue::Other) ==> table_bool(t, key) is None,
{
    reveal_strlit("true");
    reveal_strlit("false");
    assert("true"@ != "false"@) by {
        assert("true"@.len() != "false"@.len());
    }
}

/// A spark's boolean setting comes from the environment when its variable
/// reads `true` or `false`; otherwise from the override when the override
/// holds a boolean; otherwise from the default when the override has no such
/// setting and the default holds a boolean.
pub proof fn law_spark_bool_precedence(
    configs: Seq<(String, SparkConfig)>,
    spark: Seq<char>,
    key: Seq<char>,
    env_value: Option<Seq<char>>,
    b: bool,
)
    ensures
        env_value == Some("true"@) ==> spark_bool(Some(configs), spark, key, env_value) == Some(true),
        env_value == Some("false"@) ==> spark_bool(Some(configs), spark, key, env_value) == Some(false),
        forall|sc: SparkConfig|
            #![trigger table_value(sc.overrides, key)]
            env_value is None && config_of(configs, spark) == Some(sc) && table_value(sc.overrides, key) == Some(
                ConfigValue::Boolean(b),
            ) ==> spark_bool(Some(configs), spark, key, env_value) == Some(b),
        forall|sc: SparkConfig|
            #![trigger table_value(sc.defaults, key)]
            env_value is None && config_of(configs, spark) == Some(sc) && table_value(sc.overrides, key) is None
                && table_value(sc.defaults, key) == Some(ConfigValue::Boolean(b)) ==> spark_bool(
                Some(configs),
                spark,
                key,
                env_value,
            ) == Some(b),
        env_value is None && config_of(configs, spark) is None ==> spark_bool(Some(configs), spark, key, env_value)
            is None,
{
    reveal_strlit("true");
    reveal_strlit("false");
    assert("true"@ != "false"@) by {
        assert("true"@.len() != "false"@.len());
    }
    if let Some(sc) = config_of(configs, spark) {
        law_boolean_settings_read_back(sc.overrides, key);
        law_boolean_settings_read_back(sc.defaults, key);
    }
}

} // verus!
