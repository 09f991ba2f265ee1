//! The token registry: per tenant and user, the current token version and the
//! refresh tokens already spent.
//!
//! A token carries the version that was current when it was issued; raising
//! the version revokes every token issued before. A refresh token may be
//! spent once: its identifier is recorded when it is used.
use std::collections::HashMap;
use vstd::prelude::*;

use crate::assoc::{
    assoc_map, distinct_keys, lemma_assoc_map_dom, lemma_assoc_map_index, lemma_assoc_map_push,
    lemma_assoc_map_update,
};
use crate::meltdown::MeltDown;
use crate::text::{chars_of, split, split_exec, str_eq, string_of, strings_view, trim, trim_exec, vec_has_str};

verus! {

broadcast use vstd::std_specs::hash::group_hash_axioms;

/// The state of one tenant: each known user's token version, and the refresh
/// tokens each user has spent.
pub struct TenantView {
    pub versions: Map<i32, u32>,
    pub used: Map<i32, Set<Seq<char>>>,
}

/// The state of a tenant that nothing has happened to.
pub open spec fn tv_empty() -> TenantView {
    TenantView { versions: Map::empty(), used: Map::empty() }
}

/// A user's token version; users without one are at version 1.
pub open spec fn tv_version(tv: TenantView, user: i32) -> u32 {
    if tv.versions.contains_key(user) {
        tv.versions[user]
    } else {
        1
    }
}

/// The refresh tokens a user has spent.
pub open spec fn tv_used(tv: TenantView, user: i32) -> Set<Seq<char>> {
    if tv.used.contains_key(user) {
        tv.used[user]
    } else {
        Set::empty()
    }
}

/// Registering a user: a new user starts at version 1 with no spent tokens;
/// a known user is left as is.
pub open spec fn tv_register(tv: TenantView, user: i32) -> TenantView {
    if tv.versions.contains_key(user) {
        tv
    } else {
        TenantView { versions: tv.versions.insert(user, 1), used: tv.used.insert(user, Set::empty()) }
    }
}

/// Revoking a user's tokens: the version goes up by one and the record of
/// spent refresh tokens, if any, is emptied.
pub open spec fn tv_invalidate(tv: TenantView, user: i32) -> TenantView {
    TenantView {
        versions: tv.versions.insert(user, (tv_version(tv, user) + 1) as u32),
        used: if tv.used.contains_key(user) {
            tv.used.insert(user, Set::empty())
        } else {
            tv.used
        },
    }
}

/// Forgetting a known user.
pub open spec fn tv_remove(tv: TenantView, user: i32) -> TenantView {
    if tv.versions.contains_key(user) {
        TenantView { versions: tv.versions.remove(user), used: tv.used.remove(user) }
    } else {
        tv
    }
}

/// Recording that a user spent a refresh token.
pub open spec fn tv_mark(tv: TenantView, user: i32, jti: Seq<char>) -> TenantView {
    TenantView { versions: tv.versions, used: tv.used.insert(user, tv_used(tv, user).insert(jti)) }
}

/// Forgetting a user's spent refresh tokens, when there is a record of them.
pub open spec fn tv_clear(tv: TenantView, user: i32) -> TenantView {
    if tv.used.contains_key(user) {
        TenantView { versions: tv.versions, used: tv.used.insert(user, Set::empty()) }
    } else {
        tv
    }
}

/// Seeding a user from the user table: version 1, nothing spent.
pub open spec fn tv_seed(tv: TenantView, user: i32) -> TenantView {
    TenantView { versions: tv.versions.insert(user, 1), used: tv.used.insert(user, Set::empty()) }
}

/// Seeding each of the users in turn.
pub open spec fn tv_seed_all(tv: TenantView, users: Seq<i32>) -> TenantView
    decreases users.len(),
{
    if users.len() == 0 {
        tv
    } else {
        tv_seed(tv_seed_all(tv, users.drop_last()), users.last())
    }
}

/// The state of a tenant in the registry; an empty state when it has none.
pub open spec fn tenant_of(r: Map<Seq<char>, TenantView>, tenant: Seq<char>) -> TenantView {
    if r.contains_key(tenant) {
        r[tenant]
    } else {
        tv_empty()
    }
}

/// The current token version of a user of a tenant.
pub open spec fn token_version(r: Map<Seq<char>, TenantView>, tenant: Seq<char>, user: i32) -> u32 {
    tv_version(tenant_of(r, tenant), user)
}

/// A token of the given version is still valid: it is not older than the
/// current version.
pub open spec fn token_valid(
    r: Map<Seq<char>, TenantView>,
    tenant: Seq<char>,
    user: i32,
    version: u32,
) -> bool {
    version >= token_version(r, tenant, user)
}

/// Whether a user of a tenant has spent the refresh token `jti`.
pub open spec fn refresh_used(
    r: Map<Seq<char>, TenantView>,
    tenant: Seq<char>,
    user: i32,
    jti: Seq<char>,
) -> bool {
    tv_used(tenant_of(r, tenant), user).contains(jti)
}

/// The registry after revoking the tokens of a user of a tenant.
pub open spec fn after_invalidate(
    r: Map<Seq<char>, TenantView>,
    tenant: Seq<char>,
    user: i32,
) -> Map<Seq<char>, TenantView> {
    r.insert(tenant, tv_invalidate(tenant_of(r, tenant), user))
}

/// The registry after registering a user of a tenant.
pub open spec fn after_register(
    r: Map<Seq<char>, TenantView>,
    tenant: Seq<char>,
    user: i32,
) -> Map<Seq<char>, TenantView> {
    r.insert(tenant, tv_register(tenant_of(r, tenant), user))
}

/// The registry after forgetting a user of a tenant.
pub open spec fn after_remove(
    r: Map<Seq<char>, TenantView>,
    tenant: Seq<char>,
    user: i32,
) -> Map<Seq<char>, TenantView> {
    if r.contains_key(tenant) {
        r.insert(tenant, tv_remove(r[tenant], user))
    } else {
        r
    }
}

/// The registry after recording a spent refresh token.
pub open spec fn after_mark(
    r: Map<Seq<char>, TenantView>,
    tenant: Seq<char>,
    user: i32,
    jti: Seq<char>,
) -> Map<Seq<char>, TenantView> {
    r.insert(tenant, tv_mark(tenant_of(r, tenant), user, jti))
}

/// The registry after forgetting a user's spent refresh tokens.
pub open spec fn after_clear(
    r: Map<Seq<char>, TenantView>,
    tenant: Seq<char>,
    user: i32,
) -> Map<Seq<char>, TenantView> {
    if r.contains_key(tenant) {
        r.insert(tenant, tv_clear(r[tenant], user))
    } else {
        r
    }
}

/// The registry after seeding a tenant with its users.
pub open spec fn after_seed(
    r: Map<Seq<char>, TenantView>,
    tenant: Seq<char>,
    users: Seq<i32>,
) -> Map<Seq<char>, TenantView> {
    r.insert(tenant, tv_seed_all(tenant_of(r, tenant), users))
}

/// The number of users known to a tenant.
pub open spec fn tenant_size(r: Map<Seq<char>, TenantView>, tenant: Seq<char>) -> nat {
    if r.contains_key(tenant) {
        r[tenant].versions.len()
    } else {
        0
    }
}

/// A tenant's users, and each user's spent refresh tokens, are finitely many.
pub open spec fn tenant_finite(tv: TenantView) -> bool {
    &&& tv.versions.dom().finite()
    &&& forall|u: i32| #[trigger] tv.used.contains_key(u) ==> tv.used[u].finite()
}

/// Every tenant of the registry is finite.
pub open spec fn registry_finite(r: Map<Seq<char>, TenantView>) -> bool {
    forall|t: Seq<char>| #[trigger] r.contains_key(t) ==> tenant_finite(r[t])
}

/// Whether a tenant knows a user.
pub open spec fn user_known(r: Map<Seq<char>, TenantView>, tenant: Seq<char>, user: i32) -> bool {
    tenant_of(r, tenant).versions.contains_key(user)
}

/// The number of users of the listed tenants, added up in list order.
pub open spec fn users_of(r: Map<Seq<char>, TenantView>, names: Seq<Seq<char>>) -> nat
    decreases names.len(),
{
    if names.len() == 0 {
        0
    } else {
        users_of(r, names.drop_last()) + tenant_size(r, names.last())
    }
}

/// One tenant's part of the registry.
pub struct TenantRegistry {
    token_versions: HashMap<i32, u32>,
    used_refresh_tokens: HashMap<i32, Vec<String>>,
}

impl View for TenantRegistry {
    type V = TenantView;

    closed spec fn view(&self) -> TenantView {
        TenantView {
            versions: self.token_versions@,
            used: self.used_refresh_tokens@.map_values(|v: Vec<String>| strings_view(v@).to_set()),
        }
    }
}

impl TenantRegistry {
    /// No spent refresh token is recorded twice for a user.
    pub closed spec fn wf(&self) -> bool {
        forall|u: i32| #[trigger]
            self.used_refresh_tokens@.contains_key(u) ==> strings_view(
                self.used_refresh_tokens@[u]@,
            ).no_duplicates()
    }

    /// A tenant's state is finite.
    proof fn lemma_finite(&self)
        ensures
            tenant_finite(self@),
    {
        broadcast use vstd::std_specs::hash::axiom_hashmap_view_finite_dom, vstd::seq_lib::seq_to_set_is_finite;

        assert(self@.versions.dom().finite());
        assert forall|u: i32| #[trigger] self@.used.contains_key(u) implies self@.used[u].finite() by {
            assert(self@.used[u] == strings_view(self.used_refresh_tokens@[u]@).to_set());
        }
    }

    /// An empty tenant state.
    fn new() -> (r: Self)
        ensures
            r@ == tv_empty(),
            r.wf(),
    {
        let r = TenantRegistry { token_versions: HashMap::new(), used_refresh_tokens: HashMap::new() };
        assert(r@.used =~= Map::<i32, Set<Seq<char>>>::empty());
        r
    }

    /// A user's token version.
    fn version(&self, user: i32) -> (r: u32)
        ensures
            r == tv_version(self@, user),
    {
        match self.token_versions.get(&user) {
            Some(v) => *v,
            None => 1,
        }
    }

    /// The spent refresh tokens of a user, if there is a record of them.
    fn take_used(&mut self, user: i32) -> (r: Option<Vec<String>>)
        requires
            old(self).wf(),
        ensures
            final(self).wf(),
            final(self)@.versions == old(self)@.versions,
            final(self)@.used == old(self)@.used.remove(user),
            match r {
                Some(v) => old(self)@.used.contains_key(user) && strings_view(v@).to_set()
                    == old(self)@.used[user] && strings_view(v@).no_duplicates(),
                None => !old(self)@.used.contains_key(user),
            },
    {
        let r = self.used_refresh_tokens.remove(&user);
        assert(self@.used =~= old(self)@.used.remove(user));
        r
    }

    /// Records `tokens` as the spent refresh tokens of a user.
    fn put_used(&mut self, user: i32, tokens: Vec<String>)
        requires
            old(self).wf(),
            strings_view(tokens@).no_duplicates(),
        ensures
            final(self).wf(),
            final(self)@.versions == old(self)@.versions,
            final(self)@.used == old(self)@.used.insert(user, strings_view(tokens@).to_set()),
    {
        self.used_refresh_tokens.insert(user, tokens);
        assert(self@.used =~= old(self)@.used.insert(user, strings_view(tokens@).to_set()));
    }

    /// Registers a user.
    fn register(&mut self, user: i32)
        requires
            old(self).wf(),
        ensures
            final(self).wf(),
            final(self)@ == tv_register(old(self)@, user),
    {
        if !self.token_versions.contains_key(&user) {
            self.token_versions.insert(user, 1);
            let empty: Vec<String> = Vec::new();
            assert(strings_view(empty@) =~= Seq::<Seq<char>>::empty());
            self.put_used(user, empty);
            assert(strings_view(empty@).to_set() =~= Set::<Seq<char>>::empty());
        }
    }

    /// Seeds a user from the user table.
    fn seed(&mut self, user: i32)
        requires
            old(self).wf(),
        ensures
            final(self).wf(),
            final(self)@ == tv_seed(old(self)@, user),
    {
        self.token_versions.insert(user, 1);
        let empty: Vec<String> = Vec::new();
        assert(strings_view(empty@) =~= Seq::<Seq<char>>::empty());
        self.put_used(user, empty);
        assert(strings_view(empty@).to_set() =~= Set::<Seq<char>>::empty());
    }

    /// Revokes a user's tokens; returns the new version.
    fn invalidate(&mut self, user: i32) -> (r: u32)
        requires
            old(self).wf(),
            tv_version(old(self)@, user) < u32::MAX,
        ensures
            final(self).wf(),
            final(self)@ == tv_invalidate(old(self)@, user),
            r == tv_version(old(self)@, user) + 1,
    {
        let new_version = self.version(user) + 1;
        self.token_versions.insert(user, new_version);
        let ghost mid = self@;
        match self.take_used(user) {
            Some(_) => {
                let empty: Vec<String> = Vec::new();
                assert(strings_view(empty@) =~= Seq::<Seq<char>>::empty());
                self.put_used(user, empty);
                assert(strings_view(empty@).to_set() =~= Set::<Seq<char>>::empty());
                assert(self@.used =~= old(self)@.used.insert(user, Set::empty()));
            },
            None => {
                assert(self@.used =~= old(self)@.used);
            },
        }
        new_version
    }

    /// Forgets a user.
    fn remove(&mut self, user: i32)
        requires
            old(self).wf(),
        ensures
            final(self).wf(),
            final(self)@ == tv_remove(old(self)@, user),
    {
        let had = self.token_versions.remove(&user);
        if had.is_some() {
            assert(old(self)@.versions.contains_key(user));
            let _ = self.take_used(user);
            assert(self@.versions =~= old(self)@.versions.remove(user));
            assert(self@ == tv_remove(old(self)@, user));
        } else {
            assert(!old(self)@.versions.contains_key(user));
            assert(self@.versions =~= old(self)@.versions);
            assert(self@.used =~= old(self)@.used);
        }
    }

    /// Records a spent refresh token; whether it was not recorded before.
    fn mark(&mut self, user: i32, jti: &str) -> (r: bool)
        requires
            old(self).wf(),
        ensures
            final(self).wf(),
            final(self)@ == tv_mark(old(self)@, user, jti@),
            r == !tv_used(old(self)@, user).contains(jti@),
    {
        let mut tokens = match self.take_used(user) {
            Some(v) => v,
            None => {
                let v: Vec<String> = Vec::new();
                assert(strings_view(v@).to_set() =~= Set::<Seq<char>>::empty());
                v
            },
        };
        let ghost before = strings_view(tokens@);
        assert(before.to_set() == tv_used(old(self)@, user));
        let mut i: usize = 0;
        let mut found = false;
        while i < tokens.len()
            invariant
                i <= tokens@.len(),
                before == strings_view(tokens@),
                found <==> exists|k: int| 0 <= k < i && before[k] == jti@,
            decreases tokens@.len() - i,
        {
            assert(before[i as int] == tokens@[i as int]@);
            if str_eq(tokens[i].as_str(), jti) {
                found = true;
            }
            i = i + 1;
        }
        assert(found <==> before.contains(jti@));
        if !found {
            tokens.push(String::from_str(jti));
            assert(strings_view(tokens@) =~= before.push(jti@));
            assert(strings_view(tokens@).no_duplicates());
            proof { before.lemma_push_to_set_commute(jti@); }
        } else {
            assert(before.to_set().insert(jti@) =~= before.to_set());
        }
        self.put_used(user, tokens);
        assert(self@.used =~= old(self)@.used.insert(user, tv_used(old(self)@, user).insert(jti@)));
        !found
    }

    /// Whether a user has spent the refresh token `jti`.
    fn is_used(&self, user: i32, jti: &str) -> (r: bool)
        ensures
            r == tv_used(self@, user).contains(jti@),
    {
        match self.used_refresh_tokens.get(&user) {
            Some(tokens) => {
                let ghost sv = strings_view(tokens@);
                assert(self.used_refresh_tokens@.contains_key(user));
                assert(self@.used[user] == sv.to_set());
                let mut i: usize = 0;
                while i < tokens.len()
                    invariant
                        i <= tokens@.len(),
                        sv == strings_view(tokens@),
                        self@.used.contains_key(user),
                        self@.used[user] == sv.to_set(),
                        forall|k: int| 0 <= k < i ==> sv[k] != jti@,
                    decreases tokens@.len() - i,
                {
                    assert(sv[i as int] == tokens@[i as int]@);
                    if str_eq(tokens[i].as_str(), jti) {
                        assert(sv[i as int] == jti@);
                        assert(sv.contains(jti@));
                        assert(sv.to_set().contains(jti@));
                        return true;
                    }
                    i = i + 1;
                }
                assert(!sv.contains(jti@));
                assert(!sv.to_set().contains(jti@));
                false
            },
            None => false,
        }
    }

    /// Forgets a user's spent refresh tokens, when there is a record of them.
    fn clear(&mut self, user: i32)
        requires
            old(self).wf(),
        ensures
            final(self).wf(),
            final(self)@ == tv_clear(old(self)@, user),
    {
        match self.take_used(user) {
            Some(_) => {
                let empty: Vec<String> = Vec::new();
                assert(strings_view(empty@) =~= Seq::<Seq<char>>::empty());
                self.put_used(user, empty);
                assert(strings_view(empty@).to_set() =~= Set::<Seq<char>>::empty());
                assert(self@.used =~= old(self)@.used.insert(user, Set::empty()));
            },
            None => {
                assert(self@.used =~= old(self)@.used);
            },
        }
    }

    /// The number of spent refresh tokens of a user.
    fn used_count(&self, user: i32) -> (r: usize)
        requires
            self.wf(),
        ensures
            r == tv_used(self@, user).len(),
    {
        match self.used_refresh_tokens.get(&user) {
            Some(tokens) => {
                proof {
                    strings_view(tokens@).unique_seq_to_set();
                }
                tokens.len()
            },
            None => 0,
        }
    }

    /// The number of users with a token version.
    fn size(&self) -> (r: usize)
        ensures
            r == self@.versions.len(),
    {
        self.token_versions.len()
    }
}

/// The registry of all tenants.
pub struct TokenRegistry {
    tenants: Vec<(String, TenantRegistry)>,
}

/// The views of a list of named tenant states.
pub open spec fn tenant_entries(s: Seq<(String, TenantRegistry)>) -> Seq<(Seq<char>, TenantView)> {
    s.map_values(|e: (String, TenantRegistry)| (e.0@, e.1@))
}

impl View for TokenRegistry {
    type V = Map<Seq<char>, TenantView>;

    closed spec fn view(&self) -> Map<Seq<char>, TenantView> {
        assoc_map(tenant_entries(self.tenants@))
    }
}

impl TokenRegistry {
    /// The tenants in the order the registry keeps them.
    pub closed spec fn entries(&self) -> Seq<(Seq<char>, TenantView)> {
        tenant_entries(self.tenants@)
    }

    /// Well-formed: each tenant occurs once and each tenant's state is well-formed.
    pub closed spec fn wf(&self) -> bool {
        &&& distinct_keys(self.entries())
        &&& forall|i: int| 0 <= i < self.tenants@.len() ==> (#[trigger] self.tenants@[i]).1.wf()
    }

    /// The view is the map of the kept tenants.
    pub proof fn lemma_view(&self)
        requires
            self.wf(),
        ensures
            self@ == assoc_map(self.entries()),
            self@.dom().finite(),
            forall|t: Seq<char>| #[trigger]
                self@.contains_key(t) <==> exists|i: int|
                    0 <= i < self.entries().len() && self.entries()[i].0 == t,
    {
        lemma_assoc_map_dom(self.entries());
    }

    /// An empty registry.
    pub fn new() -> (r: Self)
        ensures
            r.wf(),
            r@ == Map::<Seq<char>, TenantView>::empty(),
            r.entries().len() == 0,
    {
        let r = TokenRegistry { tenants: Vec::new() };
        assert(r.entries() =~= Seq::<(Seq<char>, TenantView)>::empty());
        r
    }

    /// The position of a tenant, if the registry has it.
    fn find(&self, tenant: &str) -> (r: Option<usize>)
        requires
            self.wf(),
        ensures
            match r {
                Some(i) => i < self.entries().len() && self.entries()[i as int].0 == tenant@
                    && self@.contains_key(tenant@) && self@[tenant@] == self.entries()[i as int].1,
                None => !self@.contains_key(tenant@),
            },
    {
        let mut i: usize = 0;
        while i < self.tenants.len()
            invariant
                self.wf(),
                i <= self.tenants@.len(),
                forall|k: int| 0 <= k < i ==> self.entries()[k].0 != tenant@,
            decreases self.tenants@.len() - i,
        {
            if str_eq(self.tenants[i].0.as_str(), tenant) {
                proof {
                    assert(self.entries()[i as int].0 == tenant@);
                    lemma_assoc_map_index(self.entries(), i as int);
                }
                return Some(i);
            }
            i = i + 1;
        }
        proof {
            lemma_assoc_map_dom(self.entries());
        }
        None
    }

    /// The position of a tenant, adding an empty state for it when missing.
    fn find_or_create(&mut self, tenant: &str) -> (r: usize)
        requires
            old(self).wf(),
        ensures
            final(self).wf(),
            final(self)@ == old(self)@.insert(tenant@, tenant_of(old(self)@, tenant@)),
            r < final(self).entries().len(),
            final(self).entries()[r as int].0 == tenant@,
            final(self).entries()[r as int].1 == tenant_of(old(self)@, tenant@),
            final(self).entries().len() >= old(self).entries().len(),
    {
        match self.find(tenant) {
            Some(i) => {
                assert(self@.insert(tenant@, tenant_of(self@, tenant@)) =~= self@);
                i
            },
            None => {
                let ghost old_entries = self.entries();
                self.tenants.push((String::from_str(tenant), TenantRegistry::new()));
                proof {
                    assert(self.entries() =~= old_entries.push((tenant@, tv_empty())));
                    lemma_assoc_map_push(old_entries, tenant@, tv_empty());
                    assert forall|i: int| 0 <= i < self.tenants@.len() implies (
                    #[trigger] self.tenants@[i]).1.wf() by {
                        if i < old(self).tenants@.len() {
                            assert(self.tenants@[i] == old(self).tenants@[i]);
                        }
                    }
                }
                self.tenants.len() - 1
            },
        }
    }

    /// Takes out the tenant state at `i`.
    fn take(&mut self, i: usize) -> (r: (String, TenantRegistry))
        requires
            old(self).wf(),
            i < old(self).entries().len(),
        ensures
            r.0@ == old(self).entries()[i as int].0,
            r.1@ == old(self).entries()[i as int].1,
            r.1.wf(),
            final(self).tenants@ == old(self).tenants@.remove(i as int),
    {
        let r = self.tenants.remove(i);
        assert(old(self).tenants@[i as int].1.wf());
        r
    }

    /// Puts back the tenant state taken out at `i`, now `t`.
    fn put_back(&mut self, i: usize, name: String, t: TenantRegistry, ghost_old: Ghost<Self>)
        requires
            ghost_old@.wf(),
            i < ghost_old@.entries().len(),
            old(self).tenants@ == ghost_old@.tenants@.remove(i as int),
            name@ == ghost_old@.entries()[i as int].0,
            t.wf(),
        ensures
            final(self).wf(),
            final(self).entries() == ghost_old@.entries().update(i as int, (name@, t@)),
            final(self)@ == ghost_old@@.insert(name@, t@),
    {
        let ghost go = ghost_old@;
        self.tenants.insert(i, (name, t));
        proof {
            let e = go.entries();
            assert(self.tenants@ =~= go.tenants@.update(i as int, (name, t)));
            assert(self.entries() =~= e.update(i as int, (e[i as int].0, t@)));
            lemma_assoc_map_update(e, i as int, t@);
            assert forall|k: int| 0 <= k < self.tenants@.len() implies (
            #[trigger] self.tenants@[k]).1.wf() by {
                if k != i {
                    assert(self.tenants@[k] == go.tenants@[k]);
                }
            }
        }
    }

    /// The names of the tenants, in the order the registry keeps them.
    pub closed spec fn tenant_names(&self) -> Seq<Seq<char>> {
        self.entries().map_values(|e: (Seq<char>, TenantView)| e.0)
    }

    /// The tenant names are the registry's tenants, each once.
    pub proof fn lemma_tenant_names(&self)
        requires
            self.wf(),
        ensures
            self.tenant_names().no_duplicates(),
            self.tenant_names().to_set() == self@.dom(),
    {
        self.lemma_view();
        let names = self.tenant_names();
        let e = self.entries();
        assert forall|a: int, b: int| 0 <= a < names.len() && 0 <= b < names.len() && a != b implies names[a]
            != names[b] by {
            assert(names[a] == e[a].0 && names[b] == e[b].0);
        }
        assert forall|t: Seq<char>| names.to_set().contains(t) <==> self@.contains_key(t) by {
            if names.to_set().contains(t) {
                let k = choose|k: int| 0 <= k < names.len() && names[k] == t;
                assert(e[k].0 == t);
            }
            if self@.contains_key(t) {
                let k = choose|k: int| 0 <= k < e.len() && e[k].0 == t;
                assert(names[k] == t);
            }
        }
        assert(names.to_set() =~= self@.dom());
    }

    /// Each tenant's users, and each user's spent refresh tokens, are finitely many.
    pub proof fn lemma_view_finite(&self)
        requires
            self.wf(),
        ensures
            registry_finite(self@),
    {
        self.lemma_view();
        assert forall|t: Seq<char>| #[trigger] self@.contains_key(t) implies tenant_finite(self@[t]) by {
            let e = self.entries();
            let k = choose|k: int| 0 <= k < e.len() && e[k].0 == t;
            lemma_assoc_map_index(e, k);
            assert(e[k].1 == self.tenants@[k].1@);
            self.tenants@[k].1.lemma_finite();
        }
    }
}

/// The current token version of a user of a tenant; 1 for users and tenants
/// the registry does not know.
pub fn get_token_version(registry: &TokenRegistry, tenant_name: &str, user_id: i32) -> (r: u32)
    requires
        registry.wf(),
    ensures
        r == token_version(registry@, tenant_name@, user_id),
{
    match registry.find(tenant_name) {
        Some(i) => registry.tenants[i].1.version(user_id),
        None => 1,
    }
}

/// Revokes every token of a user: the user's version goes up by one (the
/// tenant is added when missing) and the spent refresh tokens are forgotten.
/// Returns the new version.
pub fn invalidate_user_tokens(registry: &mut TokenRegistry, tenant_name: &str, user_id: i32) -> (r: u32)
    requires
        old(registry).wf(),
        token_version(old(registry)@, tenant_name@, user_id) < u32::MAX,
    ensures
        final(registry).wf(),
        final(registry)@ == after_invalidate(old(registry)@, tenant_name@, user_id),
        r == token_version(old(registry)@, tenant_name@, user_id) + 1,
{
    let i = registry.find_or_create(tenant_name);
    let ghost g = *registry;
    let (name, mut t) = registry.take(i);
    let v = t.invalidate(user_id);
    registry.put_back(i, name, t, Ghost(g));
    v
}

/// Whether a token of the given version is still valid for a user of a tenant.
pub fn is_token_valid(registry: &TokenRegistry, tenant_name: &str, user_id: i32, token_version: u32) -> (r: bool)
    requires
        registry.wf(),
    ensures
        r == token_valid(registry@, tenant_name@, user_id, token_version),
{
    let current = get_token_version(registry, tenant_name, user_id);
    token_version >= current
}

/// Registers a user of a tenant at version 1 unless the user is known; the
/// tenant is added when missing.
pub fn register_user(registry: &mut TokenRegistry, tenant_name: &str, user_id: i32)
    requires
        old(registry).wf(),
    ensures
        final(registry).wf(),
        final(registry)@ == after_register(old(registry)@, tenant_name@, user_id),
        tenant_size(final(registry)@, tenant_name@) == tenant_size(old(registry)@, tenant_name@) + if user_known(
            old(registry)@,
            tenant_name@,
            user_id,
        ) {
            0int
        } else {
            1int
        },
{
    proof {
        registry.lemma_view_finite();
    }
    let i = registry.find_or_create(tenant_name);
    let ghost g = *registry;
    let (name, mut t) = registry.take(i);
    t.register(user_id);
    registry.put_back(i, name, t, Ghost(g));
}

/// Forgets a user of a tenant, with the user's spent refresh tokens.
pub fn remove_user(registry: &mut TokenRegistry, tenant_name: &str, user_id: i32)
    requires
        old(registry).wf(),
    ensures
        final(registry).wf(),
        final(registry)@ == after_remove(old(registry)@, tenant_name@, user_id),
        tenant_size(final(registry)@, tenant_name@) == tenant_size(old(registry)@, tenant_name@) - if user_known(
            old(registry)@,
            tenant_name@,
            user_id,
        ) {
            1int
        } else {
            0int
        },
{
    proof {
        registry.lemma_view_finite();
    }
    match registry.find(tenant_name) {
        Some(i) => {
            let ghost g = *registry;
            let (name, mut t) = registry.take(i);
            t.remove(user_id);
            registry.put_back(i, name, t, Ghost(g));
        },
        None => {},
    }
}

/// The number of users across all tenants: the users of each tenant, added up
/// in the order `get_registered_tenants` lists the tenants.
pub fn registry_size(registry: &TokenRegistry) -> (r: usize)
    requires
        registry.wf(),
        users_of(registry@, registry.tenant_names()) <= usize::MAX,
    ensures
        r == users_of(registry@, registry.tenant_names()),
{
    let ghost names = registry.tenant_names();
    proof {
        registry.lemma_view();
    }
    let mut sum: usize = 0;
    let mut i: usize = 0;
    while i < registry.tenants.len()
        invariant
            i <= registry.tenants@.len(),
            registry.wf(),
            names == registry.tenant_names(),
            names.len() == registry.tenants@.len(),
            users_of(registry@, names) <= usize::MAX,
            sum == users_of(registry@, names.subrange(0, i as int)),
        decreases registry.tenants@.len() - i,
    {
        proof {
            lemma_users_of_prefix_bound(registry@, names, i + 1);
            assert(names.subrange(0, i + 1).drop_last() =~= names.subrange(0, i as int));
            assert(names.subrange(0, i + 1).last() == names[i as int]);
            lemma_assoc_map_index(registry.entries(), i as int);
            assert(names[i as int] == registry.entries()[i as int].0);
            assert(registry.entries()[i as int].1 == registry.tenants@[i as int].1@);
        }
        let n = registry.tenants[i].1.size();
        sum = sum + n;
        i = i + 1;
    }
    assert(names.subrange(0, names.len() as int) =~= names);
    sum
}

/// Each prefix of a list of tenants has no more users than the whole list.
proof fn lemma_users_of_prefix_bound(r: Map<Seq<char>, TenantView>, names: Seq<Seq<char>>, k: int)
    requires
        0 <= k <= names.len(),
    ensures
        users_of(r, names.subrange(0, k)) <= users_of(r, names),
    decreases names.len(),
{
    if k < names.len() {
        lemma_users_of_prefix_bound(r, names.drop_last(), k);
        assert(names.drop_last().subrange(0, k) =~= names.subrange(0, k));
    } else {
        assert(names.subrange(0, k) =~= names);
    }
}

/// The number of users known to a tenant; 0 for an unknown tenant.
pub fn tenant_registry_size(registry: &TokenRegistry, tenant_name: &str) -> (r: usize)
    requires
        registry.wf(),
    ensures
        r == tenant_size(registry@, tenant_name@),
{
    match registry.find(tenant_name) {
        Some(i) => registry.tenants[i].1.size(),
        None => 0,
    }
}

/// Records that a user of a tenant spent the refresh token `token_jti`; the
/// tenant is added when missing. Returns whether the token was not recorded
/// before.
pub fn mark_refresh_token_used(
    registry: &mut TokenRegistry,
    tenant_name: &str,
    user_id: i32,
    token_jti: &str,
) -> (r: bool)
    requires
        old(registry).wf(),
    ensures
        final(registry).wf(),
        final(registry)@ == after_mark(old(registry)@, tenant_name@, user_id, token_jti@),
        r == !refresh_used(old(registry)@, tenant_name@, user_id, token_jti@),
        tv_used(tenant_of(final(registry)@, tenant_name@), user_id).len() == tv_used(
            tenant_of(old(registry)@, tenant_name@),
            user_id,
        ).len() + if r {
            1int
        } else {
            0int
        },
{
    proof {
        registry.lemma_view_finite();
    }
    let i = registry.find_or_create(tenant_name);
    let ghost g = *registry;
    let (name, mut t) = registry.take(i);
    let r = t.mark(user_id, token_jti);
    registry.put_back(i, name, t, Ghost(g));
    r
}

/// Whether a user of a tenant has spent the refresh token `token_jti`.
pub fn is_refresh_token_used(registry: &TokenRegistry, tenant_name: &str, user_id: i32, token_jti: &str) -> (r: bool)
    requires
        registry.wf(),
    ensures
        r == refresh_used(registry@, tenant_name@, user_id, token_jti@),
{
    match registry.find(tenant_name) {
        Some(i) => registry.tenants[i].1.is_used(user_id, token_jti),
        None => false,
    }
}

/// Forgets the spent refresh tokens of a user of a known tenant.
pub fn clear_used_refresh_tokens(registry: &mut TokenRegistry, tenant_name: &str, user_id: i32)
    requires
        old(registry).wf(),
    ensures
        final(registry).wf(),
        final(registry)@ == after_clear(old(registry)@, tenant_name@, user_id),
{
    match registry.find(tenant_name) {
        Some(i) => {
            let ghost g = *registry;
            let (name, mut t) = registry.take(i);
            t.clear(user_id);
            registry.put_back(i, name, t, Ghost(g));
        },
        None => {},
    }
}

/// The number of refresh tokens a user of a tenant has spent.
pub fn used_refresh_token_count(registry: &TokenRegistry, tenant_name: &str, user_id: i32) -> (r: usize)
    requires
        registry.wf(),
    ensures
        r == tv_used(tenant_of(registry@, tenant_name@), user_id).len(),
{
    match registry.find(tenant_name) {
        Some(i) => {
            proof {
                assert(registry.tenants@[i as int].1.wf());
            }
            registry.tenants[i].1.used_count(user_id)
        },
        None => 0,
    }
}

/// The names of the tenants the registry knows, each once.
pub fn get_registered_tenants(registry: &TokenRegistry) -> (r: Vec<String>)
    requires
        registry.wf(),
    ensures
        strings_view(r@) == registry.tenant_names(),
        strings_view(r@).to_set() == registry@.dom(),
        strings_view(r@).no_duplicates(),
{
    let mut out: Vec<String> = Vec::new();
    let mut i: usize = 0;
    while i < registry.tenants.len()
        invariant
            i <= registry.tenants@.len(),
            registry.wf(),
            out@.len() == i,
            forall|k: int| 0 <= k < i ==> #[trigger] out@[k]@ == registry.entries()[k].0,
        decreases registry.tenants@.len() - i,
    {
        out.push(registry.tenants[i].0.clone());
        i = i + 1;
    }
    proof {
        let names = strings_view(out@);
        let e = registry.entries();
        assert forall|k: int| 0 <= k < names.len() implies #[trigger] names[k] == e[k].0 by {
            assert(names[k] == out@[k]@);
        }
        registry.lemma_view();
        assert(names.no_duplicates()) by {
            assert forall|a: int, b: int| 0 <= a < names.len() && 0 <= b < names.len() && a != b implies names[a] != names[b] by {
                assert(names[a] == e[a].0 && names[b] == e[b].0);
            }
        }
        assert(names =~= registry.tenant_names());
        assert(names.to_set() =~= registry@.dom()) by {
            assert forall|t: Seq<char>| names.to_set().contains(t) <==> registry@.contains_key(t) by {
                if names.to_set().contains(t) {
                    let k = choose|k: int| 0 <= k < names.len() && names[k] == t;
                    assert(e[k].0 == t);
                }
                if registry@.contains_key(t) {
                    let k = choose|k: int| 0 <= k < e.len() && e[k].0 == t;
                    assert(names[k] == t);
                }
            }
        }
    }
    out
}

/// Seeds a tenant with its users: each gets version 1 and an empty record of
/// spent refresh tokens, whatever it had before; the tenant is added when missing.
pub fn seed_tenant(registry: &mut TokenRegistry, tenant_name: &str, user_ids: &Vec<i32>)
    requires
        old(registry).wf(),
    ensures
        final(registry).wf(),
        final(registry)@ == after_seed(old(registry)@, tenant_name@, user_ids@),
{
    let i = registry.find_or_create(tenant_name);
    let ghost g = *registry;
    let (name, mut t) = registry.take(i);
    let ghost start = t@;
    let mut k: usize = 0;
    while k < user_ids.len()
        invariant
            k <= user_ids@.len(),
            t.wf(),
            t@ == tv_seed_all(start, user_ids@.subrange(0, k as int)),
        decreases user_ids@.len() - k,
    {
        t.seed(user_ids[k]);
        proof {
            let nxt = user_ids@.subrange(0, k + 1);
            assert(nxt.drop_last() =~= user_ids@.subrange(0, k as int));
        }
        k = k + 1;
    }
    assert(user_ids@.subrange(0, user_ids@.len() as int) =~= user_ids@);
    registry.put_back(i, name, t, Ghost(g));
}

// ---------------------------------------------------------------------------
// Laws
// ---------------------------------------------------------------------------

/// Revoking a user's tokens invalidates every token issued before: a token
/// that carries the version current before the revocation is no longer
/// valid, while one of the new version is.
pub proof fn law_invalidate_revokes_issued_tokens(
    r: Map<Seq<char>, TenantView>,
    tenant: Seq<char>,
    user: i32,
)
    requires
        token_version(r, tenant, user) < u32::MAX,
    ensures
        !token_valid(after_invalidate(r, tenant, user), tenant, user, token_version(r, tenant, user)),
        token_valid(after_invalidate(r, tenant, user), tenant, user, (token_version(r, tenant, user) + 1) as u32),
        token_version(after_invalidate(r, tenant, user), tenant, user) == token_version(r, tenant, user) + 1,
        forall|x: u32|
            #[trigger] token_valid(after_invalidate(r, tenant, user), tenant, user, x) <==> x >= token_version(
                r,
                tenant,
                user,
            ) + 1,
{
}

/// A token of the current version is always valid.
pub proof fn law_current_version_is_valid(r: Map<Seq<char>, TenantView>, tenant: Seq<char>, user: i32)
    ensures
        token_valid(r, tenant, user, token_version(r, tenant, user)),
{
}

/// Revoking a user's tokens also forgets the refresh tokens that user spent.
pub proof fn law_invalidate_forgets_spent_tokens(
    r: Map<Seq<char>, TenantView>,
    tenant: Seq<char>,
    user: i32,
    jti: Seq<char>,
)
    ensures
        !refresh_used(after_invalidate(r, tenant, user), tenant, user, jti),
{
}

/// A refresh token is spent once: after it is recorded it reads as used, and
/// recording it again reports that it was already there.
pub proof fn law_refresh_token_single_use(
    r: Map<Seq<char>, TenantView>,
    tenant: Seq<char>,
    user: i32,
    jti: Seq<char>,
)
    ensures
        refresh_used(after_mark(r, tenant, user, jti), tenant, user, jti),
        after_mark(after_mark(r, tenant, user, jti), tenant, user, jti) == after_mark(r, tenant, user, jti),
{
    let r1 = after_mark(r, tenant, user, jti);
    let tv = tenant_of(r, tenant);
    assert(tv_used(tv, user).insert(jti).insert(jti) =~= tv_used(tv, user).insert(jti));
    assert(tenant_of(r1, tenant).used.insert(user, tv_used(tenant_of(r1, tenant), user).insert(jti))
        =~= tenant_of(r1, tenant).used);
    assert(after_mark(r1, tenant, user, jti) =~= r1);
}

/// Registering a user never changes the user's token version.
pub proof fn law_register_keeps_version(r: Map<Seq<char>, TenantView>, tenant: Seq<char>, user: i32)
    ensures
        token_version(after_register(r, tenant, user), tenant, user) == token_version(r, tenant, user),
{
}

/// A removed user is back at version 1.
pub proof fn law_remove_resets_version(r: Map<Seq<char>, TenantView>, tenant: Seq<char>, user: i32)
    ensures
        token_version(after_remove(r, tenant, user), tenant, user) == 1,
{
}

/// Revoking the tokens of one user leaves the versions of every other user,
/// in every tenant, unchanged.
pub proof fn law_invalidate_is_local(
    r: Map<Seq<char>, TenantView>,
    tenant: Seq<char>,
    user: i32,
    other_tenant: Seq<char>,
    other_user: i32,
)
    requires
        other_tenant != tenant || other_user != user,
    ensures
        token_version(after_invalidate(r, tenant, user), other_tenant, other_user) == token_version(
            r,
            other_tenant,
            other_user,
        ),
{
}

/// Recording a spent refresh token changes no token version.
pub proof fn law_mark_keeps_versions(
    r: Map<Seq<char>, TenantView>,
    tenant: Seq<char>,
    user: i32,
    jti: Seq<char>,
    any_tenant: Seq<char>,
    any_user: i32,
)
    ensures
        token_version(after_mark(r, tenant, user, jti), any_tenant, any_user) == token_version(
            r,
            any_tenant,
            any_user,
        ),
{
}

/// A spent refresh token stays spent for its user and tenant until that
/// user's record of spent tokens is forgotten: marking any token, registering
/// a known user or any other user, and revoking, clearing or removing any
/// other user, or seeding another tenant, all keep it; and marking a token
/// for one user of one tenant spends it nowhere else.
pub proof fn law_spent_token_stays_spent(
    r: Map<Seq<char>, TenantView>,
    tenant: Seq<char>,
    user: i32,
    jti: Seq<char>,
    other_tenant: Seq<char>,
    other_user: i32,
    other_jti: Seq<char>,
    users: Seq<i32>,
)
    ensures
        refresh_used(r, tenant, user, jti) ==> {
            &&& refresh_used(after_mark(r, other_tenant, other_user, other_jti), tenant, user, jti)
            &&& (other_tenant != tenant || other_user != user || user_known(r, tenant, user)) ==> refresh_used(
                after_register(r, other_tenant, other_user),
                tenant,
                user,
                jti,
            )
            &&& (other_tenant != tenant || other_user != user) ==> {
                &&& refresh_used(after_invalidate(r, other_tenant, other_user), tenant, user, jti)
                &&& refresh_used(after_clear(r, other_tenant, other_user), tenant, user, jti)
                &&& refresh_used(after_remove(r, other_tenant, other_user), tenant, user, jti)
            }
            &&& other_tenant != tenant ==> refresh_used(after_seed(r, other_tenant, users), tenant, user, jti)
        },
        refresh_used(after_mark(r, tenant, user, jti), tenant, user, jti),
        (other_tenant != tenant || other_user != user || other_jti != jti) ==> (refresh_used(
            after_mark(r, tenant, user, jti),
            other_tenant,
            other_user,
            other_jti,
        ) == refresh_used(r, other_tenant, other_user, other_jti)),
{
}

/// The registry knows a tenant once a user of it was registered, revoked,
/// marked or seeded; removing and clearing never add a tenant, and no
/// operation forgets one.
pub proof fn law_known_tenants(
    r: Map<Seq<char>, TenantView>,
    tenant: Seq<char>,
    user: i32,
    jti: Seq<char>,
    users: Seq<i32>,
)
    ensures
        after_register(r, tenant, user).dom() == r.dom().insert(tenant),
        after_invalidate(r, tenant, user).dom() == r.dom().insert(tenant),
        after_mark(r, tenant, user, jti).dom() == r.dom().insert(tenant),
        after_seed(r, tenant, users).dom() == r.dom().insert(tenant),
        after_remove(r, tenant, user).dom() == r.dom(),
        after_clear(r, tenant, user).dom() == r.dom(),
{
    assert(after_remove(r, tenant, user).dom() =~= r.dom());
    assert(after_clear(r, tenant, user).dom() =~= r.dom());
}

// ---------------------------------------------------------------------------
// Start-up
// ---------------------------------------------------------------------------

/// `names` with `name` added at the end, unless it is empty or already there.
pub open spec fn add_tenant(names: Seq<Seq<char>>, name: Seq<char>) -> Seq<Seq<char>> {
    if name.len() == 0 || names.contains(name) {
        names
    } else {
        names.push(name)
    }
}

/// `names` with each of `more` added in turn.
pub open spec fn add_tenants(names: Seq<Seq<char>>, more: Seq<Seq<char>>) -> Seq<Seq<char>>
    decreases more.len(),
{
    if more.len() == 0 {
        names
    } else {
        add_tenant(add_tenants(names, more.drop_last()), more.last())
    }
}

/// The tenants whose registries are set up at start-up: `postgres`, then the
/// comma-separated names of `TENANT_LIST` (trimmed), then the database named
/// at the end of `VESSEL_DATABASE_URL`; each once, empty names left out.
pub open spec fn known_tenants(tenant_list: Option<Seq<char>>, vessel_url: Option<Seq<char>>) -> Seq<Seq<char>> {
    let base = seq!["postgres"@];
    let listed = match tenant_list {
        Some(l) => add_tenants(base, split(l, seq![',']).map_values(|t: Seq<char>| trim(t))),
        None => base,
    };
    match vessel_url {
        Some(u) => add_tenant(listed, trim(split(u, seq!['/']).last())),
        None => listed,
    }
}

fn add_tenant_exec(names: &mut Vec<String>, name: Vec<char>)
    ensures
        strings_view(final(names)@) == add_tenant(strings_view(old(names)@), name@),
{
    let n = string_of(&name);
    proof {
        crate::text::lemma_has_string_contains(names@, n@);
    }
    if name.len() > 0 && !vec_has_str(names, n.as_str()) {
        let ghost before = strings_view(names@);
        names.push(n);
        assert(strings_view(names@) =~= before.push(name@));
    }
}

/// The tenants to set up at start-up, from the `TENANT_LIST` and
/// `VESSEL_DATABASE_URL` variables when they are set.
pub fn discover_tenants(tenant_list: Option<&str>, vessel_url: Option<&str>) -> (r: Vec<String>)
    ensures
        strings_view(r@) == known_tenants(
            match tenant_list {
                Some(l) => Some(l@),
                None => None,
            },
            match vessel_url {
                Some(u) => Some(u@),
                None => None,
            },
        ),
{
    let mut names: Vec<String> = Vec::new();
    names.push(String::from_str("postgres"));
    assert(strings_view(names@) =~= seq!["postgres"@]);
    match tenant_list {
        Some(l) => {
            let v = chars_of(l);
            let comma: Vec<char> = vec![','];
            assert(comma@ =~= seq![',']);
            let parts = split_exec(&v, &comma);
            let ghost pieces = split(l@, seq![',']).map_values(|t: Seq<char>| trim(t));
            let mut i: usize = 0;
            while i < parts.len()
                invariant
                    i <= parts@.len(),
                    v@ == l@,
                    parts@.len() == split(v@, seq![',']).len(),
                    forall|j: int| 0 <= j < parts@.len() ==> #[trigger] parts@[j]@ == split(v@, seq![','])[j],
                    pieces == split(l@, seq![',']).map_values(|t: Seq<char>| trim(t)),
                    strings_view(names@) == add_tenants(seq!["postgres"@], pieces.subrange(0, i as int)),
                decreases parts@.len() - i,
            {
                let t = trim_exec(&parts[i]);
                proof {
                    assert(pieces.subrange(0, i + 1).drop_last() =~= pieces.subrange(0, i as int));
                    assert(pieces.subrange(0, i + 1).last() == trim(parts@[i as int]@));
                }
                add_tenant_exec(&mut names, t);
                i = i + 1;
            }
            assert(pieces.subrange(0, pieces.len() as int) =~= pieces);
        },
        None => {},
    }
    match vessel_url {
        Some(u) => {
            let v = chars_of(u);
            let slash: Vec<char> = vec!['/'];
            assert(slash@ =~= seq!['/']);
            let parts = split_exec(&v, &slash);
            proof {
                crate::text::lemma_split_nonempty(v@, slash@);
            }
            let last = trim_exec(&parts[parts.len() - 1]);
            add_tenant_exec(&mut names, last);
        },
        None => {},
    }
    names
}

/// Sets up a tenant's registry at start-up from the ids of its users (every
/// user at version 1, no token spent); when its users cannot be loaded the
/// tenant gets an empty registry.
pub fn initialize_tenant(registry: &mut TokenRegistry, tenant_name: &str, users: &Result<Vec<i32>, MeltDown>)
    requires
        old(registry).wf(),
    ensures
        final(registry).wf(),
        final(registry)@ == after_seed(
            old(registry)@,
            tenant_name@,
            match users {
                Ok(ids) => ids@,
                Err(_) => seq![],
            },
        ),
{
    match users {
        Ok(ids) => seed_tenant(registry, tenant_name, ids),
        Err(_) => {
            let none: Vec<i32> = Vec::new();
            seed_tenant(registry, tenant_name, &none);
            assert(none@ =~= Seq::<i32>::empty());
        },
    }
}

} // verus!
