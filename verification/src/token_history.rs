//! Laws over sequences of token-registry operations: what a series of calls
//! keeps, given what happened to one user of one tenant along the way.
use vstd::prelude::*;

use crate::token_registry::{
    after_clear, after_invalidate, after_mark, after_register, after_remove, after_seed, refresh_used,
    tenant_of, token_valid, token_version, tv_seed_all, tv_used, tv_version, user_known, TenantView,
};

verus! {

/// An operation on the token registry, by its arguments: registering,
/// removing or revoking a user, recording a spent refresh token, clearing a
/// user's spent tokens, or seeding a tenant with its users.
pub enum RegistryOp {
    Register(Seq<char>, i32),
    Remove(Seq<char>, i32),
    Invalidate(Seq<char>, i32),
    Mark(Seq<char>, i32, Seq<char>),
    Clear(Seq<char>, i32),
    Seed(Seq<char>, Seq<i32>),
}

/// The registry after one operation.
pub open spec fn apply_op(r: Map<Seq<char>, TenantView>, op: RegistryOp) -> Map<Seq<char>, TenantView> {
    match op {
        RegistryOp::Register(t, u) => after_register(r, t, u),
        RegistryOp::Remove(t, u) => after_remove(r, t, u),
        RegistryOp::Invalidate(t, u) => after_invalidate(r, t, u),
        RegistryOp::Mark(t, u, j) => after_mark(r, t, u, j),
        RegistryOp::Clear(t, u) => after_clear(r, t, u),
        RegistryOp::Seed(t, us) => after_seed(r, t, us),
    }
}

/// The registry after the operations, in order.
pub open spec fn apply_ops(r: Map<Seq<char>, TenantView>, ops: Seq<RegistryOp>) -> Map<Seq<char>, TenantView>
    decreases ops.len(),
{
    if ops.len() == 0 {
        r
    } else {
        apply_op(apply_ops(r, ops.drop_last()), ops.last())
    }
}

/// An operation, applied to `state`, that leaves the spent refresh tokens of
/// `user` of `tenant` alone: anything but clearing, revoking, removing or
/// seeding that user, or registering that user while the user is unknown.
pub open spec fn keeps_spent(state: Map<Seq<char>, TenantView>, op: RegistryOp, tenant: Seq<char>, user: i32) -> bool {
    match op {
        RegistryOp::Register(t, u) => t != tenant || u != user || user_known(state, tenant, user),
        RegistryOp::Remove(t, u) => t != tenant || u != user,
        RegistryOp::Invalidate(t, u) => t != tenant || u != user,
        RegistryOp::Mark(_, _, _) => true,
        RegistryOp::Clear(t, u) => t != tenant || u != user,
        RegistryOp::Seed(t, us) => t != tenant || !us.contains(user),
    }
}

/// An operation that does not set the token version of `user` of `tenant`:
/// anything but revoking, removing or seeding that user.
pub open spec fn keeps_version(op: RegistryOp, tenant: Seq<char>, user: i32) -> bool {
    match op {
        RegistryOp::Remove(t, u) => t != tenant || u != user,
        RegistryOp::Invalidate(t, u) => t != tenant || u != user,
        RegistryOp::Seed(t, us) => t != tenant || !us.contains(user),
        _ => true,
    }
}

/// The tenant an operation adds to the registry, if any: all but removing
/// and clearing add their tenant.
pub open spec fn op_tenants(op: RegistryOp) -> Set<Seq<char>> {
    match op {
        RegistryOp::Register(t, _) => set![t],
        RegistryOp::Invalidate(t, _) => set![t],
        RegistryOp::Mark(t, _, _) => set![t],
        RegistryOp::Seed(t, _) => set![t],
        _ => Set::empty(),
    }
}

/// The tenants the operations add.
pub open spec fn added_tenants(ops: Seq<RegistryOp>) -> Set<Seq<char>>
    decreases ops.len(),
{
    if ops.len() == 0 {
        Set::empty()
    } else {
        added_tenants(ops.drop_last()).union(op_tenants(ops.last()))
    }
}

/// Recording each of `jtis` in turn as spent by `user` of `tenant`.
pub open spec fn marks(tenant: Seq<char>, user: i32, jtis: Seq<Seq<char>>) -> Seq<RegistryOp> {
    jtis.map_values(|j: Seq<char>| RegistryOp::Mark(tenant, user, j))
}

/// Seeding a list of users sets each listed user to version 1 with nothing
/// spent, and leaves every other user as it was.
proof fn lemma_seed_all(tv: TenantView, users: Seq<i32>, user: i32)
    ensures
        tv_used(tv_seed_all(tv, users), user) == if users.contains(user) {
            Set::<Seq<char>>::empty()
        } else {
            tv_used(tv, user)
        },
        tv_version(tv_seed_all(tv, users), user) == if users.contains(user) {
            1u32
        } else {
            tv_version(tv, user)
        },
    decreases users.len(),
{
    if users.len() > 0 {
        let init = users.drop_last();
        lemma_seed_all(tv, init, user);
        assert(users =~= init.push(users.last()));
        assert(users.contains(user) <==> (init.contains(user) || users.last() == user)) by {
            if users.contains(user) {
                let k = choose|k: int| 0 <= k < users.len() && users[k] == user;
                if k < users.len() - 1 {
                    assert(init[k] == user);
                }
            }
            if init.contains(user) {
                let k = choose|k: int| 0 <= k < init.len() && init[k] == user;
                assert(users[k] == user);
            }
            if users.last() == user {
                assert(users[users.len() - 1] == user);
            }
        }
    }
}

/// The operations up to `k` of a list without its last are those of the list.
proof fn lemma_prefix(ops: Seq<RegistryOp>)
    requires
        ops.len() > 0,
    ensures
        forall|k: int| 0 <= k < ops.len() - 1 ==> #[trigger] ops.drop_last().take(k) == ops.take(k),
        forall|k: int| 0 <= k < ops.len() - 1 ==> #[trigger] ops.drop_last()[k] == ops[k],
        ops.take(ops.len() - 1) == ops.drop_last(),
{
    assert forall|k: int| 0 <= k < ops.len() - 1 implies #[trigger] ops.drop_last().take(k) == ops.take(k) by {
        assert(ops.drop_last().take(k) =~= ops.take(k));
    }
    assert(ops.take(ops.len() - 1) =~= ops.drop_last());
}

/// One operation that spares a user's spent tokens keeps a spent token spent.
proof fn lemma_op_keeps_spent(s: Map<Seq<char>, TenantView>, op: RegistryOp, tenant: Seq<char>, user: i32, jti: Seq<char>)
    requires
        refresh_used(s, tenant, user, jti),
        keeps_spent(s, op, tenant, user),
    ensures
        refresh_used(apply_op(s, op), tenant, user, jti),
{
    match op {
        RegistryOp::Seed(t, us) => {
            lemma_seed_all(tenant_of(s, t), us, user);
        },
        _ => {},
    }
}

/// One operation other than recording `jti` for `user` of `tenant` leaves it
/// unspent there.
proof fn lemma_op_keeps_unspent(s: Map<Seq<char>, TenantView>, op: RegistryOp, tenant: Seq<char>, user: i32, jti: Seq<char>)
    requires
        !refresh_used(s, tenant, user, jti),
        op != RegistryOp::Mark(tenant, user, jti),
    ensures
        !refresh_used(apply_op(s, op), tenant, user, jti),
{
    match op {
        RegistryOp::Seed(t, us) => {
            lemma_seed_all(tenant_of(s, t), us, user);
        },
        _ => {},
    }
}

/// A spent refresh token stays spent through any series of calls none of
/// which forgets that user's spent tokens: clearing, revoking, removing or
/// seeding that user, or registering the user while unknown to the tenant.
pub proof fn law_spent_token_survives(
    r: Map<Seq<char>, TenantView>,
    ops: Seq<RegistryOp>,
    tenant: Seq<char>,
    user: i32,
    jti: Seq<char>,
)
    requires
        refresh_used(r, tenant, user, jti),
        forall|k: int| 0 <= k < ops.len() ==> keeps_spent(apply_ops(r, ops.take(k)), #[trigger] ops[k], tenant, user),
    ensures
        refresh_used(apply_ops(r, ops), tenant, user, jti),
    decreases ops.len(),
{
    if ops.len() > 0 {
        lemma_prefix(ops);
        let init = ops.drop_last();
        assert forall|k: int| 0 <= k < init.len() implies keeps_spent(
            apply_ops(r, init.take(k)),
            #[trigger] init[k],
            tenant,
            user,
        ) by {
            assert(init.take(k) == ops.take(k));
            assert(init[k] == ops[k]);
        }
        law_spent_token_survives(r, init, tenant, user, jti);
        assert(keeps_spent(apply_ops(r, ops.take(ops.len() - 1)), ops[ops.len() - 1], tenant, user));
        lemma_op_keeps_spent(apply_ops(r, init), ops.last(), tenant, user, jti);
    }
}

/// Tenants are isolated: a refresh token never recorded for a user of a
/// tenant through a series of calls is not spent there afterwards, whatever
/// was recorded for other users or tenants.
pub proof fn law_unrecorded_token_unspent(
    r: Map<Seq<char>, TenantView>,
    ops: Seq<RegistryOp>,
    tenant: Seq<char>,
    user: i32,
    jti: Seq<char>,
)
    requires
        !refresh_used(r, tenant, user, jti),
        forall|k: int| 0 <= k < ops.len() ==> #[trigger] ops[k] != RegistryOp::Mark(tenant, user, jti),
    ensures
        !refresh_used(apply_ops(r, ops), tenant, user, jti),
    decreases ops.len(),
{
    if ops.len() > 0 {
        lemma_prefix(ops);
        let init = ops.drop_last();
        assert forall|k: int| 0 <= k < init.len() implies #[trigger] init[k] != RegistryOp::Mark(tenant, user, jti) by {
            assert(init[k] == ops[k]);
        }
        law_unrecorded_token_unspent(r, init, tenant, user, jti);
        assert(ops.last() == ops[ops.len() - 1]);
        lemma_op_keeps_unspent(apply_ops(r, init), ops.last(), tenant, user, jti);
    }
}

/// A user's token version, and so which tokens are valid, stays as it is
/// through any series of calls that neither revokes, removes nor seeds that
/// user.
pub proof fn law_version_survives(r: Map<Seq<char>, TenantView>, ops: Seq<RegistryOp>, tenant: Seq<char>, user: i32)
    requires
        forall|k: int| 0 <= k < ops.len() ==> keeps_version(#[trigger] ops[k], tenant, user),
    ensures
        token_version(apply_ops(r, ops), tenant, user) == token_version(r, tenant, user),
        forall|x: u32| #[trigger] token_valid(apply_ops(r, ops), tenant, user, x) == token_valid(r, tenant, user, x),
    decreases ops.len(),
{
    if ops.len() > 0 {
        lemma_prefix(ops);
        let init = ops.drop_last();
        assert forall|k: int| 0 <= k < init.len() implies keeps_version(#[trigger] init[k], tenant, user) by {
            assert(init[k] == ops[k]);
        }
        law_version_survives(r, init, tenant, user);
        assert(ops.last() == ops[ops.len() - 1]);
        let s = apply_ops(r, init);
        match ops.last() {
            RegistryOp::Seed(t, us) => {
                lemma_seed_all(tenant_of(s, t), us, user);
            },
            _ => {},
        }
    }
}

/// After a user's tokens are revoked, a token of that user is valid exactly
/// when its version is at least the new one, through any later series of
/// calls that neither revokes, removes nor seeds that user.
pub proof fn law_revocation_holds(r: Map<Seq<char>, TenantView>, ops: Seq<RegistryOp>, tenant: Seq<char>, user: i32)
    requires
        token_version(r, tenant, user) < u32::MAX,
        forall|k: int| 0 <= k < ops.len() ==> keeps_version(#[trigger] ops[k], tenant, user),
    ensures
        forall|x: u32|
            #[trigger] token_valid(apply_ops(after_invalidate(r, tenant, user), ops), tenant, user, x) <==> x
                >= token_version(r, tenant, user) + 1,
{
    law_version_survives(after_invalidate(r, tenant, user), ops, tenant, user);
}

/// The registry knows the tenants it knew and those that a series of calls
/// added (registering, revoking, recording or seeding adds the tenant), and
/// no others.
pub proof fn law_known_tenants_after(r: Map<Seq<char>, TenantView>, ops: Seq<RegistryOp>)
    ensures
        apply_ops(r, ops).dom() == r.dom().union(added_tenants(ops)),
    decreases ops.len(),
{
    if ops.len() == 0 {
        assert(r.dom().union(Set::empty()) =~= r.dom());
    } else {
        let init = ops.drop_last();
        law_known_tenants_after(r, init);
        let s = apply_ops(r, init);
        match ops.last() {
            RegistryOp::Remove(t, u) => {
                assert(after_remove(s, t, u).dom() =~= s.dom());
            },
            RegistryOp::Clear(t, u) => {
                assert(after_clear(s, t, u).dom() =~= s.dom());
            },
            _ => {},
        }
        assert(apply_ops(r, ops).dom() =~= r.dom().union(added_tenants(ops)));
    }
}

/// Recording a series of refresh tokens for a user of a tenant adds exactly
/// those tokens to what the user had spent; from nothing spent, the count of
/// spent tokens is the number of distinct tokens recorded.
pub proof fn law_marks_collect(r: Map<Seq<char>, TenantView>, tenant: Seq<char>, user: i32, jtis: Seq<Seq<char>>)
    ensures
        tv_used(tenant_of(apply_ops(r, marks(tenant, user, jtis)), tenant), user) == tv_used(
            tenant_of(r, tenant),
            user,
        ).union(jtis.to_set()),
        tv_used(tenant_of(r, tenant), user).is_empty() ==> tv_used(
            tenant_of(apply_ops(r, marks(tenant, user, jtis)), tenant),
            user,
        ).len() == jtis.to_set().len(),
    decreases jtis.len(),
{
    let before = tv_used(tenant_of(r, tenant), user);
    if jtis.len() == 0 {
        assert(jtis.to_set() =~= Set::<Seq<char>>::empty());
        assert(before.union(jtis.to_set()) =~= before);
    } else {
        let init = jtis.drop_last();
        law_marks_collect(r, tenant, user, init);
        assert(marks(tenant, user, jtis).drop_last() =~= marks(tenant, user, init));
        assert(jtis =~= init.push(jtis.last()));
        init.lemma_push_to_set_commute(jtis.last());
        assert(before.union(jtis.to_set()) =~= before.union(init.to_set()).insert(jtis.last()));
    }
    if before.is_empty() {
        assert(before.union(jtis.to_set()) =~= jtis.to_set());
    }
}

/// An operation that touches `user` of `tenant` at most to record a spent
/// token for it: anything but registering, removing, revoking, clearing or
/// seeding that user.
pub open spec fn only_marks_for(op: RegistryOp, tenant: Seq<char>, user: i32) -> bool {
    match op {
        RegistryOp::Register(t, u) => t != tenant || u != user,
        RegistryOp::Remove(t, u) => t != tenant || u != user,
        RegistryOp::Invalidate(t, u) => t != tenant || u != user,
        RegistryOp::Mark(_, _, _) => true,
        RegistryOp::Clear(t, u) => t != tenant || u != user,
        RegistryOp::Seed(t, us) => t != tenant || !us.contains(user),
    }
}

/// The refresh token an operation records for `user` of `tenant`, if any.
pub open spec fn op_recorded(op: RegistryOp, tenant: Seq<char>, user: i32) -> Seq<Seq<char>> {
    match op {
        RegistryOp::Mark(t, u, j) => if t == tenant && u == user {
            seq![j]
        } else {
            seq![]
        },
        _ => seq![],
    }
}

/// The refresh tokens the operations record for `user` of `tenant`, in order.
pub open spec fn recorded(ops: Seq<RegistryOp>, tenant: Seq<char>, user: i32) -> Seq<Seq<char>>
    decreases ops.len(),
{
    if ops.len() == 0 {
        seq![]
    } else {
        recorded(ops.drop_last(), tenant, user) + op_recorded(ops.last(), tenant, user)
    }
}

/// One operation that touches a user at most to record a token adds that
/// token, if it records one, to what the user spent, and changes nothing else
/// of it.
proof fn lemma_op_spent(s: Map<Seq<char>, TenantView>, op: RegistryOp, tenant: Seq<char>, user: i32)
    requires
        only_marks_for(op, tenant, user),
    ensures
        tv_used(tenant_of(apply_op(s, op), tenant), user) == tv_used(tenant_of(s, tenant), user).union(
            op_recorded(op, tenant, user).to_set(),
        ),
{
    let before = tv_used(tenant_of(s, tenant), user);
    let rec = op_recorded(op, tenant, user);
    match op {
        RegistryOp::Seed(t, us) => {
            lemma_seed_all(tenant_of(s, t), us, user);
        },
        _ => {},
    }
    match op {
        RegistryOp::Mark(t, u, j) => {
            if t == tenant && u == user {
                let none = Seq::<Seq<char>>::empty();
                assert(rec =~= none.push(j));
                none.lemma_push_to_set_commute(j);
                assert(none.to_set() =~= Set::<Seq<char>>::empty());
                assert(rec.to_set() =~= set![j]);
            } else {
                assert(rec.to_set() =~= Set::<Seq<char>>::empty());
            }
        },
        _ => {
            assert(rec.to_set() =~= Set::<Seq<char>>::empty());
        },
    }
    assert(tv_used(tenant_of(apply_op(s, op), tenant), user) =~= before.union(rec.to_set()));
}

/// The spent refresh tokens of a user of a tenant, after a series of calls
/// none of which registers, removes, revokes, clears or seeds that user, are
/// those spent before and those recorded for the user along the way, whatever
/// calls for other users or tenants came in between. From nothing spent, the
/// count of spent tokens is the number of distinct tokens recorded.
pub proof fn law_spent_count(r: Map<Seq<char>, TenantView>, ops: Seq<RegistryOp>, tenant: Seq<char>, user: i32)
    requires
        forall|k: int| 0 <= k < ops.len() ==> only_marks_for(#[trigger] ops[k], tenant, user),
    ensures
        tv_used(tenant_of(apply_ops(r, ops), tenant), user) == tv_used(tenant_of(r, tenant), user).union(
            recorded(ops, tenant, user).to_set(),
        ),
        tv_used(tenant_of(r, tenant), user).is_empty() ==> tv_used(tenant_of(apply_ops(r, ops), tenant), user).len()
            == recorded(ops, tenant, user).to_set().len(),
    decreases ops.len(),
{
    let before = tv_used(tenant_of(r, tenant), user);
    let rec = recorded(ops, tenant, user);
    if ops.len() == 0 {
        assert(rec.to_set() =~= Set::<Seq<char>>::empty());
        assert(before.union(rec.to_set()) =~= before);
    } else {
        lemma_prefix(ops);
        let init = ops.drop_last();
        let last = ops.last();
        assert forall|k: int| 0 <= k < init.len() implies only_marks_for(#[trigger] init[k], tenant, user) by {
            assert(init[k] == ops[k]);
        }
        law_spent_count(r, init, tenant, user);
        assert(last == ops[ops.len() - 1]);
        lemma_op_spent(apply_ops(r, init), last, tenant, user);
        let prev = recorded(init, tenant, user);
        let step = op_recorded(last, tenant, user);
        vstd::seq_lib::seq_to_set_distributes_over_add(prev, step);
        assert(before.union(rec.to_set()) =~= before.union(prev.to_set()).union(step.to_set()));
    }
    if before.is_empty() {
        assert(before.union(rec.to_set()) =~= rec.to_set());
    }
}

} // verus!
