//! What the API dashboards show of keys and their logs: a key only to its
//! owner, the most recent request logs, and the first response of a request.
//! Loading the rows stays with the caller.
use vstd::prelude::*;

use crate::meltdown::MeltDown;

verus! {

/// How many request logs a key's page lists.
pub open spec fn key_log_limit() -> nat {
    100
}

/// A key as loaded for a user (with the id of its owner): shown only when the
/// user owns it; a key that could not be loaded is not shown.
pub fn visible_key<K>(found: Result<(K, i32), MeltDown>, user_id: i32) -> (r: Option<K>)
    ensures
        match found {
            Ok((k, owner)) => if owner == user_id {
                r == Some(k)
            } else {
                r is None
            },
            Err(_) => r is None,
        },
{
    match found {
        Ok((k, owner)) => {
            if owner == user_id {
                Some(k)
            } else {
                None
            }
        },
        Err(_) => None,
    }
}

/// The request logs a key's page lists: the first hundred loaded, or none
/// when they could not be loaded.
pub fn recent_request_logs<T>(loaded: Result<Vec<T>, MeltDown>) -> (r: Option<Vec<T>>)
    ensures
        match loaded {
            Ok(v) => r matches Some(w) && w@ == v@.take(
                if v@.len() < key_log_limit() {
                    v@.len() as int
                } else {
                    key_log_limit() as int
                },
            ),
            Err(_) => r is None,
        },
{
    match loaded {
        Ok(mut v) => {
            if v.len() > 100 {
                v.truncate(100);
            }
            Some(v)
        },
        Err(_) => None,
    }
}

/// The response shown with a request log: the first one loaded, if any.
pub fn first_response<T>(loaded: Result<Vec<T>, MeltDown>) -> (r: Option<T>)
    ensures
        match loaded {
            Ok(v) => if v@.len() > 0 {
                r == Some(v@[0])
            } else {
                r is None
            },
            Err(_) => r is None,
        },
{
    match loaded {
        Ok(mut v) => {
            if v.len() > 0 {
                Some(v.remove(0))
            } else {
                None
            }
        },
        Err(_) => None,
    }
}

/// The logs of all of a user's keys, key by key; keys whose logs could not
/// be loaded add nothing.
pub open spec fn gathered<T>(per_key: Seq<Result<Vec<T>, MeltDown>>) -> Seq<T>
    decreases per_key.len(),
{
    if per_key.len() == 0 {
        seq![]
    } else {
        gathered(per_key.drop_last()) + match per_key.last() {
            Ok(v) => v@,
            Err(_) => seq![],
        }
    }
}

/// The request logs of all of a user's keys, in key order.
pub fn gather_request_logs<T>(per_key: Vec<Result<Vec<T>, MeltDown>>) -> (r: Vec<T>)
    ensures
        r@ == gathered(per_key@),
{
    let ghost all = per_key@;
    let mut out: Vec<T> = Vec::new();
    let n = per_key.len();
    let mut rest = per_key;
    let mut i: usize = 0;
    while rest.len() > 0
        invariant
            n == all.len(),
            i + rest@.len() == all.len(),
            rest@ == all.subrange(i as int, all.len() as int),
            out@ == gathered(all.subrange(0, i as int)),
        decreases rest@.len(),
    {
        let item = rest.remove(0);
        proof {
            assert(item == all[i as int]);
            assert(rest@ =~= all.subrange(i + 1, all.len() as int));
            assert(all.subrange(0, i + 1).drop_last() =~= all.subrange(0, i as int));
            assert(all.subrange(0, i + 1).last() == all[i as int]);
        }
        match item {
            Ok(mut logs) => {
                let ghost o = out@;
                let ghost l = logs@;
                out.append(&mut logs);
                assert(out@ =~= o + l);
            },
            Err(_) => {
                assert(out@ =~= out@ + Seq::<T>::empty());
            },
        }
        i = i + 1;
    }
    assert(all.subrange(0, i as int) =~= all);
    out
}

} // verus!
