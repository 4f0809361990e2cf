use vstd::prelude::*;

use crate::error::TRCError;

verus! {

/// The caller may act on every target: there is a caller, and each target
/// belongs to it.
pub open spec fn authorized(caller: Option<i32>, owners: Seq<i32>) -> bool {
    caller.is_some() && forall|i: int| 0 <= i < owners.len() ==> #[trigger] owners[i] == caller.unwrap()
}

/// Decides whether the caller may mutate targets with these owners: an
/// anonymous caller may not, and one owner that is someone else rejects the
/// whole set. Gives the caller's id.
pub fn authorize(caller: Option<i32>, owners: &Vec<i32>) -> (r: Result<i32, TRCError>)
    ensures
        authorized(caller, owners@) ==> r == Ok::<i32, TRCError>(caller.unwrap()),
        !authorized(caller, owners@) ==> r == Err::<i32, TRCError>(TRCError::Unauthorized),
{
    let uid = match caller {
        Some(uid) => uid,
        None => return Err(TRCError::Unauthorized),
    };
    let mut i: usize = 0;
    while i < owners.len()
        invariant
            caller == Some(uid),
            0 <= i <= owners@.len(),
            forall|k: int| 0 <= k < i ==> #[trigger] owners@[k] == uid,
        decreases owners@.len() - i,
    {
        if owners[i] != uid {
            assert(!authorized(caller, owners@));
            return Err(TRCError::Unauthorized);
        }
        i = i + 1;
    }
    Ok(uid)
}

} // verus!
