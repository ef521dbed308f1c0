use vstd::prelude::*;

use crate::error::ServiceError;
use crate::identity::Identity;

verus! {

/// Why a caller may not use a staff-only operation, if it may not.
pub open spec fn staff_refusal(caller: Option<Identity>) -> Option<ServiceError> {
    match caller {
        None => Some(ServiceError::InvalidToken),
        Some(id) => if id.is_staff {
            None
        } else {
            Some(ServiceError::StaffOnly)
        },
    }
}

/// Why a caller may not act on the profile of `target`, if it may not: only
/// the owner of a profile may act on it, staff included.
pub open spec fn self_refusal(caller: Option<Identity>, target: Seq<char>) -> Option<ServiceError> {
    match caller {
        None => Some(ServiceError::InvalidToken),
        Some(id) => if id.username@ == target {
            None
        } else {
            Some(ServiceError::NotSelf)
        },
    }
}

pub open spec fn refusal_to_result(e: Option<ServiceError>) -> Result<(), ServiceError> {
    match e {
        Some(e) => Err(e),
        None => Ok(()),
    }
}

/// Admits a resolved staff identity; refuses an unresolved one (`InvalidToken`)
/// and one without the staff flag (`StaffOnly`).
pub fn require_staff(caller: &Option<Identity>) -> (r: Result<(), ServiceError>)
    ensures
        r == refusal_to_result(staff_refusal(*caller)),
{
    match caller {
        None => Err(ServiceError::InvalidToken),
        Some(id) => if id.is_staff {
            Ok(())
        } else {
            Err(ServiceError::StaffOnly)
        },
    }
}

/// Admits the identity whose username is `target`; refuses an unresolved one
/// (`InvalidToken`) and any other (`NotSelf`).
pub fn require_self(caller: &Option<Identity>, target: &String) -> (r: Result<(), ServiceError>)
    ensures
        r == refusal_to_result(self_refusal(*caller, target@)),
{
    match caller {
        None => Err(ServiceError::InvalidToken),
        Some(id) => if id.username == *target {
            Ok(())
        } else {
            Err(ServiceError::NotSelf)
        },
    }
}

} // verus!
