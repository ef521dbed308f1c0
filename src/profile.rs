use vstd::prelude::*;

use crate::access::{refusal_to_result, require_self, require_staff, self_refusal, staff_refusal};
use crate::error::ServiceError;
use crate::identity::Identity;
use crate::lookup::{
    first_index,
    first_index_from,
    lemma_first_index_found,
    lemma_first_index_push,
    lemma_first_index_push_other,
    lemma_first_index_update,
};
use crate::text::copy_optional;

verus! {

/// A user's profile and score.
#[derive(Debug)]
pub struct Profile {
    pub username: String,
    pub email: Option<String>,
    pub full_name: Option<String>,
    pub score: i32,
}

/// The outcome of a score adjustment.
#[derive(Debug)]
pub struct ScoreUpdate {
    pub username: String,
    pub new_score: i32,
    pub increment: i32,
}

/// The profiles, at most one per username.
pub struct ProfileLedger {
    profiles: Vec<Profile>,
}

impl Profile {
    /// A copy of this profile.
    pub fn duplicate(&self) -> (r: Profile)
        ensures
            r == *self,
    {
        Profile {
            username: self.username.clone(),
            email: copy_optional(&self.email),
            full_name: copy_optional(&self.full_name),
            score: self.score,
        }
    }
}

pub open spec fn profile_pred(u: Seq<char>) -> spec_fn(Profile) -> bool {
    |p: Profile| p.username@ == u
}

/// The score of `u`, if `u` has a profile.
pub open spec fn score_of(ps: Seq<Profile>, u: Seq<char>) -> Option<i32> {
    let i = first_index(ps, profile_pred(u));
    if i < 0 {
        None
    } else {
        Some(ps[i].score)
    }
}

/// The score after adding `increment`: a missing profile counts as starting
/// from nothing, so its score becomes the increment itself.
pub open spec fn next_score_value(current: Option<i32>, increment: i32) -> int {
    match current {
        Some(c) => c + increment,
        None => increment as int,
    }
}

pub open spec fn fits_i32(x: int) -> bool {
    i32::MIN <= x <= i32::MAX
}

/// The profiles with the score of `target` set to `new_score`, a bare profile
/// being added when `target` has none.
pub open spec fn with_score(ps: Seq<Profile>, target: String, new_score: i32) -> Seq<Profile> {
    let i = first_index(ps, profile_pred(target@));
    if i < 0 {
        ps.push(Profile { username: target, email: None, full_name: None, score: new_score })
    } else {
        ps.update(
            i,
            Profile {
                username: ps[i].username,
                email: ps[i].email,
                full_name: ps[i].full_name,
                score: new_score,
            },
        )
    }
}

/// The profiles after an admitted adjustment of `target` by `increment`.
pub open spec fn adjusted(ps: Seq<Profile>, target: String, increment: i32) -> Seq<Profile> {
    with_score(ps, target, next_score_value(score_of(ps, target@), increment) as i32)
}

/// Adds `increment` to the current score, if there is one; the result must fit a score.
pub fn next_score(current: Option<i32>, increment: i32) -> (r: Result<i32, ServiceError>)
    ensures
        fits_i32(next_score_value(current, increment)) ==> r == Ok::<i32, ServiceError>(
            next_score_value(current, increment) as i32,
        ),
        !fits_i32(next_score_value(current, increment)) ==> r == Err::<i32, ServiceError>(
            ServiceError::ScoreOutOfRange,
        ),
{
    match current {
        None => Ok(increment),
        Some(c) => match c.checked_add(increment) {
            Some(n) => Ok(n),
            None => Err(ServiceError::ScoreOutOfRange),
        },
    }
}

/// The check on a score adjustment that needs no identity: the increment is non-zero.
pub fn check_increment(increment: i32) -> (r: Result<(), ServiceError>)
    ensures
        increment == 0 ==> r == Err::<(), ServiceError>(ServiceError::ZeroIncrement),
        increment != 0 ==> r == Ok::<(), ServiceError>(()),
{
    if increment == 0 {
        Err(ServiceError::ZeroIncrement)
    } else {
        Ok(())
    }
}

/// Checks a score adjustment before any store is touched: the increment must be
/// non-zero (`ZeroIncrement`), the caller resolved and the owner of the profile.
pub fn authorize_score_change(target: &String, caller: &Option<Identity>, increment: i32) -> (r:
    Result<(), ServiceError>)
    ensures
        increment == 0 ==> r == Err::<(), ServiceError>(ServiceError::ZeroIncrement),
        increment != 0 ==> r == refusal_to_result(self_refusal(*caller, target@)),
{
    match check_increment(increment) {
        Err(e) => {
            return Err(e);
        },
        Ok(()) => {},
    }
    require_self(caller, target)
}

impl ProfileLedger {
    pub closed spec fn profiles(&self) -> Seq<Profile> {
        self.profiles@
    }

    /// At most one profile per username.
    pub open spec fn wf(&self) -> bool {
        forall|i: int, j: int|
            0 <= i < j < self.profiles().len() ==> #[trigger] self.profiles()[i].username@
                != #[trigger] self.profiles()[j].username@
    }

    /// A ledger with no profiles.
    pub fn new() -> (r: Self)
        ensures
            r.wf(),
            r.profiles() == Seq::<Profile>::empty(),
    {
        ProfileLedger { profiles: Vec::new() }
    }

    fn find(&self, username: &String) -> (r: Option<usize>)
        ensures
            r matches Some(i) ==> i == first_index(self.profiles(), profile_pred(username@)) && i
                < self.profiles().len(),
            r is None ==> first_index(self.profiles(), profile_pred(username@)) < 0,
    {
        let ghost p = profile_pred(username@);
        let mut i: usize = 0;
        while i < self.profiles.len()
            invariant
                i <= self.profiles@.len(),
                p == profile_pred(username@),
                first_index(self.profiles@, p) == first_index_from(self.profiles@, p, i as int),
            decreases self.profiles@.len() - i,
        {
            if self.profiles[i].username == *username {
                assert(p(self.profiles@[i as int]));
                return Some(i);
            }
            i = i + 1;
        }
        None
    }

    /// The profile of `username`; `UserNotFound` when there is none.
    pub fn profile(&self, username: &String) -> (r: Result<Profile, ServiceError>)
        ensures
            ({
                let i = first_index(self.profiles(), profile_pred(username@));
                &&& i < 0 ==> r == Err::<Profile, ServiceError>(ServiceError::UserNotFound)
                &&& i >= 0 ==> r == Ok::<Profile, ServiceError>(self.profiles()[i])
            }),
    {
        match self.find(username) {
            Some(i) => Ok(self.profiles[i].duplicate()),
            None => Err(ServiceError::UserNotFound),
        }
    }

    /// Every profile, in the order they were created; staff only.
    pub fn list_all(&self, caller: &Option<Identity>) -> (r: Result<Vec<Profile>, ServiceError>)
        ensures
            staff_refusal(*caller) matches Some(e) ==> r == Err::<Vec<Profile>, ServiceError>(e),
            staff_refusal(*caller) is None ==> (r matches Ok(v) && v@ == self.profiles()),
    {
        match require_staff(caller) {
            Err(e) => {
                return Err(e);
            },
            Ok(()) => {},
        }
        let mut out: Vec<Profile> = Vec::new();
        let mut i: usize = 0;
        while i < self.profiles.len()
            invariant
                i <= self.profiles@.len(),
                out@ == self.profiles@.subrange(0, i as int),
            decreases self.profiles@.len() - i,
        {
            out.push(self.profiles[i].duplicate());
            i = i + 1;
            assert(out@ =~= self.profiles@.subrange(0, i as int));
        }
        assert(out@ =~= self.profiles@);
        Ok(out)
    }

    /// Adds a non-zero increment to the caller's own score in one step, creating
    /// the profile with the increment as its score when there is none. A refused
    /// or failed adjustment changes nothing.
    pub fn adjust_score(&mut self, target: String, caller: &Option<Identity>, increment: i32) -> (r:
        Result<ScoreUpdate, ServiceError>)
        requires
            old(self).wf(),
        ensures
            final(self).wf(),
            increment == 0 ==> r == Err::<ScoreUpdate, ServiceError>(ServiceError::ZeroIncrement),
            increment != 0 && self_refusal(*caller, target@) is Some ==> r == Err::<
                ScoreUpdate,
                ServiceError,
            >(self_refusal(*caller, target@)->0),
            ({
                let n = next_score_value(score_of(old(self).profiles(), target@), increment);
                increment != 0 && self_refusal(*caller, target@) is None ==> {
                    &&& !fits_i32(n) ==> r == Err::<ScoreUpdate, ServiceError>(
                        ServiceError::ScoreOutOfRange,
                    )
                    &&& fits_i32(n) ==> r == Ok::<ScoreUpdate, ServiceError>(
                        ScoreUpdate { username: target, new_score: n as i32, increment },
                    ) && final(self).profiles() == adjusted(old(self).profiles(), target, increment)
                }
            }),
            r is Err ==> final(self).profiles() == old(self).profiles(),
    {
        match authorize_score_change(&target, caller, increment) {
            Err(e) => {
                return Err(e);
            },
            Ok(()) => {},
        }
        let found = self.find(&target);
        let current = match found {
            Some(i) => Some(self.profiles[i].score),
            None => None,
        };
        let new_score = match next_score(current, increment) {
            Ok(n) => n,
            Err(e) => {
                return Err(e);
            },
        };
        let ghost before = self.profiles@;
        match found {
            Some(i) => {
                let p = &self.profiles[i];
                let updated = Profile {
                    username: p.username.clone(),
                    email: copy_optional(&p.email),
                    full_name: copy_optional(&p.full_name),
                    score: new_score,
                };
                self.profiles.set(i, updated);
            },
            None => {
                let fresh = Profile {
                    username: target.clone(),
                    email: None,
                    full_name: None,
                    score: new_score,
                };
                self.profiles.push(fresh);
            },
        }
        proof {
            let s = self.profiles@;
            assert(s == with_score(before, target, new_score));
            assert forall|i: int, j: int| 0 <= i < j < s.len() implies #[trigger] s[i].username@
                != #[trigger] s[j].username@ by {
                if found is None && j == s.len() - 1 {
                    lemma_first_index_found(before, profile_pred(target@), 0);
                    assert(s[i] == before[i]);
                    assert(!profile_pred(target@)(before[i]));
                } else {
                    assert(s[i].username@ == before[i].username@);
                    assert(s[j].username@ == before[j].username@);
                }
            }
        }
        Ok(ScoreUpdate { username: target, new_score, increment })
    }
}

proof fn lemma_score_after_set(ps: Seq<Profile>, target: String, n: i32)
    ensures
        score_of(with_score(ps, target, n), target@) == Some(n),
{
    let p = profile_pred(target@);
    let i = first_index(ps, p);
    lemma_first_index_found(ps, p, 0);
    if i < 0 {
        let x = Profile { username: target, email: None, full_name: None, score: n };
        lemma_first_index_push(ps, x, p, 0);
        assert(ps.push(x)[ps.len() as int] == x);
    } else {
        let x = Profile {
            username: ps[i].username,
            email: ps[i].email,
            full_name: ps[i].full_name,
            score: n,
        };
        lemma_first_index_update(ps, i, x, p, 0);
    }
}

/// Adjustments of one user's score, applied one after the other, add up: from
/// any starting score (none counting as zero), adjusting by `a` then `b` and by
/// `b` then `a` both end at the start plus `a + b`, whenever every
/// intermediate score fits.
pub proof fn lemma_adjustments_add_up(ledger: &ProfileLedger, target: String, a: i32, b: i32)
    requires
        ({
            let base: int = match score_of(ledger.profiles(), target@) {
                Some(c) => c as int,
                None => 0,
            };
            fits_i32(base + a) && fits_i32(base + b) && fits_i32(base + a + b)
        }),
    ensures
        ({
            let base: int = match score_of(ledger.profiles(), target@) {
                Some(c) => c as int,
                None => 0,
            };
            let ps = ledger.profiles();
            &&& score_of(adjusted(adjusted(ps, target, a), target, b), target@) == Some(
                (base + a + b) as i32,
            )
            &&& score_of(adjusted(adjusted(ps, target, b), target, a), target@) == Some(
                (base + a + b) as i32,
            )
        }),
{
    let ps = ledger.profiles();
    let s0 = score_of(ps, target@);
    let na = next_score_value(s0, a) as i32;
    let nb = next_score_value(s0, b) as i32;
    lemma_score_after_set(ps, target, na);
    lemma_score_after_set(ps, target, nb);
    let pa = adjusted(ps, target, a);
    let pb = adjusted(ps, target, b);
    lemma_score_after_set(pa, target, next_score_value(Some(na), b) as i32);
    lemma_score_after_set(pb, target, next_score_value(Some(nb), a) as i32);
}

/// Adjusting one user's score leaves every other user's score as it was.
pub proof fn lemma_adjust_leaves_others(
    ledger: &ProfileLedger,
    target: String,
    increment: i32,
    other: Seq<char>,
)
    requires
        other != target@,
    ensures
        score_of(adjusted(ledger.profiles(), target, increment), other) == score_of(
            ledger.profiles(),
            other,
        ),
{
    let ps = ledger.profiles();
    let n = next_score_value(score_of(ps, target@), increment) as i32;
    let i = first_index(ps, profile_pred(target@));
    let q = profile_pred(other);
    if i < 0 {
        let x = Profile { username: target, email: None, full_name: None, score: n };
        lemma_first_index_push_other(ps, x, q, 0);
        let k = first_index(ps, q);
        lemma_first_index_found(ps, q, 0);
        if k >= 0 {
            assert(ps.push(x)[k] == ps[k]);
        }
    } else {
        lemma_first_index_found(ps, profile_pred(target@), 0);
        let x = Profile {
            username: ps[i].username,
            email: ps[i].email,
            full_name: ps[i].full_name,
            score: n,
        };
        lemma_first_index_update(ps, i, x, q, 0);
        let k = first_index(ps, q);
        lemma_first_index_found(ps, q, 0);
        if k >= 0 {
            assert(k != i);
            assert(ps.update(i, x)[k] == ps[k]);
        }
    }
}

} // verus!
