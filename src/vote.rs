//! Votes, vote requests, and the checks a request passes before it is stored.

use vstd::prelude::*;

verus! {

/// What `str::trim` leaves of a string: the characters without leading and
/// trailing Unicode white space.
pub uninterp spec fn trimmed(s: Seq<char>) -> Seq<char>;

/// Relies on `str::trim`: the result is a contiguous part of the input, which
/// depends on the input characters alone.
#[verifier::external_body]
pub(crate) fn trim_text(s: &str) -> (r: String)
    ensures
        r@ == trimmed(s@),
{
    s.trim().to_string()
}

/// The field of a vote request that failed validation.
#[derive(Clone, Copy, Debug, PartialEq, Eq, Structural)]
pub enum Field {
    VoterName,
    RestaurantName,
}

/// One voter's current choice.
#[derive(Clone, Debug)]
pub struct Vote {
    pub voter_name: String,
    pub restaurant_name: String,
}

impl View for Vote {
    type V = (Seq<char>, Seq<char>);

    open spec fn view(&self) -> (Seq<char>, Seq<char>) {
        (self.voter_name@, self.restaurant_name@)
    }
}

/// A vote as it arrives from a caller, before trimming and validation.
#[derive(Clone, Debug)]
pub struct VoteRequest {
    pub voter_name: String,
    pub restaurant_name: String,
}

/// Why a submission was refused.
#[derive(Clone, Copy, Debug, PartialEq, Eq, Structural)]
pub enum StoreError {
    /// The named field is empty once trimmed.
    InvalidInput(Field),
    /// The storage engine failed.
    Backend,
}

/// Why a vote or tally request failed, as callers see it.
#[derive(Clone, Copy, Debug, PartialEq, Eq, Structural)]
pub enum VoteError {
    /// The named field is empty once trimmed; the caller may retry.
    InvalidInput(Field),
    /// The storage engine failed; a transient failure.
    StorageFailure,
}

impl VoteError {
    /// Translates a store failure into the caller-facing taxonomy.
    pub fn from_store(e: StoreError) -> (r: VoteError)
        ensures
            r == match e {
                StoreError::InvalidInput(f) => VoteError::InvalidInput(f),
                StoreError::Backend => VoteError::StorageFailure,
            },
    {
        match e {
            StoreError::InvalidInput(f) => VoteError::InvalidInput(f),
            StoreError::Backend => VoteError::StorageFailure,
        }
    }
}

/// Trims both names and accepts them only when neither is empty; the voter
/// name is checked first.
pub fn validate(voter_name: &str, restaurant_name: &str) -> (r: Result<Vote, Field>)
    ensures
        trimmed(voter_name@).len() == 0 ==> r == Err::<Vote, Field>(Field::VoterName),
        trimmed(voter_name@).len() > 0 && trimmed(restaurant_name@).len() == 0
            ==> r == Err::<Vote, Field>(Field::RestaurantName),
        trimmed(voter_name@).len() > 0 && trimmed(restaurant_name@).len() > 0 ==> r is Ok,
        r matches Ok(v) ==> v@ == (trimmed(voter_name@), trimmed(restaurant_name@)),
{
    let voter = trim_text(voter_name);
    if voter.as_str().is_empty() {
        return Err(Field::VoterName);
    }
    let restaurant = trim_text(restaurant_name);
    if restaurant.as_str().is_empty() {
        return Err(Field::RestaurantName);
    }
    Ok(Vote { voter_name: voter, restaurant_name: restaurant })
}

} // verus!
