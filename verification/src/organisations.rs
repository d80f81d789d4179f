//! Organisations — the tenants — as the service layer sees them: request
//! shapes, the stored shape, and the decisions around creation, including
//! the plan limit on owned organisations, which compares the actual count
//! of organisations owned.

use vstd::prelude::*;
use crate::errors::ApplicationError;

verus! {

/// What a caller submits to create an organisation.
#[derive(Debug)]
pub struct OrganisationCreateRequest {
    pub name: String,
}

/// What a caller submits to update an organisation.
#[derive(Debug)]
pub struct OrganisationPutRequest {
    pub owner: Option<u128>,
    pub name: String,
}

/// A stored organisation.
#[derive(Debug)]
pub struct Organisation {
    pub id: u128,
    pub owner: u128,
    pub name: String,
    pub is_archived: bool,
    pub created_at: i64,
    pub updated_at: i64,
}

/// The column values an update writes.
#[derive(Debug)]
pub struct PutOrganisation {
    pub owner: Option<u128>,
    pub name: String,
    pub updated_at: i64,
}

impl OrganisationCreateRequest {
    /// The stored organisation this request becomes, owned by its creator,
    /// not archived, given the fresh identifier and the clock's reading.
    pub fn into_with_owner(self, owner: u128, id: u128, now: i64) -> (r: Organisation)
        ensures
            r.id == id,
            r.owner == owner,
            r.name == self.name,
            !r.is_archived,
            r.created_at == now,
            r.updated_at == now,
    {
        Organisation { id, owner, name: self.name, is_archived: false, created_at: now, updated_at: now }
    }
}

/// The column values an update request writes.
pub fn into_put_organisation(request: OrganisationPutRequest, now: i64) -> (r: PutOrganisation)
    ensures
        r.owner == request.owner,
        r.name == request.name,
        r.updated_at == now,
{
    PutOrganisation { owner: request.owner, name: request.name, updated_at: now }
}

/// The message a caller over the plan limit is answered with.
pub open spec fn spec_limit_reached_message() -> Seq<char> {
    "Only 1 owned organisation per user allowed for this plan."@
}

/// The plan limit on owned organisations: a caller already owning one may
/// not create another. The check compares the actual count of owned
/// organisations.
pub fn can_create_organisation(owned_count: usize) -> (r: Result<(), ApplicationError>)
    ensures
        match r {
            Ok(()) => owned_count == 0,
            Err(e) => owned_count > 0 && (e matches ApplicationError::LimitReached(m) && m@
                == spec_limit_reached_message()),
        },
{
    proof {
        reveal_strlit("Only 1 owned organisation per user allowed for this plan.");
    }
    if owned_count == 0 {
        Ok(())
    } else {
        Err(
            ApplicationError::LimitReached(
                "Only 1 owned organisation per user allowed for this plan.".to_owned(),
            ),
        )
    }
}

} // verus!
