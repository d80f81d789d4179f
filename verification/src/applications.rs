//! Applications — the tenant-owned resources — as the service layer sees
//! them: request shapes, the stored shape, and the constructions the
//! handlers perform.

use vstd::prelude::*;

verus! {

/// What a caller submits to create an application.
#[derive(Debug)]
pub struct ApplicationCreateRequest {
    pub name: String,
    pub description: Option<String>,
}

/// What a caller submits to update an application.
#[derive(Debug)]
pub struct ApplicationPutRequest {
    pub name: String,
    pub description: Option<String>,
}

/// A stored application, owned by one organisation.
#[derive(Debug)]
pub struct Application {
    pub id: u128,
    pub organisation_id: u128,
    pub name: String,
    pub description: Option<String>,
    pub created_at: i64,
}

/// The column values an update writes.
#[derive(Debug)]
pub struct PutApplication {
    pub name: String,
    pub description: Option<String>,
}

impl ApplicationCreateRequest {
    /// The stored application this request becomes, bound to the tenant the
    /// request was scoped to.
    pub fn into_with_organisation(self, organisation_id: u128, id: u128, now: i64) -> (r:
        Application)
        ensures
            r.id == id,
            r.organisation_id == organisation_id,
            r.name == self.name,
            r.description == self.description,
            r.created_at == now,
    {
        Application {
            id,
            organisation_id,
            name: self.name,
            description: self.description,
            created_at: now,
        }
    }
}

/// The column values an update request writes.
pub fn into_put_application(request: ApplicationPutRequest) -> (r: PutApplication)
    ensures
        r.name == request.name,
        r.description == request.description,
{
    PutApplication { name: request.name, description: request.description }
}

} // verus!
