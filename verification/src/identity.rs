//! Who is calling: the request-scoped identity derived once from verified
//! claims, and the tenant binding derived from it. Both live only for the
//! request that produced them.

use vstd::prelude::*;
use crate::errors::{ApplicationError, RequestError};
use crate::headers::ORGANISATION_ID_HEADER;

verus! {

/// The server-resolved caller: the verified user and the organisations the
/// token grants access to.
#[derive(Debug)]
pub struct Identity {
    pub user_id: u128,
    pub organisation_ids: Vec<u128>,
}

impl Clone for Identity {
    /// An identical caller, organisation for organisation.
    fn clone(&self) -> (r: Self)
        ensures
            r.user_id == self.user_id,
            r.organisation_ids@ == self.organisation_ids@,
    {
        Identity { user_id: self.user_id, organisation_ids: self.organisation_ids.clone() }
    }
}

/// One tenant, validated to be among the caller's accessible organisations.
#[derive(Debug, Clone, Copy, PartialEq, Eq, Structural)]
pub struct OrganisationId(pub u128);

impl Identity {
    /// Whether the caller may touch `organisation_id`'s data.
    pub fn has_organisation(&self, organisation_id: u128) -> (r: bool)
        ensures
            r == self.organisation_ids@.contains(organisation_id),
    {
        let n = self.organisation_ids.len();
        for i in 0..n
            invariant
                n == self.organisation_ids@.len(),
                forall|j: int| 0 <= j < i ==> self.organisation_ids@[j] != organisation_id,
        {
            if self.organisation_ids[i] == organisation_id {
                return true;
            }
        }
        false
    }
}

/// A handler's view of the request's identity: absent — because the
/// authentication stage was skipped or has not run — resolves to
/// `Unauthorized`, never to public access.
pub fn identity_from_context(identity: &Option<Identity>) -> (r: Result<
    Identity,
    ApplicationError,
>)
    ensures
        match r {
            Ok(id) => identity matches Some(i) && id.user_id == i.user_id
                && id.organisation_ids@ == i.organisation_ids@,
            Err(e) => identity is None && e is Unauthorized,
        },
{
    match identity {
        Some(identity) => Ok(identity.clone()),
        None => Err(ApplicationError::Unauthorized),
    }
}

/// A handler's view of the request's tenant binding: absent means the
/// tenant-scoping stage never ran, reported as the missing header.
pub fn organisation_id_from_context(organisation_id: &Option<OrganisationId>) -> (r: Result<
    OrganisationId,
    RequestError,
>)
    ensures
        match r {
            Ok(o) => organisation_id matches Some(v) && o == v,
            Err(e) => organisation_id is None && (e matches RequestError::HeaderNotFound(h)
                && h@ == ORGANISATION_ID_HEADER@),
        },
{
    match organisation_id {
        Some(o) => Ok(*o),
        None => Err(RequestError::HeaderNotFound(ORGANISATION_ID_HEADER.to_owned())),
    }
}

} // verus!
