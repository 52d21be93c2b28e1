//! The global administrators: the identities that may manage every record.
use vstd::prelude::*;

use crate::lifecycle::clone_ids;
use crate::principal::{contains_principal, ids_view, PrincipalId};
use crate::registry::DaoError;

verus! {

/// The set of administrators, each listed once.
pub struct OwnerService {
    pub owners: Vec<PrincipalId>,
}

impl OwnerService {
    /// Each administrator is listed once.
    pub open spec fn wf(&self) -> bool {
        ids_view(self.owners@).no_duplicates()
    }

    /// The administrators, as a set of identities.
    pub open spec fn members(&self) -> Set<Seq<u8>> {
        ids_view(self.owners@).to_set()
    }

    /// The administrators at start: the deployer alone.
    pub fn new(deployer: PrincipalId) -> (r: OwnerService)
        ensures
            r.wf(),
            ids_view(r.owners@) == seq![deployer@],
    {
        let mut owners: Vec<PrincipalId> = Vec::new();
        owners.push(deployer);
        proof {
            assert(ids_view(owners@) =~= seq![deployer@]);
        }
        OwnerService { owners }
    }

    /// Whether `p` is an administrator.
    pub fn is_owner(&self, p: &PrincipalId) -> (r: bool)
        ensures
            r == ids_view(self.owners@).contains(p@),
    {
        contains_principal(&self.owners, p)
    }

    /// Adds `p` to the administrators, where `caller` is one; adding one who
    /// already is changes nothing. Returns the administrators after.
    pub fn add_owner(&mut self, caller: &PrincipalId, p: PrincipalId) -> (r: Result<Vec<PrincipalId>, DaoError>)
        requires
            old(self).wf(),
        ensures
            final(self).wf(),
            !ids_view(old(self).owners@).contains(caller@) ==> r == Err::<Vec<PrincipalId>, DaoError>(DaoError::PermissionDenied)
                && final(self).owners@ == old(self).owners@,
            ids_view(old(self).owners@).contains(caller@) ==> r is Ok && ids_view(final(self).owners@) == if ids_view(
                old(self).owners@,
            ).contains(p@) {
                ids_view(old(self).owners@)
            } else {
                ids_view(old(self).owners@).push(p@)
            },
            r matches Ok(list) ==> ids_view(list@) == ids_view(final(self).owners@),
    {
        if !self.is_owner(caller) {
            return Err(DaoError::PermissionDenied);
        }
        if !self.is_owner(&p) {
            let ghost before = ids_view(self.owners@);
            let ghost pv = p@;
            self.owners.push(p);
            proof {
                assert(ids_view(self.owners@) =~= before.push(pv));
                assert forall|i: int, j: int|
                    0 <= i < j < ids_view(self.owners@).len() implies ids_view(self.owners@)[i]
                    != ids_view(self.owners@)[j] by {
                    if j == before.len() {
                        assert(before[i] == ids_view(self.owners@)[i]);
                    } else {
                        assert(before[i] != before[j]);
                    }
                }
            }
        }
        Ok(clone_ids(&self.owners))
    }

    /// The administrators, where `caller` is one.
    pub fn get_owners(&self, caller: &PrincipalId) -> (r: Result<Vec<PrincipalId>, DaoError>)
        ensures
            ids_view(self.owners@).contains(caller@) <==> r is Ok,
            r matches Ok(list) ==> ids_view(list@) == ids_view(self.owners@),
            r matches Err(e) ==> e == DaoError::PermissionDenied,
    {
        if !self.is_owner(caller) {
            return Err(DaoError::PermissionDenied);
        }
        Ok(clone_ids(&self.owners))
    }
}

} // verus!
