//! The DAO registry: the authoritative records of the managed units, their
//! owners and controllers.
use vstd::prelude::*;

use crate::ledger::VerificationError;
use crate::lifecycle::{clone_ids, install_code_call, nnsdao_change_controller, HostCall, HostError, InstallMode};
use crate::owner::OwnerService;
use crate::principal::{contains_principal, ids_view, PrincipalId};

verus! {

/// Why a registry operation failed.
#[derive(Debug, PartialEq, Eq)]
pub enum DaoError {
    /// The caller may not do this.
    PermissionDenied,
    /// An identity's text is malformed.
    InvalidPrincipal,
    /// No record has this id.
    NoSuchDao,
    /// The principal already is a controller of the unit.
    AlreadyController,
    /// A record already names this unit.
    AlreadyRegistered,
    /// Every record id has been handed out.
    IdsExhausted,
    /// The payment could not be verified.
    Verification(VerificationError),
    /// A host call failed before any unit was created.
    Host(HostError),
    /// A unit was created, but a later step failed; the unit is named so that
    /// it can be recovered by hand through `add_dao`.
    PartialProvisioning { canister_id: PrincipalId, error: HostError },
    /// The record was made, but its payment intent could not be marked paid.
    PaymentNotConsumed { record_id: u64, error: VerificationError },
    /// An event arrived that the workflow was not waiting for.
    UnexpectedEvent,
}

/// Whether a record's unit is running.
#[derive(Clone, Copy, Debug, PartialEq, Eq, Structural)]
pub enum DaoStatusCode {
    Active,
    Stopped,
}

/// The coordinates of a payment on the ledger.
#[derive(Clone, Copy, Debug, Default, PartialEq, Eq, Structural)]
pub struct CreateDaoOptions {
    pub block_height: u64,
    pub memo: u64,
}

/// Descriptive metadata of a new DAO.
#[derive(Clone, Debug, Default)]
pub struct AddDaoInfo {
    pub name: String,
    pub poster: String,
    pub avatar: String,
    pub tags: Vec<String>,
    pub intro: String,
    pub option: Option<std::collections::HashMap<String, String>>,
}

/// A change of a unit's controllers.
#[derive(Debug)]
pub enum ControllerAction {
    Add(PrincipalId),
    Remove(PrincipalId),
    Clear,
}

/// A registry record: one managed unit and who governs it.
#[derive(Debug)]
pub struct DaoInfo {
    pub id: u64,
    pub owner: PrincipalId,
    pub canister_id: PrincipalId,
    pub controllers: Vec<PrincipalId>,
    pub status: DaoStatusCode,
    pub created_at: u64,
    pub tags: Vec<String>,
}

/// `a` and `b` hold the same values.
pub open spec fn same_dao(a: DaoInfo, b: DaoInfo) -> bool {
    &&& a.id == b.id
    &&& a.owner@ == b.owner@
    &&& a.canister_id@ == b.canister_id@
    &&& ids_view(a.controllers@) == ids_view(b.controllers@)
    &&& a.status == b.status
    &&& a.created_at == b.created_at
    &&& a.tags@ == b.tags@
}

/// `a` and `b` hold the same values but for their controllers.
pub open spec fn same_but_controllers(a: DaoInfo, b: DaoInfo) -> bool {
    &&& a.id == b.id
    &&& a.owner@ == b.owner@
    &&& a.canister_id@ == b.canister_id@
    &&& a.status == b.status
    &&& a.created_at == b.created_at
    &&& a.tags@ == b.tags@
}

/// A copy of the strings of `list`.
fn clone_strings(list: &Vec<String>) -> (r: Vec<String>)
    ensures
        r@ == list@,
{
    let mut out: Vec<String> = Vec::new();
    let mut i: usize = 0;
    while i < list.len()
        invariant
            0 <= i <= list@.len(),
            out@ == list@.subrange(0, i as int),
        decreases list@.len() - i,
    {
        out.push(list[i].clone());
        i = i + 1;
        proof {
            assert(out@ =~= list@.subrange(0, i as int));
        }
    }
    proof {
        assert(list@.subrange(0, i as int) =~= list@);
    }
    out
}

impl DaoInfo {
    /// A copy of the record.
    pub fn duplicate(&self) -> (r: DaoInfo)
        ensures
            same_dao(r, *self),
    {
        DaoInfo {
            id: self.id,
            owner: self.owner.clone(),
            canister_id: self.canister_id.clone(),
            controllers: clone_ids(&self.controllers),
            status: self.status,
            created_at: self.created_at,
            tags: clone_strings(&self.tags),
        }
    }
}

/// `s` without the occurrences of `p`.
pub open spec fn without(s: Seq<Seq<u8>>, p: Seq<u8>) -> Seq<Seq<u8>>
    decreases s.len(),
{
    if s.len() == 0 {
        s
    } else {
        let prev = without(s.drop_last(), p);
        if s.last() == p {
            prev
        } else {
            prev.push(s.last())
        }
    }
}

/// `s`, with `me` appended where it is missing.
pub open spec fn retaining(s: Seq<Seq<u8>>, me: Seq<u8>) -> Seq<Seq<u8>> {
    if s.contains(me) {
        s
    } else {
        s.push(me)
    }
}

/// The controllers after `action` on `s`, the registry being `me`.
pub open spec fn applied(s: Seq<Seq<u8>>, action: ControllerAction, me: Seq<u8>) -> Seq<Seq<u8>> {
    retaining(
        match action {
            ControllerAction::Add(p) => s.push(p@),
            ControllerAction::Remove(p) => without(s, p@),
            ControllerAction::Clear => Seq::empty(),
        },
        me,
    )
}

/// Whatever the action, the registry's own identity is among the
/// controllers after it.
pub proof fn lemma_controller_self_retention(s: Seq<Seq<u8>>, action: ControllerAction, me: Seq<u8>)
    ensures
        applied(s, action, me).contains(me),
{
    let t = match action {
        ControllerAction::Add(p) => s.push(p@),
        ControllerAction::Remove(p) => without(s, p@),
        ControllerAction::Clear => Seq::empty(),
    };
    if !t.contains(me) {
        assert(t.push(me)[t.len() as int] == me);
    }
}

/// The controllers after the actions of `actions` on `s`, one after another.
pub open spec fn applied_all(s: Seq<Seq<u8>>, actions: Seq<ControllerAction>, me: Seq<u8>) -> Seq<Seq<u8>>
    decreases actions.len(),
{
    if actions.len() == 0 {
        s
    } else {
        applied(applied_all(s, actions.drop_last(), me), actions.last(), me)
    }
}

/// After any non-empty sequence of actions, the registry's own identity is
/// among the controllers.
pub proof fn lemma_controller_self_retention_all(s: Seq<Seq<u8>>, actions: Seq<ControllerAction>, me: Seq<u8>)
    requires
        actions.len() > 0,
    ensures
        applied_all(s, actions, me).contains(me),
{
    lemma_controller_self_retention(applied_all(s, actions.drop_last(), me), actions.last(), me);
}

/// `list` without the occurrences of `p`.
fn remove_principal(list: &Vec<PrincipalId>, p: &PrincipalId) -> (r: Vec<PrincipalId>)
    ensures
        ids_view(r@) == without(ids_view(list@), p@),
{
    let mut out: Vec<PrincipalId> = Vec::new();
    let mut i: usize = 0;
    while i < list.len()
        invariant
            0 <= i <= list@.len(),
            ids_view(out@) == without(ids_view(list@.subrange(0, i as int)), p@),
        decreases list@.len() - i,
    {
        let ghost before = ids_view(out@);
        proof {
            assert(ids_view(list@.subrange(0, i + 1)).drop_last() =~= ids_view(list@.subrange(0, i as int)));
            assert(ids_view(list@.subrange(0, i + 1)).last() == list@[i as int]@);
        }
        if !(list[i] == *p) {
            out.push(list[i].clone());
            proof {
                assert(ids_view(out@) =~= before.push(list@[i as int]@));
            }
        }
        i = i + 1;
    }
    proof {
        assert(list@.subrange(0, i as int) =~= list@);
    }
    out
}

/// The controllers after `action` on `list`, the registry being `me`.
pub fn apply_controller_action(list: &Vec<PrincipalId>, action: &ControllerAction, me: &PrincipalId) -> (r: Vec<PrincipalId>)
    ensures
        ids_view(r@) == applied(ids_view(list@), *action, me@),
{
    let mut out = match action {
        ControllerAction::Add(p) => {
            let mut v = clone_ids(list);
            v.push(p.clone());
            proof {
                assert(ids_view(v@) =~= ids_view(list@).push(p@));
            }
            v
        },
        ControllerAction::Remove(p) => remove_principal(list, p),
        ControllerAction::Clear => {
            let v: Vec<PrincipalId> = Vec::new();
            proof {
                assert(ids_view(v@) =~= Seq::<Seq<u8>>::empty());
            }
            v
        },
    };
    if !contains_principal(&out, me) {
        let ghost before = ids_view(out@);
        out.push(me.clone());
        proof {
            assert(ids_view(out@) =~= before.push(me@));
        }
    }
    out
}

/// The position of the record with id `id`.
pub open spec fn dao_index(s: Seq<DaoInfo>, id: u64) -> Option<int> {
    if exists|k: int| 0 <= k < s.len() && s[k].id == id {
        Some(choose|k: int| 0 <= k < s.len() && s[k].id == id)
    } else {
        None
    }
}

/// Whether `caller` may change the controllers of `rec`: its owner or an
/// administrator.
pub open spec fn may_manage(rec: DaoInfo, caller: Seq<u8>, owners: OwnerService) -> bool {
    rec.owner@ == caller || ids_view(owners.owners@).contains(caller)
}

/// The records, in the order they were made, and the next id to hand out.
pub struct DaoAdmin {
    pub dao: Vec<DaoInfo>,
    pub next_id: u64,
}

impl DaoAdmin {
    /// Record ids increase along the list and stay below the next id.
    pub open spec fn wf(&self) -> bool {
        ids_below(self.dao@, self.next_id)
    }

    /// No records.
    pub fn new() -> (r: DaoAdmin)
        ensures
            r.wf(),
            r.dao@.len() == 0,
            r.next_id == 0,
    {
        DaoAdmin { dao: Vec::new(), next_id: 0 }
    }

    /// A copy of the records, in registry order.
    pub fn dao_list(&self) -> (r: Vec<DaoInfo>)
        ensures
            r@.len() == self.dao@.len(),
            forall|i: int| 0 <= i < r@.len() ==> same_dao(#[trigger] r@[i], self.dao@[i]),
    {
        let mut out: Vec<DaoInfo> = Vec::new();
        let mut i: usize = 0;
        while i < self.dao.len()
            invariant
                0 <= i <= self.dao@.len(),
                out@.len() == i,
                forall|j: int| 0 <= j < i ==> same_dao(#[trigger] out@[j], self.dao@[j]),
            decreases self.dao@.len() - i,
        {
            out.push(self.dao[i].duplicate());
            i = i + 1;
        }
        out
    }

    /// Whether a record names the unit `canister_id`.
    pub fn dao_exist(&self, canister_id: &PrincipalId) -> (r: bool)
        ensures
            r == exists|k: int| 0 <= k < self.dao@.len() && (#[trigger] self.dao@[k]).canister_id@ == canister_id@,
    {
        let mut i: usize = 0;
        while i < self.dao.len()
            invariant
                0 <= i <= self.dao@.len(),
                forall|k: int| 0 <= k < i ==> (#[trigger] self.dao@[k]).canister_id@ != canister_id@,
            decreases self.dao@.len() - i,
        {
            if self.dao[i].canister_id == *canister_id {
                return true;
            }
            i = i + 1;
        }
        false
    }

    /// The position of the record with id `id`.
    fn find_dao(&self, id: u64) -> (r: Option<usize>)
        ensures
            r is None <==> dao_index(self.dao@, id) is None,
            r matches Some(k) ==> k < self.dao@.len() && self.dao@[k as int].id == id,
    {
        let mut i: usize = 0;
        while i < self.dao.len()
            invariant
                0 <= i <= self.dao@.len(),
                forall|k: int| 0 <= k < i ==> (#[trigger] self.dao@[k]).id != id,
            decreases self.dao@.len() - i,
        {
            if self.dao[i].id == id {
                return Some(i);
            }
            i = i + 1;
        }
        None
    }

    /// Makes a record for the unit `canister_id`, owned and controlled by
    /// `owner`, under the next id.
    pub(crate) fn insert_dao(&mut self, owner: &PrincipalId, canister_id: &PrincipalId, tags: Vec<String>, now: u64) -> (r: Result<DaoInfo, DaoError>)
        requires
            old(self).wf(),
        ensures
            final(self).wf(),
            final(self).next_id >= old(self).next_id,
            (exists|k: int| 0 <= k < old(self).dao@.len() && (#[trigger] old(self).dao@[k]).canister_id@ == canister_id@)
                ==> r == Err::<DaoInfo, DaoError>(DaoError::AlreadyRegistered),
            r is Err ==> final(self).dao@ == old(self).dao@ && final(self).next_id == old(self).next_id,
            !(exists|k: int| 0 <= k < old(self).dao@.len() && (#[trigger] old(self).dao@[k]).canister_id@ == canister_id@)
                && old(self).next_id == u64::MAX ==> r == Err::<DaoInfo, DaoError>(DaoError::IdsExhausted),
            r is Ok <==> (!(exists|k: int| 0 <= k < old(self).dao@.len() && (#[trigger] old(self).dao@[k]).canister_id@ == canister_id@)
                && old(self).next_id < u64::MAX),
            r matches Ok(rec) ==> {
                &&& rec.id == old(self).next_id
                &&& rec.owner@ == owner@
                &&& rec.canister_id@ == canister_id@
                &&& ids_view(rec.controllers@) == seq![owner@]
                &&& rec.status == DaoStatusCode::Active
                &&& rec.created_at == now
                &&& rec.tags@ == tags@
                &&& final(self).next_id == old(self).next_id + 1
                &&& final(self).dao@.len() == old(self).dao@.len() + 1
                &&& final(self).dao@.drop_last() == old(self).dao@
                &&& same_dao(final(self).dao@.last(), rec)
            },
    {
        if self.dao_exist(canister_id) {
            return Err(DaoError::AlreadyRegistered);
        }
        if self.next_id == u64::MAX {
            return Err(DaoError::IdsExhausted);
        }
        let mut controllers: Vec<PrincipalId> = Vec::new();
        controllers.push(owner.clone());
        proof {
            assert(ids_view(controllers@) =~= seq![owner@]);
        }
        let rec = DaoInfo {
            id: self.next_id,
            owner: owner.clone(),
            canister_id: canister_id.clone(),
            controllers,
            status: DaoStatusCode::Active,
            created_at: now,
            tags,
        };
        let ghost before = self.dao@;
        self.dao.push(rec.duplicate());
        self.next_id = self.next_id + 1;
        proof {
            lemma_monotonic_ids(before, old(self).next_id, self.dao@.last());
            assert(self.dao@.drop_last() =~= before);
            assert(self.dao@ =~= before.push(self.dao@.last()));
        }
        Ok(rec)
    }

    /// Imports a unit made outside the payment flow, named by its text; the
    /// caller, who must be an administrator, becomes its owner. Fails on a
    /// malformed identity, a unit already recorded, or exhausted ids.
    pub fn add_dao(&mut self, caller: &PrincipalId, owners: &OwnerService, canister_id: &str, now: u64) -> (r: Result<DaoInfo, DaoError>)
        requires
            old(self).wf(),
        ensures
            final(self).wf(),
            !ids_view(owners.owners@).contains(caller@) ==> r == Err::<DaoInfo, DaoError>(DaoError::PermissionDenied),
            ids_view(owners.owners@).contains(caller@) && crate::principal::principal_text_bytes(canister_id@) is None
                ==> r == Err::<DaoInfo, DaoError>(DaoError::InvalidPrincipal),
            r is Err ==> final(self).dao@ == old(self).dao@ && final(self).next_id == old(self).next_id,
            r matches Ok(rec) ==> {
                &&& ids_view(owners.owners@).contains(caller@)
                &&& crate::principal::principal_text_bytes(canister_id@) == Some(rec.canister_id@)
                &&& rec.id == old(self).next_id
                &&& rec.owner@ == caller@
                &&& ids_view(rec.controllers@) == seq![caller@]
                &&& rec.status == DaoStatusCode::Active
                &&& rec.created_at == now
                &&& rec.tags@.len() == 0
                &&& final(self).next_id == old(self).next_id + 1
                &&& final(self).dao@.drop_last() == old(self).dao@
                &&& final(self).dao@.len() == old(self).dao@.len() + 1
                &&& same_dao(final(self).dao@.last(), rec)
            },
            (ids_view(owners.owners@).contains(caller@) && crate::principal::principal_text_bytes(canister_id@) is Some)
                ==> if exists|k: int| 0 <= k < old(self).dao@.len()
                && (#[trigger] old(self).dao@[k]).canister_id@ == crate::principal::principal_text_bytes(canister_id@)->0 {
                    r == Err::<DaoInfo, DaoError>(DaoError::AlreadyRegistered)
                } else if old(self).next_id == u64::MAX {
                    r == Err::<DaoInfo, DaoError>(DaoError::IdsExhausted)
                } else {
                    r is Ok
                },
    {
        if !owners.is_owner(caller) {
            return Err(DaoError::PermissionDenied);
        }
        let unit = match PrincipalId::from_text(canister_id) {
            Some(p) => p,
            None => return Err(DaoError::InvalidPrincipal),
        };
        self.insert_dao(caller, &unit, Vec::new(), now)
    }

    /// Changes the controllers of record `record_id` by `action`, where the
    /// caller is its owner or an administrator, keeping the registry's own
    /// identity among them. Returns the host call to make: it sets the unit's
    /// controllers to those before the change and the registry's identity.
    pub fn update_dao_controller(
        &mut self,
        caller: &PrincipalId,
        owners: &OwnerService,
        record_id: u64,
        action: ControllerAction,
        self_id: &PrincipalId,
    ) -> (r: Result<HostCall, DaoError>)
        requires
            old(self).wf(),
        ensures
            final(self).wf(),
            final(self).next_id == old(self).next_id,
            r is Err ==> final(self).dao@ == old(self).dao@,
            dao_index(old(self).dao@, record_id) is None ==> r == Err::<HostCall, DaoError>(DaoError::NoSuchDao),
            dao_index(old(self).dao@, record_id) matches Some(k) ==> {
                let rec = old(self).dao@[k];
                let before = ids_view(rec.controllers@);
                if !may_manage(rec, caller@, *owners) {
                    r == Err::<HostCall, DaoError>(DaoError::PermissionDenied)
                } else if action matches ControllerAction::Add(p) && before.contains(p@) {
                    r == Err::<HostCall, DaoError>(DaoError::AlreadyController)
                } else {
                    &&& r matches Ok(HostCall::UpdateControllers { canister_id: u, controllers: c })
                        && u@ == rec.canister_id@ && ids_view(c@) == before.push(self_id@)
                    &&& final(self).dao@.len() == old(self).dao@.len()
                    &&& forall|j: int| 0 <= j < old(self).dao@.len() && j != k ==> final(self).dao@[j] == old(self).dao@[j]
                    &&& same_but_controllers(final(self).dao@[k], rec)
                    &&& ids_view(final(self).dao@[k].controllers@) == applied(before, action, self_id@)
                    &&& ids_view(final(self).dao@[k].controllers@).contains(self_id@)
                }
            },
    {
        let k = match self.find_dao(record_id) {
            Some(k) => k,
            None => return Err(DaoError::NoSuchDao),
        };
        proof {
            if let Some(k2) = dao_index(self.dao@, record_id) {
                if k2 != k as int {
                    if k2 < k as int {
                        assert(self.dao@[k2].id < self.dao@[k as int].id);
                    } else {
                        assert(self.dao@[k as int].id < self.dao@[k2].id);
                    }
                }
            }
        }
        let ghost rec0 = self.dao@[k as int];
        if !(self.dao[k].owner == *caller) && !owners.is_owner(caller) {
            return Err(DaoError::PermissionDenied);
        }
        if let ControllerAction::Add(p) = &action {
            if contains_principal(&self.dao[k].controllers, p) {
                return Err(DaoError::AlreadyController);
            }
        }
        let call = nnsdao_change_controller(&self.dao[k].controllers, &self.dao[k].canister_id, self_id);
        let next = apply_controller_action(&self.dao[k].controllers, &action, self_id);
        proof {
            lemma_controller_self_retention(ids_view(rec0.controllers@), action, self_id@);
        }
        let mut rec = self.dao[k].duplicate();
        rec.controllers = next;
        let ghost old_dao = self.dao@;
        self.dao.set(k, rec);
        proof {
            assert forall|a: int, b: int| 0 <= a < b < self.dao@.len() implies (#[trigger] self.dao@[a]).id < (#[trigger] self.dao@[b]).id by {
                assert(old_dao[a].id < old_dao[b].id);
            }
            assert forall|a: int| 0 <= a < self.dao@.len() implies (#[trigger] self.dao@[a]).id < self.next_id by {
                assert(old_dao[a].id < self.next_id);
            }
        }
        Ok(call)
    }

    /// The next step of installing code into every unit, in registry order,
    /// where the caller is an administrator. `done` units have been handled
    /// and `last` is what the latest call returned; the first failure ends the
    /// run. `Ok(None)` means that all units are done.
    fn bulk_install_step(
        &self,
        caller: &PrincipalId,
        owners: &OwnerService,
        mode: InstallMode,
        done: usize,
        last: &Result<(), HostError>,
    ) -> (r: Result<Option<HostCall>, DaoError>)
        ensures
            !ids_view(owners.owners@).contains(caller@) ==> r == Err::<Option<HostCall>, DaoError>(DaoError::PermissionDenied),
            ids_view(owners.owners@).contains(caller@) ==> match last {
                Err(e) => r == Err::<Option<HostCall>, DaoError>(DaoError::Host(*e)),
                Ok(_) => if done < self.dao@.len() {
                    r matches Ok(Some(HostCall::InstallCode { mode: m, canister_id: u, owner: o }))
                        && m == mode && u@ == self.dao@[done as int].canister_id@
                        && o@ == if mode == InstallMode::Reinstall {
                            caller@
                        } else {
                            self.dao@[done as int].owner@
                        }
                } else {
                    r matches Ok(None)
                },
            },
    {
        if !owners.is_owner(caller) {
            return Err(DaoError::PermissionDenied);
        }
        match last {
            Err(e) => Err(DaoError::Host(e.clone())),
            Ok(_) => {
                if done < self.dao.len() {
                    let rec = &self.dao[done];
                    let owner = if mode == InstallMode::Reinstall {
                        caller
                    } else {
                        &rec.owner
                    };
                    Ok(Some(install_code_call(mode, owner, &rec.canister_id)))
                } else {
                    Ok(None)
                }
            },
        }
    }

    /// The next step of upgrading the code of every unit, keeping each
    /// unit's state; see `bulk_install_step`.
    pub fn upgrade_canister(&self, caller: &PrincipalId, owners: &OwnerService, done: usize, last: &Result<(), HostError>) -> (r: Result<Option<HostCall>, DaoError>)
        ensures
            !ids_view(owners.owners@).contains(caller@) ==> r == Err::<Option<HostCall>, DaoError>(DaoError::PermissionDenied),
            ids_view(owners.owners@).contains(caller@) ==> match last {
                Err(e) => r == Err::<Option<HostCall>, DaoError>(DaoError::Host(*e)),
                Ok(_) => if done < self.dao@.len() {
                    r matches Ok(Some(HostCall::InstallCode { mode: m, canister_id: u, owner: o }))
                        && m == InstallMode::Upgrade && u@ == self.dao@[done as int].canister_id@
                        && o@ == self.dao@[done as int].owner@
                } else {
                    r matches Ok(None)
                },
            },
    {
        self.bulk_install_step(caller, owners, InstallMode::Upgrade, done, last)
    }

    /// The next step of reinstalling the code of every unit, wiping each
    /// unit's state, with the caller as the new code's owner; see
    /// `bulk_install_step`.
    pub fn reinstall_canister(&self, caller: &PrincipalId, owners: &OwnerService, done: usize, last: &Result<(), HostError>) -> (r: Result<Option<HostCall>, DaoError>)
        ensures
            !ids_view(owners.owners@).contains(caller@) ==> r == Err::<Option<HostCall>, DaoError>(DaoError::PermissionDenied),
            ids_view(owners.owners@).contains(caller@) ==> match last {
                Err(e) => r == Err::<Option<HostCall>, DaoError>(DaoError::Host(*e)),
                Ok(_) => if done < self.dao@.len() {
                    r matches Ok(Some(HostCall::InstallCode { mode: m, canister_id: u, owner: o }))
                        && m == InstallMode::Reinstall && u@ == self.dao@[done as int].canister_id@
                        && o@ == caller@
                } else {
                    r matches Ok(None)
                },
            },
    {
        self.bulk_install_step(caller, owners, InstallMode::Reinstall, done, last)
    }
}

/// Ids increase along `s` and stay below `next_id`.
pub open spec fn ids_below(s: Seq<DaoInfo>, next_id: u64) -> bool {
    &&& forall|a: int, b: int| 0 <= a < b < s.len() ==> (#[trigger] s[a]).id < (#[trigger] s[b]).id
    &&& forall|a: int| 0 <= a < s.len() ==> (#[trigger] s[a]).id < next_id
}

/// A record made under the next id has an id greater than every earlier
/// record's, so ids are handed out in increasing order and never twice; and
/// the registry stays well formed with the next id one further.
pub proof fn lemma_monotonic_ids(before: Seq<DaoInfo>, next_id: u64, rec: DaoInfo)
    requires
        ids_below(before, next_id),
        rec.id == next_id,
        next_id < u64::MAX,
    ensures
        forall|a: int| 0 <= a < before.len() ==> (#[trigger] before[a]).id < rec.id,
        ids_below(before.push(rec), (next_id + 1) as u64),
{
    let after = before.push(rec);
    assert forall|a: int, b: int| 0 <= a < b < after.len() implies (#[trigger] after[a]).id < (#[trigger] after[b]).id by {
        if b < before.len() {
            assert(before[a].id < before[b].id);
        } else {
            assert(before[a].id < next_id);
        }
    }
    assert forall|a: int| 0 <= a < after.len() implies (#[trigger] after[a]).id < next_id + 1 by {
        if a < before.len() {
            assert(before[a].id < next_id);
        }
    }
}

} // verus!
