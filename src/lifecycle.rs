//! What the lifecycle manager asks of the host's unit-management API.
//!
//! Each operation on a managed unit is one host call, or a short fixed
//! sequence of them; this module decides what those calls carry. The calls
//! themselves are made by the caller of the library.
use vstd::prelude::*;

use crate::principal::{ids_view, PrincipalId};

verus! {

/// The resource budget that the host gives a new unit on its own.
pub const DEFAULT_CYCLES: u128 = 1_000_000_000_000;

/// The resource budget that the registry asks for each unit it creates.
pub const CREATE_CYCLES: u128 = 1_000_000_000_000;

/// How code is put into a unit.
#[derive(Clone, Copy, Debug, PartialEq, Eq, Structural)]
pub enum InstallMode {
    /// Into a freshly created unit without code.
    Install,
    /// Wiping the unit's state and code.
    Reinstall,
    /// Swapping the code, keeping the unit's state.
    Upgrade,
}

/// A failed host call: the host's reject code and its message.
#[derive(Debug, PartialEq, Eq)]
pub struct HostError {
    pub code: u32,
    pub message: String,
}

impl Clone for HostError {
    fn clone(&self) -> (r: Self)
        ensures
            r == *self,
    {
        HostError { code: self.code, message: self.message.clone() }
    }
}

/// A call to make outside the library.
#[derive(Debug)]
pub enum HostCall {
    /// Fetch the ledger block at this height.
    FetchBlock { block_height: u64 },
    /// Create a unit with these controllers and this much of its budget.
    CreateUnit { controllers: Vec<PrincipalId>, cycles: u128 },
    /// Add this much budget to a unit.
    DepositCycles { canister_id: PrincipalId, cycles: u128 },
    /// Install code into a unit, with `owner` as its initialisation argument.
    InstallCode { mode: InstallMode, canister_id: PrincipalId, owner: PrincipalId },
    /// Set the controllers of a unit.
    UpdateControllers { canister_id: PrincipalId, controllers: Vec<PrincipalId> },
}

/// A copy of the identities of `list`.
pub fn clone_ids(list: &Vec<PrincipalId>) -> (r: Vec<PrincipalId>)
    ensures
        ids_view(r@) == ids_view(list@),
{
    let mut out: Vec<PrincipalId> = Vec::new();
    let mut i: usize = 0;
    while i < list.len()
        invariant
            0 <= i <= list@.len(),
            out@.len() == i,
            forall|j: int| 0 <= j < i ==> (#[trigger] out@[j])@ == list@[j]@,
        decreases list@.len() - i,
    {
        let p = list[i].clone();
        out.push(p);
        i = i + 1;
    }
    proof {
        assert(ids_view(out@) =~= ids_view(list@));
    }
    out
}

/// `controllers` followed by the registry's own identity: the list that every
/// host call setting a unit's controllers carries, so that the registry keeps
/// control of the unit.
pub fn controllers_with_self(controllers: &Vec<PrincipalId>, self_id: &PrincipalId) -> (r: Vec<PrincipalId>)
    ensures
        ids_view(r@) == ids_view(controllers@).push(self_id@),
{
    let mut out = clone_ids(controllers);
    out.push(self_id.clone());
    proof {
        assert(ids_view(out@) =~= ids_view(controllers@).push(self_id@));
    }
    out
}

/// The budget beyond the host's default reservation, which a follow-up
/// deposit has to add; zero where there is none.
pub fn deposit_remainder(cycles: u128) -> (r: u128)
    ensures
        r == if cycles > DEFAULT_CYCLES {
            cycles - DEFAULT_CYCLES
        } else {
            0
        },
{
    if cycles > DEFAULT_CYCLES {
        cycles - DEFAULT_CYCLES
    } else {
        0
    }
}

/// The host call that creates a unit for `controllers` with the budget
/// `cycles`; the registry's own identity is appended to the controllers. The
/// unit is created with the budget up to the host's default reservation; the
/// rest, `deposit_remainder(cycles)`, is deposited by a follow-up call.
pub fn nnsdao_create_canister(controllers: &Vec<PrincipalId>, cycles: u128, self_id: &PrincipalId) -> (r: HostCall)
    ensures
        r matches HostCall::CreateUnit { controllers: c, cycles: n } && ids_view(c@) == ids_view(
            controllers@,
        ).push(self_id@) && n == if cycles > DEFAULT_CYCLES {
            DEFAULT_CYCLES
        } else {
            cycles
        },
{
    let first = if cycles > DEFAULT_CYCLES {
        DEFAULT_CYCLES
    } else {
        cycles
    };
    HostCall::CreateUnit { controllers: controllers_with_self(controllers, self_id), cycles: first }
}

/// The host call that sets the controllers of `canister_id` to `controllers`
/// and the registry's own identity.
pub fn nnsdao_change_controller(controllers: &Vec<PrincipalId>, canister_id: &PrincipalId, self_id: &PrincipalId) -> (r: HostCall)
    ensures
        r matches HostCall::UpdateControllers { canister_id: u, controllers: c } && u@ == canister_id@
            && ids_view(c@) == ids_view(controllers@).push(self_id@),
{
    HostCall::UpdateControllers {
        canister_id: canister_id.clone(),
        controllers: controllers_with_self(controllers, self_id),
    }
}

/// The host call that installs code into `canister_id` in `mode`, with `owner`
/// as the initialisation argument.
pub fn install_code_call(mode: InstallMode, owner: &PrincipalId, canister_id: &PrincipalId) -> (r: HostCall)
    ensures
        r matches HostCall::InstallCode { mode: m, canister_id: u, owner: o } && m == mode && u@
            == canister_id@ && o@ == owner@,
{
    HostCall::InstallCode { mode, canister_id: canister_id.clone(), owner: owner.clone() }
}

/// The host call that installs code into the freshly created `canister_id`.
pub fn nnsdao_install_code(owner: &PrincipalId, canister_id: &PrincipalId) -> (r: HostCall)
    ensures
        r matches HostCall::InstallCode { mode: m, canister_id: u, owner: o } && m
            == InstallMode::Install && u@ == canister_id@ && o@ == owner@,
{
    install_code_call(InstallMode::Install, owner, canister_id)
}

/// The host call that wipes `canister_id` and installs its code anew.
pub fn nnsdao_reinstall_code(owner: &PrincipalId, canister_id: &PrincipalId) -> (r: HostCall)
    ensures
        r matches HostCall::InstallCode { mode: m, canister_id: u, owner: o } && m
            == InstallMode::Reinstall && u@ == canister_id@ && o@ == owner@,
{
    install_code_call(InstallMode::Reinstall, owner, canister_id)
}

/// The host call that swaps the code of `canister_id`, keeping its state.
pub fn nnsdao_upgrade_code(owner: &PrincipalId, canister_id: &PrincipalId) -> (r: HostCall)
    ensures
        r matches HostCall::InstallCode { mode: m, canister_id: u, owner: o } && m
            == InstallMode::Upgrade && u@ == canister_id@ && o@ == owner@,
{
    install_code_call(InstallMode::Upgrade, owner, canister_id)
}

} // verus!
