//! The store that every operation works on, and the create workflow: verify
//! the payment, create and install a unit, record it, consume the payment.
//!
//! Each host call is a point where the workflow waits. The workflow is a
//! state machine: a step takes the state and what the last call returned,
//! changes the store, and names the next call, or ends with the outcome.
//! Nothing done by an earlier step is undone when a later one fails.
use vstd::prelude::*;

use crate::ledger::{account_text_of, verify_step, ICPService, LedgerBlock};
use crate::lifecycle::{deposit_remainder, nnsdao_create_canister, nnsdao_install_code, HostCall, HostError, InstallMode, CREATE_CYCLES};
use crate::owner::OwnerService;
use crate::principal::{ids_view, PrincipalId};
use crate::registry::{same_dao, AddDaoInfo, CreateDaoOptions, DaoAdmin, DaoError, DaoInfo, DaoStatusCode};

verus! {

/// All state: administrators, registry and payment intents.
pub struct Data {
    pub owners: OwnerService,
    pub dao_admin: DaoAdmin,
    pub icp_service: ICPService,
}

/// Where a create workflow stands: the call it waits for.
#[derive(Debug)]
pub enum CreateStage {
    /// The ledger block, to verify the payment.
    VerifyPayment,
    /// The creation of the unit.
    CreateUnit,
    /// The deposit of the rest of the budget into the unit.
    Deposit { canister_id: PrincipalId },
    /// The installation of code into the unit.
    Install { canister_id: PrincipalId },
    /// The ledger block again, to mark the payment consumed.
    ConsumePayment { record: DaoInfo },
}

/// A create workflow under way.
#[derive(Debug)]
pub struct CreateDaoFlow {
    pub caller: PrincipalId,
    pub options: CreateDaoOptions,
    pub tags: Vec<String>,
    pub now: u64,
    pub stage: CreateStage,
}

/// What the call that a workflow waited for returned.
#[derive(Debug)]
pub enum CreateEvent {
    BlockFetched(Result<LedgerBlock, String>),
    UnitCreated(Result<PrincipalId, HostError>),
    Deposited(Result<(), HostError>),
    Installed(Result<(), HostError>),
}

/// The result of a step: the next call to make, or the outcome.
#[derive(Debug)]
pub enum CreateStep {
    Call { flow: CreateDaoFlow, call: HostCall },
    Done(Result<DaoInfo, DaoError>),
}

/// `f` continues `flow` with the same caller, payment, tags and time.
pub open spec fn same_request(f: CreateDaoFlow, flow: CreateDaoFlow) -> bool {
    &&& f.caller@ == flow.caller@
    &&& f.options == flow.options
    &&& f.tags@ == flow.tags@
    &&& f.now == flow.now
}

/// The step goes on to install code into `u` for the caller.
pub open spec fn goes_to_install(r: CreateStep, flow: CreateDaoFlow, u: Seq<u8>) -> bool {
    r matches CreateStep::Call { flow: f, call: HostCall::InstallCode { mode: m, canister_id: c, owner: o } }
        && same_request(f, flow) && (f.stage matches CreateStage::Install { canister_id: s } && s@ == u)
        && m == InstallMode::Install && c@ == u && o@ == flow.caller@
}

impl Data {
    pub open spec fn wf(&self) -> bool {
        self.owners.wf() && self.dao_admin.wf()
    }

    /// The state at start: the deployer as the one administrator, no records
    /// and no intents.
    pub fn new(deployer: PrincipalId) -> (r: Data)
        ensures
            r.wf(),
            ids_view(r.owners.owners@) == seq![deployer@],
            r.dao_admin.dao@.len() == 0,
            r.dao_admin.next_id == 0,
            r.icp_service.transactions@.len() == 0,
    {
        Data { owners: OwnerService::new(deployer), dao_admin: DaoAdmin::new(), icp_service: ICPService::new() }
    }
}

impl DaoAdmin {
    /// Starts the creation of a DAO paid for by `caller` at the ledger
    /// coordinates `options`: the first call fetches the paying block.
    pub fn create_dao(caller: PrincipalId, options: CreateDaoOptions, info: &AddDaoInfo, now: u64) -> (r: (CreateDaoFlow, HostCall))
        ensures
            r.0.caller@ == caller@,
            r.0.options == options,
            r.0.tags@ == info.tags@,
            r.0.now == now,
            r.0.stage is VerifyPayment,
            r.1 == (HostCall::FetchBlock { block_height: options.block_height }),
    {
        let mut tags: Vec<String> = Vec::new();
        let mut i: usize = 0;
        while i < info.tags.len()
            invariant
                0 <= i <= info.tags@.len(),
                tags@ == info.tags@.subrange(0, i as int),
            decreases info.tags@.len() - i,
        {
            tags.push(info.tags[i].clone());
            i = i + 1;
            proof {
                assert(tags@ =~= info.tags@.subrange(0, i as int));
            }
        }
        proof {
            assert(info.tags@.subrange(0, i as int) =~= info.tags@);
        }
        let flow = CreateDaoFlow { caller, options, tags, now, stage: CreateStage::VerifyPayment };
        (flow, HostCall::FetchBlock { block_height: options.block_height })
    }

    /// Takes the create workflow `flow` one step on, given what the call it
    /// waited for returned; `self_id` is the registry's own identity, and `icp_service` holds the payment intents.
    pub fn create_dao_step(&mut self, icp_service: &mut ICPService, flow: CreateDaoFlow, event: CreateEvent, self_id: &PrincipalId) -> (r: CreateStep)
        requires
            old(self).wf(),
        ensures
            final(self).wf(),
            final(self).next_id >= old(self).next_id,
            match (flow.stage, event) {
                (CreateStage::VerifyPayment, CreateEvent::BlockFetched(b)) => {
                    let v = verify_step(
                        old(icp_service).transactions@,
                        account_text_of(flow.caller@),
                        account_text_of(self_id@),
                        flow.options.memo,
                        b,
                        false,
                    ).1;
                    &&& final(icp_service).transactions@ == old(icp_service).transactions@
                    &&& *final(self) == *old(self)
                    &&& match v {
                        Err(e) => r == CreateStep::Done(Err(DaoError::Verification(e))),
                        Ok(_) => r matches CreateStep::Call { flow: f, call: HostCall::CreateUnit { controllers: c, cycles: n } }
                            && same_request(f, flow) && f.stage is CreateUnit
                            && ids_view(c@) == seq![flow.caller@, self_id@] && n == CREATE_CYCLES,
                    }
                },
                (CreateStage::CreateUnit, CreateEvent::UnitCreated(res)) => {
                    &&& final(icp_service).transactions@ == old(icp_service).transactions@
                    &&& *final(self) == *old(self)
                    &&& match res {
                        Err(e) => r == CreateStep::Done(Err(DaoError::Host(e))),
                        Ok(u) => if deposit_remainder_spec(CREATE_CYCLES) > 0 {
                            r matches CreateStep::Call { flow: f, call: HostCall::DepositCycles { canister_id: c, cycles: n } }
                                && same_request(f, flow) && (f.stage matches CreateStage::Deposit { canister_id: s } && s@ == u@)
                                && c@ == u@ && n == deposit_remainder_spec(CREATE_CYCLES)
                        } else {
                            goes_to_install(r, flow, u@)
                        },
                    }
                },
                (CreateStage::Deposit { canister_id: u }, CreateEvent::Deposited(res)) => {
                    &&& final(icp_service).transactions@ == old(icp_service).transactions@
                    &&& *final(self) == *old(self)
                    &&& match res {
                        Err(e) => r == CreateStep::Done(Err(DaoError::PartialProvisioning { canister_id: u, error: e })),
                        Ok(_) => goes_to_install(r, flow, u@),
                    }
                },
                (CreateStage::Install { canister_id: u }, CreateEvent::Installed(res)) => {
                    &&& final(icp_service).transactions@ == old(icp_service).transactions@
                    &&& match res {
                        Err(e) => *final(self) == *old(self)
                            && r == CreateStep::Done(Err(DaoError::PartialProvisioning { canister_id: u, error: e })),
                        Ok(_) => {
                            let exists_unit = exists|k: int| 0 <= k < old(self).dao@.len()
                                && (#[trigger] old(self).dao@[k]).canister_id@ == u@;
                            if exists_unit || old(self).next_id == u64::MAX {
                                &&& final(self).dao@ == old(self).dao@
                                &&& final(self).next_id == old(self).next_id
                                &&& r == CreateStep::Done(Err(if exists_unit {
                                    DaoError::AlreadyRegistered
                                } else {
                                    DaoError::IdsExhausted
                                }))
                            } else {
                                &&& final(self).next_id == old(self).next_id + 1
                                &&& final(self).dao@.drop_last() == old(self).dao@
                                &&& final(self).dao@.len() == old(self).dao@.len() + 1
                                &&& r matches CreateStep::Call { flow: f, call: HostCall::FetchBlock { block_height: h } }
                                    && same_request(f, flow) && h == flow.options.block_height
                                    && (f.stage matches CreateStage::ConsumePayment { record: rec }
                                    && same_dao(final(self).dao@.last(), rec)
                                    && rec.id == old(self).next_id
                                    && rec.owner@ == flow.caller@ && rec.canister_id@ == u@
                                    && ids_view(rec.controllers@) == seq![flow.caller@]
                                    && rec.status == DaoStatusCode::Active && rec.created_at == flow.now
                                    && rec.tags@ == flow.tags@)
                            }
                        },
                    }
                },
                (CreateStage::ConsumePayment { record: rec }, CreateEvent::BlockFetched(b)) => {
                    let (s2, v) = verify_step(
                        old(icp_service).transactions@,
                        account_text_of(flow.caller@),
                        account_text_of(self_id@),
                        flow.options.memo,
                        b,
                        true,
                    );
                    &&& final(icp_service).transactions@ == s2
                    &&& *final(self) == *old(self)
                    &&& match v {
                        Ok(_) => r == CreateStep::Done(Ok(rec)),
                        Err(e) => r == CreateStep::Done(Err(DaoError::PaymentNotConsumed { record_id: rec.id, error: e })),
                    }
                },
                _ => {
                    &&& final(icp_service).transactions@ == old(icp_service).transactions@
                    &&& *final(self) == *old(self)
                    &&& r == CreateStep::Done(Err(DaoError::UnexpectedEvent))
                },
            },
    {
        let CreateDaoFlow { caller, options, tags, now, stage } = flow;
        match stage {
            CreateStage::VerifyPayment => {
                match event {
                    CreateEvent::BlockFetched(b) => {
                        match icp_service.validate_transfer(&caller, self_id, options.memo, &b, false) {
                            Err(e) => CreateStep::Done(Err(DaoError::Verification(e))),
                            Ok(_) => {
                                let mut first: Vec<PrincipalId> = Vec::new();
                                first.push(caller.clone());
                                let call = nnsdao_create_canister(&first, CREATE_CYCLES, self_id);
                                proof {
                                    assert(ids_view(first@) =~= seq![caller@]);
                                    assert(seq![caller@].push(self_id@) =~= seq![caller@, self_id@]);
                                }
                                let f = CreateDaoFlow { caller, options, tags, now, stage: CreateStage::CreateUnit };
                                CreateStep::Call { flow: f, call }
                            },
                        }
                    },
                    _ => CreateStep::Done(Err(DaoError::UnexpectedEvent)),
                }
            },
            CreateStage::CreateUnit => {
                match event {
                    CreateEvent::UnitCreated(Err(e)) => CreateStep::Done(Err(DaoError::Host(e))),
                    CreateEvent::UnitCreated(Ok(u)) => {
                        let remainder = deposit_remainder(CREATE_CYCLES);
                        if remainder > 0 {
                            let call = HostCall::DepositCycles { canister_id: u.clone(), cycles: remainder };
                            let f = CreateDaoFlow { caller, options, tags, now, stage: CreateStage::Deposit { canister_id: u } };
                            CreateStep::Call { flow: f, call }
                        } else {
                            let call = nnsdao_install_code(&caller, &u);
                            let f = CreateDaoFlow { caller, options, tags, now, stage: CreateStage::Install { canister_id: u } };
                            CreateStep::Call { flow: f, call }
                        }
                    },
                    _ => CreateStep::Done(Err(DaoError::UnexpectedEvent)),
                }
            },
            CreateStage::Deposit { canister_id } => {
                match event {
                    CreateEvent::Deposited(Err(e)) => CreateStep::Done(Err(DaoError::PartialProvisioning { canister_id, error: e })),
                    CreateEvent::Deposited(Ok(_)) => {
                        let call = nnsdao_install_code(&caller, &canister_id);
                        let f = CreateDaoFlow { caller, options, tags, now, stage: CreateStage::Install { canister_id } };
                        CreateStep::Call { flow: f, call }
                    },
                    _ => CreateStep::Done(Err(DaoError::UnexpectedEvent)),
                }
            },
            CreateStage::Install { canister_id } => {
                match event {
                    CreateEvent::Installed(Err(e)) => CreateStep::Done(Err(DaoError::PartialProvisioning { canister_id, error: e })),
                    CreateEvent::Installed(Ok(_)) => {
                        let mut record_tags: Vec<String> = Vec::new();
                        let mut i: usize = 0;
                        while i < tags.len()
                            invariant
                                0 <= i <= tags@.len(),
                                record_tags@ == tags@.subrange(0, i as int),
                            decreases tags@.len() - i,
                        {
                            record_tags.push(tags[i].clone());
                            i = i + 1;
                            proof {
                                assert(record_tags@ =~= tags@.subrange(0, i as int));
                            }
                        }
                        proof {
                            assert(tags@.subrange(0, i as int) =~= tags@);
                        }
                        match self.insert_dao(&caller, &canister_id, record_tags, now) {
                            Err(e) => CreateStep::Done(Err(e)),
                            Ok(rec) => {
                                let call = HostCall::FetchBlock { block_height: options.block_height };
                                let f = CreateDaoFlow { caller, options, tags, now, stage: CreateStage::ConsumePayment { record: rec } };
                                CreateStep::Call { flow: f, call }
                            },
                        }
                    },
                    _ => CreateStep::Done(Err(DaoError::UnexpectedEvent)),
                }
            },
            CreateStage::ConsumePayment { record } => {
                match event {
                    CreateEvent::BlockFetched(b) => {
                        match icp_service.validate_transfer(&caller, self_id, options.memo, &b, true) {
                            Ok(_) => CreateStep::Done(Ok(record)),
                            Err(e) => CreateStep::Done(Err(DaoError::PaymentNotConsumed { record_id: record.id, error: e })),
                        }
                    },
                    _ => CreateStep::Done(Err(DaoError::UnexpectedEvent)),
                }
            },
        }
    }
}

/// The budget beyond the host's default reservation.
pub open spec fn deposit_remainder_spec(cycles: u128) -> u128 {
    if cycles > crate::lifecycle::DEFAULT_CYCLES {
        (cycles - crate::lifecycle::DEFAULT_CYCLES) as u128
    } else {
        0
    }
}

/// How many bytes of a snapshot of `total` bytes to read again after reading
/// all of them failed, the parser having reported `error_offset`: the offset
/// just past the byte it stopped at. The bytes before that byte are read
/// again, so that a tail that the current layout cannot read counts as absent.
/// `None` where the offset leaves no such prefix.
pub fn snapshot_retry_len(total: u64, error_offset: u64) -> (r: Option<u64>)
    ensures
        r == if 0 < error_offset && error_offset <= total {
            Some((error_offset - 1) as u64)
        } else {
            None::<u64>
        },
{
    if 0 < error_offset && error_offset <= total {
        Some(error_offset - 1)
    } else {
        None
    }
}

} // verus!
