use dao_manager::{
    deposit_remainder, nnsdao_change_controller, nnsdao_create_canister, nnsdao_install_code,
    nnsdao_reinstall_code, nnsdao_upgrade_code, snapshot_retry_len, AddDaoInfo, CreateDaoOptions,
    CreateEvent, CreateStage, CreateStep, DaoAdmin, DaoError, Data, HostCall, HostError,
    InstallMode, LedgerBlock, LedgerOperation, PaymentStatus, PrincipalId, VerificationError,
    CREATE_CYCLES,
};

fn pid(bytes: &[u8]) -> PrincipalId {
    PrincipalId::from_bytes(bytes.to_vec()).unwrap()
}

fn ids(list: &[PrincipalId]) -> Vec<Vec<u8>> {
    list.iter().map(|p| p.as_bytes().clone()).collect()
}

const CALLER: [u8; 1] = [4];
const ME: [u8; 10] = [0, 0, 0, 0, 0, 0, 0, 1, 1, 1];
const UNIT: [u8; 10] = [0, 0, 0, 0, 0, 0, 0, 2, 1, 1];

fn paid_block(data: &Data, memo: u64) -> Result<LedgerBlock, String> {
    let item = &data.icp_service.transactions[0];
    Ok(LedgerBlock {
        memo,
        operation: LedgerOperation::Transfer { from: item.from.clone(), to: item.to.clone(), amount: item.amount },
    })
}

fn info() -> AddDaoInfo {
    AddDaoInfo { tags: vec!["defi".to_string()], ..AddDaoInfo::default() }
}

fn step(data: &mut Data, flow: dao_manager::CreateDaoFlow, event: CreateEvent) -> CreateStep {
    let Data { dao_admin, icp_service, .. } = data;
    dao_admin.create_dao_step(icp_service, flow, event, &pid(&ME))
}

fn start(data: &mut Data) -> (dao_manager::CreateDaoFlow, u64) {
    let item = data.icp_service.get_pay_info(&pid(&CALLER), &pid(&ME), &vec![3]).unwrap();
    let options = CreateDaoOptions { block_height: 42, memo: item.memo };
    let (flow, call) = DaoAdmin::create_dao(pid(&CALLER), options, &info(), 77);
    match call {
        HostCall::FetchBlock { block_height } => assert_eq!(block_height, 42),
        other => panic!("unexpected call {:?}", other),
    }
    (flow, item.memo)
}

fn expect_call(s: CreateStep) -> (dao_manager::CreateDaoFlow, HostCall) {
    match s {
        CreateStep::Call { flow, call } => (flow, call),
        CreateStep::Done(r) => panic!("workflow ended early: {:?}", r),
    }
}

#[test]
fn create_dao_full_workflow() {
    let mut data = Data::new(pid(&[9]));
    let (flow, memo) = start(&mut data);
    let block = paid_block(&data, memo);
    let (flow, call) = expect_call(step(&mut data, flow, CreateEvent::BlockFetched(block.clone())));
    match call {
        HostCall::CreateUnit { controllers, cycles } => {
            assert_eq!(ids(&controllers), vec![CALLER.to_vec(), ME.to_vec()]);
            assert_eq!(cycles, 1_000_000_000_000);
        }
        other => panic!("unexpected call {:?}", other),
    }
    let (flow, call) = expect_call(step(&mut data, flow, CreateEvent::UnitCreated(Ok(pid(&UNIT)))));
    match call {
        HostCall::InstallCode { mode, canister_id, owner } => {
            assert_eq!(mode, InstallMode::Install);
            assert_eq!(canister_id.as_bytes(), &UNIT.to_vec());
            assert_eq!(owner.as_bytes(), &CALLER.to_vec());
        }
        other => panic!("unexpected call {:?}", other),
    }
    assert!(data.dao_admin.dao.is_empty());
    let (flow, call) = expect_call(step(&mut data, flow, CreateEvent::Installed(Ok(()))));
    assert!(matches!(call, HostCall::FetchBlock { block_height: 42 }));
    assert_eq!(data.dao_admin.dao.len(), 1);
    assert_eq!(data.icp_service.transactions[0].status, PaymentStatus::Unpaid);
    match step(&mut data, flow, CreateEvent::BlockFetched(block)) {
        CreateStep::Done(Ok(rec)) => {
            assert_eq!(rec.id, 0);
            assert_eq!(rec.owner.as_bytes(), &CALLER.to_vec());
            assert_eq!(rec.canister_id.as_bytes(), &UNIT.to_vec());
            assert_eq!(ids(&rec.controllers), vec![CALLER.to_vec()]);
            assert_eq!(rec.created_at, 77);
            assert_eq!(rec.tags, vec!["defi".to_string()]);
        }
        other => panic!("unexpected step {:?}", other),
    }
    assert_eq!(data.icp_service.transactions[0].status, PaymentStatus::Paid);
}

#[test]
fn create_dao_install_failure_keeps_unit_reference() {
    let mut data = Data::new(pid(&[9]));
    let (flow, memo) = start(&mut data);
    let block = paid_block(&data, memo);
    let (flow, _) = expect_call(step(&mut data, flow, CreateEvent::BlockFetched(block)));
    let (flow, _) = expect_call(step(&mut data, flow, CreateEvent::UnitCreated(Ok(pid(&UNIT)))));
    let err = HostError { code: 5, message: "install failed".to_string() };
    match step(&mut data, flow, CreateEvent::Installed(Err(err.clone()))) {
        CreateStep::Done(Err(DaoError::PartialProvisioning { canister_id, error })) => {
            assert_eq!(canister_id.as_bytes(), &UNIT.to_vec());
            assert_eq!(error, err);
        }
        other => panic!("unexpected step {:?}", other),
    }
    assert!(data.dao_admin.dao.is_empty());
    assert_eq!(data.dao_admin.next_id, 0);
    assert_eq!(data.icp_service.transactions[0].status, PaymentStatus::Unpaid);
}

#[test]
fn create_dao_failed_attempt_does_not_reuse_ids() {
    let mut data = Data::new(pid(&[9]));
    let (flow, memo) = start(&mut data);
    let block = paid_block(&data, memo);
    let (flow, _) = expect_call(step(&mut data, flow, CreateEvent::BlockFetched(block.clone())));
    let (flow, _) = expect_call(step(&mut data, flow, CreateEvent::UnitCreated(Ok(pid(&UNIT)))));
    let (flow, _) = expect_call(step(&mut data, flow, CreateEvent::Installed(Ok(()))));
    assert!(matches!(step(&mut data, flow, CreateEvent::BlockFetched(block)), CreateStep::Done(Ok(_))));
    // a second attempt with the consumed payment fails before any record
    let options = CreateDaoOptions { block_height: 42, memo };
    let (flow, _) = DaoAdmin::create_dao(pid(&CALLER), options, &info(), 78);
    let block = paid_block(&data, memo);
    match step(&mut data, flow, CreateEvent::BlockFetched(block)) {
        CreateStep::Done(Err(e)) => assert_eq!(e, DaoError::Verification(VerificationError::NoSuchIntent)),
        other => panic!("unexpected step {:?}", other),
    }
    assert_eq!(data.dao_admin.next_id, 1);
}

#[test]
fn create_dao_rejects_unpaid_block() {
    let mut data = Data::new(pid(&[9]));
    let (flow, memo) = start(&mut data);
    let missing: Result<LedgerBlock, String> = Err("Block not found".to_string());
    match step(&mut data, flow, CreateEvent::BlockFetched(missing)) {
        CreateStep::Done(Err(e)) => {
            assert_eq!(e, DaoError::Verification(VerificationError::BlockFetchError("Block not found".to_string())))
        }
        other => panic!("unexpected step {:?}", other),
    }
    let _ = memo;
    assert!(data.dao_admin.dao.is_empty());
}

#[test]
fn create_dao_host_failure_on_create() {
    let mut data = Data::new(pid(&[9]));
    let (flow, memo) = start(&mut data);
    let block = paid_block(&data, memo);
    let (flow, _) = expect_call(step(&mut data, flow, CreateEvent::BlockFetched(block)));
    let err = HostError { code: 3, message: "no cycles".to_string() };
    match step(&mut data, flow, CreateEvent::UnitCreated(Err(err.clone()))) {
        CreateStep::Done(Err(e)) => assert_eq!(e, DaoError::Host(err)),
        other => panic!("unexpected step {:?}", other),
    }
}

#[test]
fn create_dao_unexpected_event() {
    let mut data = Data::new(pid(&[9]));
    let (flow, _) = start(&mut data);
    assert!(matches!(flow.stage, CreateStage::VerifyPayment));
    match step(&mut data, flow, CreateEvent::Installed(Ok(()))) {
        CreateStep::Done(Err(e)) => assert_eq!(e, DaoError::UnexpectedEvent),
        other => panic!("unexpected step {:?}", other),
    }
}

#[test]
fn lifecycle_calls_append_self() {
    let me = pid(&ME);
    match nnsdao_create_canister(&vec![pid(&CALLER)], 5, &me) {
        HostCall::CreateUnit { controllers, cycles } => {
            assert_eq!(ids(&controllers), vec![CALLER.to_vec(), ME.to_vec()]);
            assert_eq!(cycles, 5);
        }
        other => panic!("unexpected call {:?}", other),
    }
    match nnsdao_change_controller(&vec![], &pid(&UNIT), &me) {
        HostCall::UpdateControllers { canister_id, controllers } => {
            assert_eq!(canister_id.as_bytes(), &UNIT.to_vec());
            assert_eq!(ids(&controllers), vec![ME.to_vec()]);
        }
        other => panic!("unexpected call {:?}", other),
    }
    assert!(matches!(nnsdao_install_code(&me, &me), HostCall::InstallCode { mode: InstallMode::Install, .. }));
    assert!(matches!(nnsdao_reinstall_code(&me, &me), HostCall::InstallCode { mode: InstallMode::Reinstall, .. }));
    assert!(matches!(nnsdao_upgrade_code(&me, &me), HostCall::InstallCode { mode: InstallMode::Upgrade, .. }));
}

#[test]
fn deposit_remainder_values() {
    assert_eq!(deposit_remainder(CREATE_CYCLES), 0);
    assert_eq!(deposit_remainder(0), 0);
    assert_eq!(deposit_remainder(1_500_000_000_000), 500_000_000_000);
}

#[test]
fn snapshot_retry_len_values() {
    assert_eq!(snapshot_retry_len(100, 40), Some(39));
    assert_eq!(snapshot_retry_len(100, 100), Some(99));
    assert_eq!(snapshot_retry_len(100, 0), None);
    assert_eq!(snapshot_retry_len(100, 101), None);
}
