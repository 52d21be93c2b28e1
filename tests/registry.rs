use dao_manager::{
    ControllerAction, DaoAdmin, DaoError, DaoStatusCode, HostCall, HostError, InstallMode,
    OwnerService, PrincipalId,
};

fn pid(bytes: &[u8]) -> PrincipalId {
    PrincipalId::from_bytes(bytes.to_vec()).unwrap()
}

fn ids(list: &[PrincipalId]) -> Vec<Vec<u8>> {
    list.iter().map(|p| p.as_bytes().clone()).collect()
}

const ADMIN: [u8; 2] = [7, 7];
const ME: [u8; 10] = [0, 0, 0, 0, 0, 0, 0, 1, 1, 1];
const UNIT_A: &str = "rrkah-fqaaa-aaaaa-aaaaq-cai";
const UNIT_B: &str = "2vxsx-fae";

fn setup() -> (DaoAdmin, OwnerService) {
    let owners = OwnerService::new(pid(&ADMIN));
    let mut reg = DaoAdmin::new();
    reg.add_dao(&pid(&ADMIN), &owners, UNIT_A, 11).unwrap();
    (reg, owners)
}

#[test]
fn add_dao_assigns_increasing_ids() {
    let owners = OwnerService::new(pid(&ADMIN));
    let mut reg = DaoAdmin::new();
    let a = reg.add_dao(&pid(&ADMIN), &owners, UNIT_A, 11).unwrap();
    let b = reg.add_dao(&pid(&ADMIN), &owners, UNIT_B, 12).unwrap();
    assert_eq!(a.id, 0);
    assert_eq!(b.id, 1);
    assert_eq!(a.canister_id.as_bytes(), &ME.to_vec());
    assert_eq!(a.owner.as_bytes(), &ADMIN.to_vec());
    assert_eq!(ids(&a.controllers), vec![ADMIN.to_vec()]);
    assert_eq!(a.status, DaoStatusCode::Active);
    assert_eq!(a.created_at, 11);
    let list = reg.dao_list();
    assert_eq!(list.len(), 2);
    assert_eq!(list[1].id, 1);
    assert_eq!(list[1].canister_id.as_bytes(), &vec![4u8]);
    assert_eq!(reg.next_id, 2);
}

#[test]
fn add_dao_rejects_duplicate_and_keeps_ids() {
    let (mut reg, owners) = setup();
    assert_eq!(reg.add_dao(&pid(&ADMIN), &owners, UNIT_A, 12).unwrap_err(), DaoError::AlreadyRegistered);
    let b = reg.add_dao(&pid(&ADMIN), &owners, UNIT_B, 13).unwrap();
    assert_eq!(b.id, 1);
}

#[test]
fn add_dao_requires_administrator() {
    let owners = OwnerService::new(pid(&ADMIN));
    let mut reg = DaoAdmin::new();
    assert_eq!(reg.add_dao(&pid(&[1]), &owners, UNIT_A, 1).unwrap_err(), DaoError::PermissionDenied);
    assert!(reg.dao_list().is_empty());
}

#[test]
fn add_dao_rejects_malformed_identity() {
    let owners = OwnerService::new(pid(&ADMIN));
    let mut reg = DaoAdmin::new();
    assert_eq!(reg.add_dao(&pid(&ADMIN), &owners, "rrkah-fqaaa", 1).unwrap_err(), DaoError::InvalidPrincipal);
    assert_eq!(reg.next_id, 0);
}

#[test]
fn dao_exist_finds_units() {
    let (reg, _) = setup();
    assert!(reg.dao_exist(&pid(&ME)));
    assert!(!reg.dao_exist(&pid(&[4])));
}

#[test]
fn update_dao_controller_add_existing_fails() {
    let (mut reg, owners) = setup();
    let before = ids(&reg.dao[0].controllers);
    let r = reg.update_dao_controller(&pid(&ADMIN), &owners, 0, ControllerAction::Add(pid(&ADMIN)), &pid(&ME));
    assert_eq!(r.unwrap_err(), DaoError::AlreadyController);
    assert_eq!(ids(&reg.dao[0].controllers), before);
}

#[test]
fn update_dao_controller_add_keeps_self() {
    let (mut reg, owners) = setup();
    let me = pid(&ME);
    let call = reg
        .update_dao_controller(&pid(&ADMIN), &owners, 0, ControllerAction::Add(pid(&[5])), &me)
        .unwrap();
    match call {
        HostCall::UpdateControllers { canister_id, controllers } => {
            assert_eq!(canister_id.as_bytes(), &ME.to_vec());
            assert_eq!(ids(&controllers), vec![ADMIN.to_vec(), ME.to_vec()]);
        }
        other => panic!("unexpected call {:?}", other),
    }
    assert_eq!(ids(&reg.dao[0].controllers), vec![ADMIN.to_vec(), vec![5], ME.to_vec()]);
}

#[test]
fn update_dao_controller_remove_and_clear_keep_self() {
    let (mut reg, owners) = setup();
    let me = pid(&ME);
    reg.update_dao_controller(&pid(&ADMIN), &owners, 0, ControllerAction::Add(pid(&[5])), &me).unwrap();
    reg.update_dao_controller(&pid(&ADMIN), &owners, 0, ControllerAction::Remove(pid(&ME)), &me).unwrap();
    assert_eq!(ids(&reg.dao[0].controllers), vec![ADMIN.to_vec(), vec![5], ME.to_vec()]);
    reg.update_dao_controller(&pid(&ADMIN), &owners, 0, ControllerAction::Remove(pid(&[5])), &me).unwrap();
    assert_eq!(ids(&reg.dao[0].controllers), vec![ADMIN.to_vec(), ME.to_vec()]);
    reg.update_dao_controller(&pid(&ADMIN), &owners, 0, ControllerAction::Clear, &me).unwrap();
    assert_eq!(ids(&reg.dao[0].controllers), vec![ME.to_vec()]);
}

#[test]
fn update_dao_controller_by_record_owner() {
    let owners = OwnerService::new(pid(&ADMIN));
    let mut reg = DaoAdmin::new();
    reg.add_dao(&pid(&ADMIN), &owners, UNIT_A, 1).unwrap();
    let strangers = OwnerService::new(pid(&[8]));
    // the record's owner may manage it without being an administrator
    assert!(reg
        .update_dao_controller(&pid(&ADMIN), &strangers, 0, ControllerAction::Clear, &pid(&ME))
        .is_ok());
}

#[test]
fn update_dao_controller_denies_strangers() {
    let (mut reg, owners) = setup();
    let r = reg.update_dao_controller(&pid(&[3]), &owners, 0, ControllerAction::Clear, &pid(&ME));
    assert_eq!(r.unwrap_err(), DaoError::PermissionDenied);
    assert_eq!(ids(&reg.dao[0].controllers), vec![ADMIN.to_vec()]);
}

#[test]
fn update_dao_controller_unknown_record() {
    let (mut reg, owners) = setup();
    let r = reg.update_dao_controller(&pid(&ADMIN), &owners, 9, ControllerAction::Clear, &pid(&ME));
    assert_eq!(r.unwrap_err(), DaoError::NoSuchDao);
}

#[test]
fn upgrade_canister_steps_and_stops_at_first_failure() {
    let (mut reg, owners) = setup();
    reg.add_dao(&pid(&ADMIN), &owners, UNIT_B, 2).unwrap();
    let admin = pid(&ADMIN);
    match reg.upgrade_canister(&admin, &owners, 0, &Ok(())).unwrap() {
        Some(HostCall::InstallCode { mode, canister_id, owner }) => {
            assert_eq!(mode, InstallMode::Upgrade);
            assert_eq!(canister_id.as_bytes(), &ME.to_vec());
            assert_eq!(owner.as_bytes(), &ADMIN.to_vec());
        }
        other => panic!("unexpected step {:?}", other),
    }
    match reg.upgrade_canister(&admin, &owners, 1, &Ok(())).unwrap() {
        Some(HostCall::InstallCode { canister_id, .. }) => assert_eq!(canister_id.as_bytes(), &vec![4u8]),
        other => panic!("unexpected step {:?}", other),
    }
    assert!(reg.upgrade_canister(&admin, &owners, 2, &Ok(())).unwrap().is_none());
    let failed = Err(HostError { code: 5, message: "trapped".to_string() });
    assert_eq!(
        reg.upgrade_canister(&admin, &owners, 1, &failed).unwrap_err(),
        DaoError::Host(HostError { code: 5, message: "trapped".to_string() })
    );
    assert_eq!(reg.upgrade_canister(&pid(&[1]), &owners, 0, &Ok(())).unwrap_err(), DaoError::PermissionDenied);
}

#[test]
fn reinstall_canister_uses_caller_as_owner() {
    let (reg, mut owners) = setup();
    let other = pid(&[6]);
    owners.add_owner(&pid(&ADMIN), pid(&[6])).unwrap();
    match reg.reinstall_canister(&other, &owners, 0, &Ok(())).unwrap() {
        Some(HostCall::InstallCode { mode, owner, .. }) => {
            assert_eq!(mode, InstallMode::Reinstall);
            assert_eq!(owner.as_bytes(), &vec![6u8]);
        }
        other => panic!("unexpected step {:?}", other),
    }
}

#[test]
fn owner_service_gates_and_sets() {
    let mut owners = OwnerService::new(pid(&ADMIN));
    assert!(owners.is_owner(&pid(&ADMIN)));
    assert!(!owners.is_owner(&pid(&[1])));
    assert_eq!(owners.add_owner(&pid(&[1]), pid(&[2])).unwrap_err(), DaoError::PermissionDenied);
    let after = owners.add_owner(&pid(&ADMIN), pid(&[2])).unwrap();
    assert_eq!(ids(&after), vec![ADMIN.to_vec(), vec![2]]);
    let again = owners.add_owner(&pid(&[2]), pid(&ADMIN)).unwrap();
    assert_eq!(ids(&again), vec![ADMIN.to_vec(), vec![2]]);
    assert_eq!(ids(&owners.get_owners(&pid(&[2])).unwrap()), vec![ADMIN.to_vec(), vec![2]]);
    assert_eq!(owners.get_owners(&pid(&[3])).unwrap_err(), DaoError::PermissionDenied);
}
