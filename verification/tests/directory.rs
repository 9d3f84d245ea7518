use near_sdk::test_utils::accounts;
use near_sdk::NearToken;
use shade_coordinator::registry::{
    amount_text, make_worker_id, parse_yocto, RegistryContract, RegistryError, RegistryStats,
    StorageKey, DEFAULT_MIN_DEPOSIT,
};

fn account(i: usize) -> String {
    accounts(i).to_string()
}

fn one_near() -> u128 {
    NearToken::from_near(1).as_yoctonear()
}

#[test]
fn test_init() {
    let contract = RegistryContract::new(account(0));
    assert_eq!(contract.get_admin(), account(0));
    assert_eq!(contract.list_coordinators().len(), 0);
    assert_eq!(contract.list_workers().len(), 0);
}

#[test]
fn test_register_coordinator() {
    let mut contract = RegistryContract::new(account(0));

    let entry = contract.register_coordinator(account(0), 0, one_near(), "my-dao".to_string()).unwrap();
    assert_eq!(entry.coordinator_id, "my-dao");
    assert_eq!(entry.owner, account(0));
    assert!(entry.active);
    assert_eq!(contract.list_coordinators().len(), 1);
}

#[test]
fn test_register_worker() {
    let mut contract = RegistryContract::new(account(0));

    let entry =
        contract.register_worker(account(0), 0, one_near(), "voter-alice".to_string(), None).unwrap();
    assert_eq!(entry.worker_id, "voter-alice-1");
    assert_eq!(entry.owner, account(0));
    assert!(entry.active);
    assert_eq!(contract.list_workers().len(), 1);
}

#[test]
fn test_register_worker_with_coordinator() {
    let mut contract = RegistryContract::new(account(0));

    contract.register_coordinator(account(0), 0, one_near(), "my-dao".to_string()).unwrap();
    let worker = contract
        .register_worker(account(0), 0, one_near(), "voter".to_string(), Some("my-dao".to_string()))
        .unwrap();
    assert_eq!(worker.coordinator_id, Some("my-dao".to_string()));

    let by_coord = contract.list_workers_by_coordinator("my-dao".to_string());
    assert_eq!(by_coord.len(), 1);
}

#[test]
#[should_panic(expected = "Minimum deposit")]
fn test_register_coordinator_low_deposit() {
    let mut contract = RegistryContract::new(account(0));
    let deposit = NearToken::from_millinear(1).as_yoctonear();
    if let Err(e) = contract.register_coordinator(account(0), 0, deposit, "test".to_string()) {
        panic!("{}", e.message());
    }
}

#[test]
fn test_deactivate() {
    let mut contract = RegistryContract::new(account(0));

    contract.register_coordinator(account(0), 0, one_near(), "dao".to_string()).unwrap();
    assert_eq!(contract.list_active_coordinators().len(), 1);

    contract.deactivate_coordinator(account(0), "dao".to_string()).unwrap();
    assert_eq!(contract.list_active_coordinators().len(), 0);
    assert_eq!(contract.list_coordinators().len(), 1);
}

#[test]
fn default_deposit_is_a_tenth_of_a_near() {
    let contract = RegistryContract::migrate(account(0));
    assert_eq!(DEFAULT_MIN_DEPOSIT, NearToken::from_millinear(100).as_yoctonear());
    assert_eq!(contract.get_min_deposit(), "100000000000000000000000");
    assert_eq!(contract.min_deposit, 100_000_000_000_000_000_000_000u128);
}

#[test]
fn deposit_is_set_by_the_admin_only() {
    let mut contract = RegistryContract::new(account(0));
    assert_eq!(
        contract.set_min_deposit(account(1), "5".to_string()),
        Err(RegistryError::NotAdmin)
    );
    // The caller is looked at before the amount.
    assert_eq!(
        contract.set_min_deposit(account(1), "five".to_string()),
        Err(RegistryError::NotAdmin)
    );
    assert_eq!(
        contract.set_min_deposit(account(0), "five".to_string()),
        Err(RegistryError::InvalidAmount)
    );
    assert_eq!(contract.get_min_deposit(), DEFAULT_MIN_DEPOSIT.to_string());
    assert_eq!(contract.set_min_deposit(account(0), "5".to_string()), Ok(()));
    assert_eq!(contract.get_min_deposit(), "5");
    assert_eq!(
        contract.register_coordinator(account(1), 0, 4, "dao".to_string()).err(),
        Some(RegistryError::DepositTooLow)
    );
    assert!(contract.register_coordinator(account(1), 0, 5, "dao".to_string()).is_ok());
}

#[test]
fn names_have_two_to_sixty_four_bytes_and_are_unique() {
    let mut contract = RegistryContract::new(account(0));
    let reg = |c: &mut RegistryContract, name: String| {
        c.register_coordinator(account(1), 3, one_near(), name).err()
    };
    assert_eq!(reg(&mut contract, "a".to_string()), Some(RegistryError::BadNameLength));
    assert_eq!(reg(&mut contract, "a".repeat(65)), Some(RegistryError::BadNameLength));
    assert_eq!(reg(&mut contract, "ab".to_string()), None);
    assert_eq!(reg(&mut contract, "a".repeat(64)), None);
    assert_eq!(reg(&mut contract, "ab".to_string()), Some(RegistryError::NameTaken));
    // The deposit is looked at before the name.
    assert_eq!(
        contract.register_coordinator(account(1), 3, 1, "a".to_string()).err(),
        Some(RegistryError::DepositTooLow)
    );
    assert_eq!(
        contract.register_worker(account(1), 3, one_near(), "w".to_string(), None).err(),
        Some(RegistryError::BadNameLength)
    );
    assert_eq!(contract.list_coordinators().len(), 2);
    assert_eq!(contract.list_workers().len(), 0);
}

#[test]
fn worker_ids_count_up_across_names() {
    let mut contract = RegistryContract::new(account(0));
    let mut ids = Vec::new();
    for name in ["voter", "voter", "auditor"] {
        let e = contract.register_worker(account(1), 9, one_near(), name.to_string(), None).unwrap();
        assert_eq!(e.created_at, 9);
        ids.push(e.worker_id);
    }
    assert_eq!(ids, vec!["voter-1", "voter-2", "auditor-3"]);
    assert_eq!(make_worker_id(&"x".to_string(), 0), "x-0");
    assert_eq!(make_worker_id(&"node".to_string(), 1205), "node-1205");
    assert_eq!(make_worker_id(&"n".to_string(), u64::MAX), "n-18446744073709551615");
}

#[test]
fn a_refused_worker_takes_no_number() {
    let mut contract = RegistryContract::new(account(0));
    assert_eq!(
        contract
            .register_worker(account(1), 0, one_near(), "voter".to_string(), Some("nowhere".to_string()))
            .err(),
        Some(RegistryError::CoordinatorNotActive)
    );
    contract.register_coordinator(account(2), 0, one_near(), "dao".to_string()).unwrap();
    contract.deactivate_coordinator(account(2), "dao".to_string()).unwrap();
    assert_eq!(
        contract
            .register_worker(account(1), 0, one_near(), "voter".to_string(), Some("dao".to_string()))
            .err(),
        Some(RegistryError::CoordinatorNotActive)
    );
    let e = contract.register_worker(account(1), 0, one_near(), "voter".to_string(), None).unwrap();
    assert_eq!(e.worker_id, "voter-1");
}

#[test]
fn a_taken_worker_id_is_a_collision() {
    let mut contract = RegistryContract::new(account(0));
    contract.register_worker(account(1), 0, one_near(), "voter".to_string(), None).unwrap();
    contract.next_worker_id = 0;
    assert_eq!(
        contract.register_worker(account(1), 0, one_near(), "voter".to_string(), None).err(),
        Some(RegistryError::WorkerIdCollision)
    );
    contract.next_worker_id = u64::MAX;
    assert_eq!(
        contract.register_worker(account(1), 0, one_near(), "voter".to_string(), None).err(),
        Some(RegistryError::WorkerIdsExhausted)
    );
}

#[test]
fn entries_change_for_their_owner_and_the_admin() {
    let mut contract = RegistryContract::new(account(0));
    contract.register_coordinator(account(1), 0, one_near(), "dao".to_string()).unwrap();
    contract
        .register_worker(account(2), 0, one_near(), "voter".to_string(), Some("dao".to_string()))
        .unwrap();

    assert_eq!(
        contract.update_coordinator(account(2), "dao".to_string(), None, None, Some(true)),
        Err(RegistryError::NotOwnerOrAdmin)
    );
    assert_eq!(
        contract.update_coordinator(account(1), "none".to_string(), None, None, None),
        Err(RegistryError::CoordinatorNotFound)
    );
    assert_eq!(
        contract.update_coordinator(
            account(1),
            "dao".to_string(),
            Some(account(3)),
            None,
            Some(true)
        ),
        Ok(())
    );
    assert_eq!(
        contract.update_coordinator(account(0), "dao".to_string(), None, Some("cvm".to_string()), None),
        Ok(())
    );
    let c = contract.get_coordinator("dao".to_string()).unwrap();
    assert_eq!(c.contract_id, Some(account(3)));
    assert_eq!(c.phala_cvm_id, Some("cvm".to_string()));
    assert!(c.ensue_configured);
    assert_eq!(c.owner, account(1));

    assert_eq!(
        contract.update_worker(account(1), "voter-1".to_string(), None, None, None),
        Err(RegistryError::NotOwnerOrAdmin)
    );
    assert_eq!(
        contract.update_worker(account(2), "voter-9".to_string(), None, None, None),
        Err(RegistryError::WorkerNotFound)
    );
    assert_eq!(
        contract.update_worker(
            account(2),
            "voter-1".to_string(),
            Some("cvm-w".to_string()),
            Some("group".to_string()),
            None
        ),
        Ok(())
    );
    let w = contract.get_worker("voter-1".to_string()).unwrap();
    assert_eq!(w.phala_cvm_id, Some("cvm-w".to_string()));
    assert_eq!(w.nova_group_id, Some("group".to_string()));
    assert_eq!(w.coordinator_id, Some("dao".to_string()));
    assert!(contract.get_worker("voter-2".to_string()).is_none());
    assert!(contract.get_coordinator("other".to_string()).is_none());

    assert_eq!(
        contract.deactivate_worker(account(1), "voter-1".to_string()),
        Err(RegistryError::NotOwnerOrAdmin)
    );
    assert_eq!(
        contract.deactivate_coordinator(account(2), "dao".to_string()),
        Err(RegistryError::NotOwnerOrAdmin)
    );
    assert_eq!(contract.deactivate_worker(account(0), "voter-1".to_string()), Ok(()));
    assert_eq!(
        contract.deactivate_worker(account(0), "voter-1x".to_string()),
        Err(RegistryError::WorkerNotFound)
    );
    assert_eq!(contract.list_active_workers().len(), 0);
    assert_eq!(contract.list_workers().len(), 1);
    assert_eq!(contract.list_workers_by_coordinator("dao".to_string()).len(), 0);
}

#[test]
fn listings_and_stats_agree() {
    let mut contract = RegistryContract::new(account(0));
    contract.register_coordinator(account(1), 0, one_near(), "dao-a".to_string()).unwrap();
    contract.register_coordinator(account(1), 0, one_near(), "dao-b".to_string()).unwrap();
    for (name, dao) in [("w", Some("dao-a")), ("x", Some("dao-b")), ("y", Some("dao-a")), ("z", None)] {
        contract
            .register_worker(account(2), 0, one_near(), format!("{}{}", name, name), dao.map(|d| d.to_string()))
            .unwrap();
    }
    contract.deactivate_worker(account(2), "yy-3".to_string()).unwrap();
    contract.deactivate_coordinator(account(1), "dao-b".to_string()).unwrap();

    let names = |v: Vec<shade_coordinator::registry::WorkerEntry>| -> Vec<String> {
        v.into_iter().map(|w| w.worker_id).collect()
    };
    assert_eq!(names(contract.list_workers()), vec!["ww-1", "xx-2", "yy-3", "zz-4"]);
    assert_eq!(names(contract.list_active_workers()), vec!["ww-1", "xx-2", "zz-4"]);
    assert_eq!(names(contract.list_workers_by_coordinator("dao-a".to_string())), vec!["ww-1"]);
    assert_eq!(names(contract.list_workers_by_coordinator("dao-b".to_string())), vec!["xx-2"]);
    assert_eq!(names(contract.list_workers_by_coordinator("dao-c".to_string())), Vec::<String>::new());
    assert_eq!(contract.list_active_coordinators().len(), 1);
    assert_eq!(contract.list_active_coordinators()[0].coordinator_id, "dao-a");
    assert_eq!(
        contract.get_stats(),
        RegistryStats {
            total_coordinators: 2,
            active_coordinators: 1,
            total_workers: 4,
            active_workers: 3,
        }
    );
}

#[test]
fn directory_namespaces_keep_their_ordinals() {
    assert_eq!(StorageKey::Coordinators.ordinal(), 0);
    assert_eq!(StorageKey::Workers.ordinal(), 1);
    assert_eq!(StorageKey::Coordinators.storage_prefix(), vec![0u8]);
    assert_eq!(StorageKey::Workers.storage_prefix(), vec![1u8]);
    assert_eq!(RegistryError::NameTaken.message(), "Coordinator name already taken");
}

#[test]
fn directory_invariant_check_finds_repeated_keys() {
    let mut contract = RegistryContract::new(account(0));
    contract.register_coordinator(account(1), 0, one_near(), "dao".to_string()).unwrap();
    contract.register_worker(account(1), 0, one_near(), "voter".to_string(), None).unwrap();
    assert!(contract.is_well_formed());
    let twin = contract.workers[0].clone();
    contract.workers.push(twin);
    assert!(!contract.is_well_formed());
    contract.workers.pop();
    let twin = contract.coordinators[0].clone();
    contract.coordinators.push(twin);
    assert!(!contract.is_well_formed());
}

#[test]
fn amounts_are_read_as_the_standard_library_reads_them() {
    let max = u128::MAX.to_string();
    let cases = [
        "0", "7", "+7", "007", "+0", "10", "100000000000000000000000", max.as_str(),
        "340282366920938463463374607431768211456", "3402823669209384634633746074317682114550",
        "999999999999999999999999999999999999999", "", "+", "-", "-1", "-0", "++1", "+-1", " 1",
        "1 ", "1_000", "1e3", "0x10", "12a", "a12", "1.0", "١٢", "+", "１",
    ];
    for text in cases {
        assert_eq!(parse_yocto(text), text.parse::<u128>().ok(), "{:?}", text);
    }
    assert_eq!(parse_yocto("100000000000000000000000"), Some(DEFAULT_MIN_DEPOSIT));
    assert_eq!(parse_yocto("340282366920938463463374607431768211455"), Some(u128::MAX));
    assert_eq!(parse_yocto("340282366920938463463374607431768211456"), None);
}

#[test]
fn amounts_are_written_in_decimal() {
    assert_eq!(amount_text(0), "0");
    assert_eq!(amount_text(9), "9");
    assert_eq!(amount_text(10), "10");
    assert_eq!(amount_text(DEFAULT_MIN_DEPOSIT), "100000000000000000000000");
    assert_eq!(amount_text(u128::MAX), "340282366920938463463374607431768211455");
    for n in [1u128, 42, 1000, 123456789012345678901234567890] {
        assert_eq!(parse_yocto(&amount_text(n)), Some(n));
    }
}
