use gitarch_poap::ids::bytes_equal;
use gitarch_poap::ids::AccountId;
use gitarch_poap::ids::ProjectId;
use gitarch_poap::ledger::copy_tokens;
use gitarch_poap::ledger::GitArchPOAP;
use gitarch_poap::record::Error;
use gitarch_poap::record::Event;
use gitarch_poap::record::Metadata;
use gitarch_poap::store::MetadataStore;
use gitarch_poap::table::Table;

fn alice() -> AccountId {
    AccountId::new([0x01; 32])
}

fn bob() -> AccountId {
    AccountId::new([0x02; 32])
}

fn charlie() -> AccountId {
    AccountId::new([0x03; 32])
}

fn project(byte: u8) -> ProjectId {
    ProjectId::new([byte; 32])
}

fn numbered_project(n: u64) -> ProjectId {
    let mut bytes = [0u8; 32];
    bytes[..8].copy_from_slice(&n.to_le_bytes());
    ProjectId::new(bytes)
}

#[test]
fn issuance_scenario() {
    let mut ledger = GitArchPOAP::new(charlie());
    assert_eq!(ledger.mint(alice(), project(0x00), alice(), String::from("ipfs://a"), 10), Ok(0));
    assert_eq!(
        ledger.mint(bob(), project(0x00), bob(), String::from("ipfs://b"), 11),
        Err(Error::ProjectAlreadyMinted)
    );
    assert_eq!(ledger.mint(alice(), project(0x01), alice(), String::from("ipfs://c"), 12), Ok(1));
    assert_eq!(ledger.get_user_tokens(&alice()), vec![0, 1]);
    assert_eq!(ledger.get_project_token(&project(0x00)), Some(0));
    assert_eq!(ledger.total_issued(), 2);
}

#[test]
fn new_ledger_is_empty() {
    let ledger = GitArchPOAP::new(alice());
    assert_eq!(ledger.total_issued(), 0);
    assert_eq!(ledger.total_projects_published(), 0);
    assert_eq!(ledger.get_owner(), alice());
    assert!(!ledger.is_owner_gated());
    assert_eq!(ledger.get_user_tokens(&alice()), Vec::<u64>::new());
    assert_eq!(ledger.get_metadata(0), None);
    assert_eq!(ledger.get_project_token(&project(0)), None);
    assert!(ledger.events().is_empty());
}

#[test]
fn second_mint_for_a_project_changes_nothing() {
    let mut ledger = GitArchPOAP::new(alice());
    assert_eq!(ledger.mint(alice(), project(7), alice(), String::from("ipfs://first"), 100), Ok(0));
    let events_before = ledger.events().clone();
    let result = ledger.mint(bob(), project(7), bob(), String::from("ipfs://second"), 200);
    assert_eq!(result, Err(Error::ProjectAlreadyMinted));
    assert_eq!(ledger.total_issued(), 1);
    assert_eq!(ledger.total_projects_published(), 0);
    assert_eq!(ledger.get_project_token(&project(7)), Some(0));
    assert_eq!(ledger.get_user_tokens(&alice()), vec![0]);
    assert_eq!(ledger.get_user_tokens(&bob()), Vec::<u64>::new());
    assert_eq!(ledger.get_metadata(1), None);
    assert_eq!(
        ledger.get_metadata(0),
        Some(Metadata {
            project_id: project(7),
            owner: alice(),
            metadata_uri: String::from("ipfs://first"),
            timestamp: 100,
        })
    );
    assert_eq!(ledger.events(), &events_before);
}

#[test]
fn identifiers_are_dense_and_increasing() {
    let mut ledger = GitArchPOAP::new(alice());
    let mut granted: Vec<u64> = Vec::new();
    for n in 0..20u64 {
        let id = ledger.mint(bob(), numbered_project(n), bob(), format!("ipfs://{}", n), n);
        granted.push(id.unwrap());
        let again = ledger.mint(bob(), numbered_project(n), alice(), String::from("ipfs://x"), n);
        assert_eq!(again, Err(Error::ProjectAlreadyMinted));
    }
    assert_eq!(granted, (0..20u64).collect::<Vec<u64>>());
}

#[test]
fn total_issued_counts_granted_mints_only() {
    let mut ledger = GitArchPOAP::new(alice());
    let mut ok = 0u64;
    let mut refused = 0u64;
    for n in [3u64, 5, 3, 3, 8, 5, 13, 21, 8] {
        match ledger.mint(alice(), numbered_project(n), bob(), String::from("ipfs://t"), 1) {
            Ok(_) => ok += 1,
            Err(_) => refused += 1,
        }
    }
    assert_eq!(ok, 5);
    assert_eq!(refused, 4);
    assert_eq!(ledger.total_issued(), 5);
}

#[test]
fn user_tokens_follow_mint_order() {
    let mut ledger = GitArchPOAP::new(alice());
    let recipients = [alice(), bob(), alice(), bob(), bob(), alice()];
    for (n, who) in recipients.iter().enumerate() {
        let id = ledger.mint(alice(), project(n as u8), *who, String::from("ipfs://m"), 0);
        assert_eq!(id, Ok(n as u64));
    }
    assert_eq!(ledger.get_user_tokens(&alice()), vec![0, 2, 5]);
    assert_eq!(ledger.get_user_tokens(&bob()), vec![1, 3, 4]);
    assert_eq!(ledger.get_user_tokens(&charlie()), Vec::<u64>::new());
}

#[test]
fn lookups_return_what_was_stored() {
    let mut ledger = GitArchPOAP::new(alice());
    assert_eq!(ledger.mint(alice(), project(9), bob(), String::from("ipfs://nine"), 77), Ok(0));
    assert_eq!(ledger.mint(bob(), project(4), charlie(), String::from("ipfs://four"), 78), Ok(1));
    assert_eq!(
        ledger.get_metadata(0),
        Some(Metadata {
            project_id: project(9),
            owner: bob(),
            metadata_uri: String::from("ipfs://nine"),
            timestamp: 77,
        })
    );
    assert_eq!(
        ledger.get_metadata(1),
        Some(Metadata {
            project_id: project(4),
            owner: charlie(),
            metadata_uri: String::from("ipfs://four"),
            timestamp: 78,
        })
    );
    assert_eq!(ledger.get_metadata(2), None);
    assert_eq!(ledger.get_metadata(u64::MAX), None);
    assert_eq!(ledger.get_project_token(&project(9)), Some(0));
    assert_eq!(ledger.get_project_token(&project(4)), Some(1));
    assert_eq!(ledger.get_project_token(&project(5)), None);
}

#[test]
fn projects_that_differ_in_one_byte_are_distinct() {
    let mut ledger = GitArchPOAP::new(alice());
    let mut late = [0u8; 32];
    late[31] = 1;
    assert_eq!(ledger.mint(alice(), project(0), alice(), String::from("a"), 0), Ok(0));
    assert_eq!(ledger.mint(alice(), ProjectId::new(late), alice(), String::from("b"), 0), Ok(1));
    assert_eq!(ledger.get_project_token(&ProjectId::new(late)), Some(1));
    assert_eq!(ledger.get_project_token(&project(0)), Some(0));
}

#[test]
fn publish_counts_every_call() {
    let mut ledger = GitArchPOAP::new(alice());
    assert_eq!(ledger.publish(bob(), project(1)), Ok(()));
    assert_eq!(ledger.total_projects_published(), 1);
    assert_eq!(ledger.publish(bob(), project(1)), Ok(()));
    assert_eq!(ledger.total_projects_published(), 2);
    assert_eq!(ledger.publish(alice(), project(2)), Ok(()));
    assert_eq!(ledger.total_projects_published(), 3);
    assert_eq!(ledger.total_issued(), 0);
    assert_eq!(ledger.get_project_token(&project(1)), None);
    assert_eq!(ledger.get_user_tokens(&bob()), Vec::<u64>::new());
}

#[test]
fn publish_does_not_gate_mint() {
    let mut ledger = GitArchPOAP::new(alice());
    assert_eq!(ledger.mint(bob(), project(1), bob(), String::from("ipfs://u"), 5), Ok(0));
    assert_eq!(ledger.publish(bob(), project(1)), Ok(()));
    assert_eq!(ledger.publish(bob(), project(2)), Ok(()));
    assert_eq!(ledger.mint(bob(), project(2), bob(), String::from("ipfs://v"), 6), Ok(1));
    assert_eq!(ledger.total_projects_published(), 2);
    assert_eq!(ledger.total_issued(), 2);
}

#[test]
fn events_are_recorded_in_order() {
    let mut ledger = GitArchPOAP::new(alice());
    assert_eq!(ledger.mint(bob(), project(1), charlie(), String::from("ipfs://e"), 5), Ok(0));
    assert_eq!(ledger.publish(bob(), project(3)), Ok(()));
    assert!(ledger.mint(bob(), project(1), charlie(), String::from("ipfs://f"), 6).is_err());
    let expected = vec![
        Event::Minted {
            token_id: 0,
            recipient: charlie(),
            project_id: project(1),
            metadata_uri: String::from("ipfs://e"),
        },
        Event::Published { publisher: bob(), project_id: project(3) },
    ];
    assert_eq!(ledger.events(), &expected);
    assert_eq!(ledger.take_events(), expected);
    assert!(ledger.events().is_empty());
    assert_eq!(ledger.total_issued(), 1);
    assert_eq!(ledger.total_projects_published(), 1);
    assert_eq!(ledger.get_user_tokens(&charlie()), vec![0]);
}

#[test]
fn owner_gated_ledger_refuses_other_callers() {
    let mut ledger = GitArchPOAP::new_owner_gated(alice());
    assert!(ledger.is_owner_gated());
    assert_eq!(
        ledger.mint(bob(), project(1), bob(), String::from("ipfs://g"), 1),
        Err(Error::Unauthorized)
    );
    assert_eq!(ledger.publish(bob(), project(1)), Err(Error::Unauthorized));
    assert_eq!(ledger.total_issued(), 0);
    assert_eq!(ledger.total_projects_published(), 0);
    assert!(ledger.events().is_empty());
    assert_eq!(ledger.get_project_token(&project(1)), None);
    assert_eq!(ledger.mint(alice(), project(1), bob(), String::from("ipfs://g"), 1), Ok(0));
    assert_eq!(ledger.publish(alice(), project(1)), Ok(()));
    assert_eq!(
        ledger.mint(bob(), project(1), bob(), String::from("ipfs://h"), 2),
        Err(Error::Unauthorized)
    );
    assert_eq!(
        ledger.mint(alice(), project(1), bob(), String::from("ipfs://h"), 2),
        Err(Error::ProjectAlreadyMinted)
    );
    assert_eq!(ledger.get_user_tokens(&bob()), vec![0]);
    assert_eq!(ledger.total_projects_published(), 1);
}

#[test]
fn bytes_equal_compares_every_byte() {
    let a = [5u8; 32];
    let mut b = [5u8; 32];
    assert!(bytes_equal(&a, &b));
    b[31] = 6;
    assert!(!bytes_equal(&a, &b));
    b[31] = 5;
    b[0] = 4;
    assert!(!bytes_equal(&a, &b));
    assert!(alice().same(&alice()));
    assert!(!alice().same(&bob()));
    assert!(project(3).same(&project(3)));
    assert!(!project(3).same(&project(4)));
    assert_eq!(project(3).as_bytes(), [3u8; 32]);
}

#[test]
fn table_reads_absent_keys_as_none() {
    let mut table: Table<u64> = Table::new();
    assert!(!table.contains(&[1u8; 32]));
    assert_eq!(table.get(&[1u8; 32]), None);
    table.insert([1u8; 32], 10);
    table.insert([2u8; 32], 20);
    assert!(table.contains(&[1u8; 32]));
    assert_eq!(table.get(&[1u8; 32]), Some(&10));
    assert_eq!(table.get(&[2u8; 32]), Some(&20));
    assert_eq!(table.get(&[3u8; 32]), None);
    table.insert([1u8; 32], 11);
    assert_eq!(table.get(&[1u8; 32]), Some(&11));
    assert_eq!(table.get(&[2u8; 32]), Some(&20));
}

#[test]
fn metadata_store_is_dense() {
    let mut store = MetadataStore::new();
    assert_eq!(store.len(), 0);
    assert!(!store.contains(0));
    assert_eq!(store.get(0), None);
    let record = Metadata {
        project_id: project(1),
        owner: alice(),
        metadata_uri: String::from("ipfs://s"),
        timestamp: 3,
    };
    assert!(!store.insert(1, record.clone()));
    assert_eq!(store.len(), 0);
    assert!(store.insert(0, record.clone()));
    assert!(!store.insert(0, record.clone()));
    assert_eq!(store.len(), 1);
    assert!(store.contains(0));
    assert!(!store.contains(1));
    assert_eq!(store.get(0), Some(&record));
    assert_eq!(store.get(1), None);
}

#[test]
fn copy_tokens_keeps_order() {
    assert_eq!(copy_tokens(&vec![4, 2, 9]), vec![4, 2, 9]);
    assert_eq!(copy_tokens(&Vec::new()), Vec::<u64>::new());
}

fn record(project_byte: u8, owner: AccountId, uri: &str, timestamp: u64) -> Metadata {
    Metadata {
        project_id: project(project_byte),
        owner,
        metadata_uri: String::from(uri),
        timestamp,
    }
}

#[test]
fn restore_rebuilds_counters_and_indices() {
    let records = vec![
        record(4, bob(), "ipfs://r0", 40),
        record(2, alice(), "ipfs://r1", 41),
        record(9, bob(), "ipfs://r2", 42),
    ];
    let restored = GitArchPOAP::restore(charlie(), true, true, 6, 11, &records);
    let mut ledger = restored.expect("the records name three projects");
    assert_eq!(ledger.get_owner(), charlie());
    assert!(ledger.is_owner_gated());
    assert_eq!(ledger.get_value(), true);
    assert_eq!(ledger.get_total_poaps(), 6);
    assert_eq!(ledger.total_projects_published(), 11);
    assert_eq!(ledger.total_issued(), 3);
    assert!(ledger.events().is_empty());
    assert_eq!(ledger.get_metadata(1), Some(records[1].clone()));
    assert_eq!(ledger.get_metadata(3), None);
    assert_eq!(ledger.get_project_token(&project(9)), Some(2));
    assert_eq!(ledger.get_project_token(&project(1)), None);
    assert_eq!(ledger.get_user_tokens(&bob()), vec![0, 2]);
    assert_eq!(ledger.get_user_tokens(&alice()), vec![1]);
    assert_eq!(
        ledger.mint(charlie(), project(2), alice(), String::from("ipfs://again"), 50),
        Err(Error::ProjectAlreadyMinted)
    );
    assert_eq!(ledger.mint(charlie(), project(3), alice(), String::from("ipfs://r3"), 51), Ok(3));
    assert_eq!(ledger.get_user_tokens(&alice()), vec![1, 3]);
}

#[test]
fn restore_refuses_two_records_of_one_project() {
    let records = vec![
        record(4, bob(), "ipfs://r0", 40),
        record(2, alice(), "ipfs://r1", 41),
        record(4, alice(), "ipfs://r2", 42),
    ];
    assert!(GitArchPOAP::restore(charlie(), false, false, 0, 0, &records).is_none());
    assert!(GitArchPOAP::restore(charlie(), false, false, 0, 0, &Vec::new()).is_some());
}

#[test]
fn restore_of_what_a_ledger_holds_reads_the_same() {
    let mut ledger = GitArchPOAP::new(alice());
    assert_eq!(ledger.mint(bob(), project(1), bob(), String::from("ipfs://p"), 1), Ok(0));
    assert_eq!(ledger.mint(bob(), project(2), alice(), String::from("ipfs://q"), 2), Ok(1));
    assert_eq!(ledger.publish(bob(), project(2)), Ok(()));
    ledger.flip();
    let mut records: Vec<Metadata> = Vec::new();
    let mut id = 0u64;
    while let Some(m) = ledger.get_metadata(id) {
        records.push(m);
        id += 1;
    }
    let copy = GitArchPOAP::restore(
        ledger.get_owner(),
        ledger.is_owner_gated(),
        ledger.get_value(),
        ledger.get_total_poaps(),
        ledger.total_projects_published(),
        &records,
    )
    .expect("a ledger holds each project once");
    assert_eq!(copy.total_issued(), ledger.total_issued());
    assert_eq!(copy.get_value(), true);
    assert_eq!(copy.total_projects_published(), 1);
    assert_eq!(copy.get_user_tokens(&alice()), ledger.get_user_tokens(&alice()));
    assert_eq!(copy.get_user_tokens(&bob()), ledger.get_user_tokens(&bob()));
    assert_eq!(copy.get_project_token(&project(2)), Some(1));
}

#[test]
fn other_calls_consume_no_identifier() {
    let mut ledger = GitArchPOAP::new(alice());
    assert_eq!(ledger.mint(bob(), project(1), bob(), String::from("ipfs://i"), 1), Ok(0));
    ledger.flip();
    ledger.mint_dummy_poap();
    assert_eq!(ledger.publish(bob(), project(8)), Ok(()));
    assert!(ledger.mint(bob(), project(1), bob(), String::from("ipfs://j"), 2).is_err());
    assert_eq!(ledger.mint(bob(), project(8), alice(), String::from("ipfs://k"), 3), Ok(1));
    assert_eq!(ledger.total_issued(), 2);
    assert_eq!(ledger.get_total_poaps(), 1);
    assert_eq!(ledger.total_projects_published(), 1);
    assert_eq!(ledger.get_value(), true);
}
