use forgeerp::common::{Aggregate, AggregateId, AggregateRoot, DomainError, TenantId, Timestamp};
use forgeerp::parties::{
    ContactInfo, Party, PartyCommand, PartyEvent, PartyId, PartyKind, PartyRegistered, PartyStatus,
    PartySuspended, RegisterParty, SuspendParty, UpdateDetails,
};

fn test_tenant_id() -> TenantId {
    TenantId::new()
}

fn test_party_id() -> PartyId {
    PartyId::new(AggregateId::new())
}

fn test_time() -> Timestamp {
    Timestamp::now()
}

#[test]
fn register_party_emits_party_registered_event() {
    let party = Party::empty(test_party_id());
    let tenant_id = test_tenant_id();
    let party_id = test_party_id();
    let contact = ContactInfo {
        email: Some("test@example.com".to_string()),
        phone: Some("+123456789".to_string()),
        address: Some("123 Main St".to_string()),
    };
    let cmd = RegisterParty {
        tenant_id,
        party_id,
        kind: PartyKind::Customer,
        name: "Test Customer".to_string(),
        contact: Some(contact.clone()),
        occurred_at: test_time(),
    };

    let events = party.handle(&PartyCommand::RegisterParty(cmd.clone())).unwrap();
    assert_eq!(events.len(), 1);

    match &events[0] {
        PartyEvent::PartyRegistered(e) => {
            assert_eq!(e.tenant_id, tenant_id);
            assert_eq!(e.party_id, party_id);
            assert_eq!(e.kind, PartyKind::Customer);
            assert_eq!(e.name, "Test Customer");
            assert_eq!(e.contact, contact);
        }
        _ => panic!("Expected PartyRegistered event"),
    }
}

#[test]
fn register_party_rejects_empty_name() {
    let party = Party::empty(test_party_id());
    let cmd = RegisterParty {
        tenant_id: test_tenant_id(),
        party_id: test_party_id(),
        kind: PartyKind::Supplier,
        name: "   ".to_string(),
        contact: None,
        occurred_at: test_time(),
    };

    let err = party.handle(&PartyCommand::RegisterParty(cmd)).unwrap_err();
    match err {
        DomainError::Validation(_) => {}
        _ => panic!("Expected Validation error for empty name"),
    }
}

#[test]
fn register_party_rejects_duplicate_creation() {
    let mut party = Party::empty(test_party_id());
    let tenant_id = test_tenant_id();
    let party_id = test_party_id();
    let cmd = RegisterParty {
        tenant_id,
        party_id,
        kind: PartyKind::Customer,
        name: "Test Customer".to_string(),
        contact: None,
        occurred_at: test_time(),
    };

    let events = party.handle(&PartyCommand::RegisterParty(cmd.clone())).unwrap();
    party.apply(&events[0]);

    let err = party.handle(&PartyCommand::RegisterParty(cmd)).unwrap_err();
    match err {
        DomainError::Conflict(_) => {}
        _ => panic!("Expected Conflict error for duplicate creation"),
    }
}

#[test]
fn update_details_updates_name_and_contact() {
    let mut party = Party::empty(test_party_id());
    let tenant_id = test_tenant_id();
    let party_id = test_party_id();

    let register_cmd = RegisterParty {
        tenant_id,
        party_id,
        kind: PartyKind::Customer,
        name: "Old Name".to_string(),
        contact: None,
        occurred_at: test_time(),
    };
    let events = party
        .handle(&PartyCommand::RegisterParty(register_cmd))
        .unwrap();
    party.apply(&events[0]);

    let new_contact = ContactInfo {
        email: Some("new@example.com".to_string()),
        phone: Some("+987654321".to_string()),
        address: None,
    };
    let update_cmd = UpdateDetails {
        tenant_id,
        party_id,
        name: Some("New Name".to_string()),
        contact: Some(new_contact.clone()),
        occurred_at: test_time(),
    };

    let events = party
        .handle(&PartyCommand::UpdateDetails(update_cmd))
        .unwrap();
    assert_eq!(events.len(), 1);

    match &events[0] {
        PartyEvent::PartyUpdated(e) => {
            assert_eq!(e.name, "New Name");
            assert_eq!(e.contact, new_contact);
        }
        _ => panic!("Expected PartyUpdated event"),
    }
}

#[test]
fn suspend_party_emits_party_suspended_event_and_prevents_transacting() {
    let mut party = Party::empty(test_party_id());
    let tenant_id = test_tenant_id();
    let party_id = test_party_id();

    let register_cmd = RegisterParty {
        tenant_id,
        party_id,
        kind: PartyKind::Supplier,
        name: "Test Supplier".to_string(),
        contact: None,
        occurred_at: test_time(),
    };
    let events = party
        .handle(&PartyCommand::RegisterParty(register_cmd))
        .unwrap();
    party.apply(&events[0]);
    assert!(party.can_transact());

    let suspend_cmd = SuspendParty {
        tenant_id,
        party_id,
        reason: Some("Risk review".to_string()),
        occurred_at: test_time(),
    };

    let events = party
        .handle(&PartyCommand::SuspendParty(suspend_cmd))
        .unwrap();
    assert_eq!(events.len(), 1);

    match &events[0] {
        PartyEvent::PartySuspended(e) => {
            assert_eq!(e.tenant_id, tenant_id);
            assert_eq!(e.party_id, party_id);
            assert_eq!(e.reason.as_deref(), Some("Risk review"));
        }
        _ => panic!("Expected PartySuspended event"),
    }

    party.apply(&events[0]);
    assert_eq!(party.status(), PartyStatus::Suspended);
    assert!(!party.can_transact());
}

#[test]
fn suspend_party_rejects_already_suspended() {
    let mut party = Party::empty(test_party_id());
    let tenant_id = test_tenant_id();
    let party_id = test_party_id();

    let register_cmd = RegisterParty {
        tenant_id,
        party_id,
        kind: PartyKind::Customer,
        name: "Test Customer".to_string(),
        contact: None,
        occurred_at: test_time(),
    };
    let events = party
        .handle(&PartyCommand::RegisterParty(register_cmd))
        .unwrap();
    party.apply(&events[0]);

    let suspend_cmd = SuspendParty {
        tenant_id,
        party_id,
        reason: None,
        occurred_at: test_time(),
    };
    let events = party
        .handle(&PartyCommand::SuspendParty(suspend_cmd.clone()))
        .unwrap();
    party.apply(&events[0]);

    let err = party
        .handle(&PartyCommand::SuspendParty(suspend_cmd))
        .unwrap_err();
    match err {
        DomainError::Conflict(_) => {}
        _ => panic!("Expected Conflict error for already suspended party"),
    }
}

#[test]
fn suspend_party_rejects_non_existent_party() {
    let party = Party::empty(test_party_id());
    let suspend_cmd = SuspendParty {
        tenant_id: test_tenant_id(),
        party_id: test_party_id(),
        reason: None,
        occurred_at: test_time(),
    };

    let err = party
        .handle(&PartyCommand::SuspendParty(suspend_cmd))
        .unwrap_err();
    match err {
        DomainError::NotFound => {}
        _ => panic!("Expected NotFound error for non-existent party"),
    }
}

#[test]
fn can_transact_reflects_status_invariant() {
    let mut party = Party::empty(test_party_id());
    let tenant_id = test_tenant_id();
    let party_id = test_party_id();

    let register_cmd = RegisterParty {
        tenant_id,
        party_id,
        kind: PartyKind::Customer,
        name: "Test Customer".to_string(),
        contact: None,
        occurred_at: test_time(),
    };
    let events = party
        .handle(&PartyCommand::RegisterParty(register_cmd))
        .unwrap();
    party.apply(&events[0]);

    // Active by default after registration.
    assert_eq!(party.status(), PartyStatus::Active);
    assert!(party.can_transact());

    // Suspend party.
    let suspend_cmd = SuspendParty {
        tenant_id,
        party_id,
        reason: None,
        occurred_at: test_time(),
    };
    let events = party
        .handle(&PartyCommand::SuspendParty(suspend_cmd))
        .unwrap();
    party.apply(&events[0]);

    assert_eq!(party.status(), PartyStatus::Suspended);
    assert!(!party.can_transact());
}

#[test]
fn party_version_increments_on_apply() {
    let mut party = Party::empty(test_party_id());
    assert_eq!(party.version(), 0);

    let tenant_id = test_tenant_id();
    let party_id = test_party_id();
    let register_cmd = RegisterParty {
        tenant_id,
        party_id,
        kind: PartyKind::Supplier,
        name: "Test Supplier".to_string(),
        contact: None,
        occurred_at: test_time(),
    };

    let events = party
        .handle(&PartyCommand::RegisterParty(register_cmd))
        .unwrap();
    party.apply(&events[0]);
    assert_eq!(party.version(), 1);

    let suspend_cmd = SuspendParty {
        tenant_id,
        party_id,
        reason: None,
        occurred_at: test_time(),
    };
    let events = party
        .handle(&PartyCommand::SuspendParty(suspend_cmd))
        .unwrap();
    party.apply(&events[0]);
    assert_eq!(party.version(), 2);
}

#[test]
fn party_handle_does_not_mutate_state() {
    let mut party = Party::empty(test_party_id());
    let tenant_id = test_tenant_id();
    let party_id = test_party_id();
    let register_cmd = RegisterParty {
        tenant_id,
        party_id,
        kind: PartyKind::Customer,
        name: "Test Customer".to_string(),
        contact: None,
        occurred_at: test_time(),
    };

    let events = party
        .handle(&PartyCommand::RegisterParty(register_cmd.clone()))
        .unwrap();
    party.apply(&events[0]);
    let initial_version = party.version();
    let initial_status = party.status();

    let suspend_cmd = SuspendParty {
        tenant_id,
        party_id,
        reason: Some("Reason".to_string()),
        occurred_at: test_time(),
    };

    let events1 = party
        .handle(&PartyCommand::SuspendParty(suspend_cmd.clone()))
        .unwrap();
    let version_after_handle1 = party.version();
    let status_after_handle1 = party.status();

    let events2 = party
        .handle(&PartyCommand::SuspendParty(suspend_cmd.clone()))
        .unwrap();
    let version_after_handle2 = party.version();
    let status_after_handle2 = party.status();

    assert_eq!(version_after_handle1, initial_version);
    assert_eq!(version_after_handle2, initial_version);
    assert_eq!(status_after_handle1, initial_status);
    assert_eq!(status_after_handle2, initial_status);

    assert_eq!(events1, events2);
}

#[test]
fn party_apply_is_deterministic() {
    let tenant_id = test_tenant_id();
    let party_id = test_party_id();
    let contact = ContactInfo {
        email: Some("test@example.com".to_string()),
        phone: None,
        address: None,
    };
    let event1 = PartyEvent::PartyRegistered(PartyRegistered {
        tenant_id,
        party_id,
        kind: PartyKind::Customer,
        name: "Test Customer".to_string(),
        contact: contact.clone(),
        occurred_at: test_time(),
    });
    let event2 = PartyEvent::PartySuspended(PartySuspended {
        tenant_id,
        party_id,
        reason: None,
        occurred_at: test_time(),
    });

    let mut party1 = Party::empty(party_id);
    party1.apply(&event1);
    party1.apply(&event2);

    let mut party2 = Party::empty(party_id);
    party2.apply(&event1);
    party2.apply(&event2);

    assert_eq!(party1.version(), party2.version());
    assert_eq!(party1.status(), party2.status());
    assert_eq!(party1.kind(), party2.kind());
    assert_eq!(party1.name(), party2.name());
    assert_eq!(party1.tenant_id(), party2.tenant_id());
    assert_eq!(party1.status(), PartyStatus::Suspended);
    assert!(!party1.can_transact());
}
