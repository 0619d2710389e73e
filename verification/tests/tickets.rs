use learn_rust_web_server::context::Context;
use learn_rust_web_server::error::Error;
use learn_rust_web_server::model::{ClientTicket, ModelController};

fn ctx(user_id: u64) -> Context {
    Context::new(user_id)
}

fn payload(name: &str) -> ClientTicket {
    ClientTicket { name: name.to_string() }
}

#[test]
fn sequential_creation_yields_sequential_ids() {
    let mut mc = ModelController::new();
    for expected_id in 0..5u64 {
        let t = mc.create_ticket(ctx(1), payload("t")).unwrap();
        assert_eq!(t.id, expected_id);
        assert_eq!(t.user_id, 1);
        assert_eq!(t.name, "t");
    }
    let listed = mc.read_tickets().unwrap();
    assert_eq!(listed.len(), 5);
    for (i, t) in listed.iter().enumerate() {
        assert_eq!(t.id, i as u64);
    }
}

#[test]
fn listing_returns_non_deleted_subset_in_ascending_id_order() {
    let mut mc = ModelController::new();
    for _ in 0..4 {
        mc.create_ticket(ctx(9), payload("x")).unwrap();
    }
    mc.delete_ticket(ctx(9), 1).unwrap();
    mc.delete_ticket(ctx(9), 3).unwrap();
    let listed = mc.read_tickets().unwrap();
    let ids: Vec<u64> = listed.iter().map(|t| t.id).collect();
    assert_eq!(ids, vec![0, 2]);
}

#[test]
fn empty_store_lists_nothing() {
    let mc = ModelController::new();
    assert!(mc.read_tickets().unwrap().is_empty());
}

#[test]
fn delete_out_of_range_fails() {
    let mut mc = ModelController::new();
    assert_eq!(
        mc.delete_ticket(ctx(1), 0).unwrap_err(),
        Error::DeleteTicketFailed { id: 0 }
    );
    mc.create_ticket(ctx(1), payload("a")).unwrap();
    mc.create_ticket(ctx(1), payload("b")).unwrap();
    assert_eq!(
        mc.delete_ticket(ctx(1), 2).unwrap_err(),
        Error::DeleteTicketFailed { id: 2 }
    );
    assert_eq!(
        mc.delete_ticket(ctx(1), u64::MAX).unwrap_err(),
        Error::DeleteTicketFailed { id: u64::MAX }
    );
}

#[test]
fn delete_already_deleted_fails() {
    let mut mc = ModelController::new();
    mc.create_ticket(ctx(1), payload("a")).unwrap();
    let t = mc.delete_ticket(ctx(1), 0).unwrap();
    assert_eq!(t.id, 0);
    assert_eq!(
        mc.delete_ticket(ctx(1), 0).unwrap_err(),
        Error::DeleteTicketFailed { id: 0 }
    );
}

#[test]
fn delete_by_non_owner_fails_and_keeps_ticket() {
    let mut mc = ModelController::new();
    mc.create_ticket(ctx(1), payload("mine")).unwrap();
    assert_eq!(
        mc.delete_ticket(ctx(2), 0).unwrap_err(),
        Error::DeleteTicketFailed { id: 0 }
    );
    // the ticket is still listed, and its owner can still delete it
    assert_eq!(mc.read_tickets().unwrap().len(), 1);
    let t = mc.delete_ticket(ctx(1), 0).unwrap();
    assert_eq!(t.name, "mine");
    assert!(mc.read_tickets().unwrap().is_empty());
}

#[test]
fn deleted_ids_are_never_reused() {
    let mut mc = ModelController::new();
    mc.create_ticket(ctx(1), payload("a")).unwrap();
    mc.delete_ticket(ctx(1), 0).unwrap();
    let t = mc.create_ticket(ctx(1), payload("b")).unwrap();
    assert_eq!(t.id, 1);
    let ids: Vec<u64> = mc.read_tickets().unwrap().iter().map(|t| t.id).collect();
    assert_eq!(ids, vec![1]);
}
