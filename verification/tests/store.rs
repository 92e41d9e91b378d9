use ticket_server::ctx::Ctx;
use ticket_server::error::{ClientError, Error, StatusClass};
use ticket_server::model::{ModelController, Ticket, TicketForCreate};

fn fc(title: &str) -> TicketForCreate {
    TicketForCreate { title: title.to_string() }
}

fn create(mc: &mut ModelController, uid: u64, title: &str) -> Ticket {
    mc.create_ticket(Ctx::new(uid), fc(title)).unwrap()
}

#[test]
fn create_ids_count_prior_creates() {
    let mut mc = ModelController::new().unwrap();
    let mut prev: Option<u64> = None;
    for k in 0..5u64 {
        let t = create(&mut mc, 10 + k, "t");
        assert_eq!(t.id, k);
        assert_eq!(t.cid, 10 + k);
        if let Some(p) = prev {
            assert!(t.id > p);
        }
        prev = Some(t.id);
    }
    let listed = mc.list_tickets(Ctx::new(1)).unwrap();
    assert_eq!(listed.len(), 5);
    for (k, t) in listed.iter().enumerate() {
        assert_eq!(t.id, k as u64);
    }
}

#[test]
fn delete_returns_created_ticket_and_removes_it() {
    let mut mc = ModelController::new().unwrap();
    let a = create(&mut mc, 7, "A");
    let b = create(&mut mc, 8, "B");
    assert_eq!(a.id, 0);
    assert_eq!(b.id, 1);

    let deleted = mc.delete_ticket(0, Ctx::new(9)).unwrap();
    assert_eq!(deleted.id, a.id);
    assert_eq!(deleted.cid, a.cid);
    assert_eq!(deleted.title, a.title);

    let listed = mc.list_tickets(Ctx::new(9)).unwrap();
    assert!(listed.iter().all(|t| t.id != 0));
    assert_eq!(listed.len(), 1);
    assert_eq!(listed[0].id, 1);

    let again = mc.delete_ticket(0, Ctx::new(9));
    assert!(matches!(again, Err(Error::TicketDeleteFailIdNotFound { id: 0 })));
}

#[test]
fn delete_unassigned_id_fails_not_found() {
    let mut mc = ModelController::new().unwrap();
    let r = mc.delete_ticket(999, Ctx::new(1));
    match r {
        Err(e) => {
            assert!(matches!(e, Error::TicketDeleteFailIdNotFound { id: 999 }));
            let (status, client) = e.client_status_and_error();
            assert_eq!(status, StatusClass::BadRequest);
            assert_eq!(client, ClientError::INVALID_PARAMS);
            assert_eq!(status.code(), 400);
        }
        Ok(_) => panic!("delete of an unassigned id must fail"),
    }
}

#[test]
fn list_keeps_creation_order_across_unrelated_deletes() {
    let mut mc = ModelController::new().unwrap();
    let x = create(&mut mc, 1, "X");
    let a = create(&mut mc, 1, "A");
    let b = create(&mut mc, 1, "B");
    assert_eq!(x.id, 0);

    mc.delete_ticket(x.id, Ctx::new(1)).unwrap();

    let listed = mc.list_tickets(Ctx::new(1)).unwrap();
    assert_eq!(listed.len(), 2);
    assert_eq!(listed[0].title, "A");
    assert_eq!(listed[0].id, a.id);
    assert_eq!(listed[1].title, "B");
    assert_eq!(listed[1].id, b.id);
}

#[test]
fn ids_never_reused_after_delete() {
    let mut mc = ModelController::new().unwrap();
    create(&mut mc, 1, "A");
    create(&mut mc, 1, "B");
    mc.delete_ticket(1, Ctx::new(1)).unwrap();
    let c = create(&mut mc, 1, "C");
    assert_eq!(c.id, 2);
    let listed = mc.list_tickets(Ctx::new(1)).unwrap();
    let ids: Vec<u64> = listed.iter().map(|t| t.id).collect();
    assert_eq!(ids, vec![0, 2]);
}
