use community_garden::records::{Error, Role};
use community_garden::registry::Registry;

fn s(x: &str) -> String {
    x.to_string()
}

/// An administrator keyed 1 and a plain user keyed 2.
fn seeded() -> Registry {
    let mut reg = Registry::new();
    reg.create_user(s("Root"), s("root@example.com"), s("5550001111"), Role::Admin, 1).unwrap();
    reg.create_user(s("Ann"), s("ann@example.com"), s("5550002222"), Role::User, 2).unwrap();
    reg
}

#[test]
fn garden_scenario() {
    let mut reg = Registry::new();
    let alice = reg
        .create_user(s("Alice"), s("alice@example.com"), s("1234567890"), Role::User, 0)
        .unwrap();
    assert_eq!(alice.id, 1);
    let bob = reg.create_user(s("Bob"), s("alice@example.com"), s("2223334444"), Role::User, 0);
    assert!(matches!(bob, Err(Error::InvalidPayload(_))));
    let plot = reg.create_plot(1, s("10x10"), s("North"), s(""), 0).unwrap();
    assert_eq!(plot.id, 2);
    assert_eq!(plot.owner_id, 1);
    let act = reg.create_activity(2, s("Planting"), s("2024-01-01"), 0).unwrap();
    assert_eq!(act.id, 3);
    let missing = reg.create_activity(999, s("Planting"), s("2024-01-01"), 0);
    assert!(matches!(missing, Err(Error::InvalidPayload(_))));
}

#[test]
fn ids_increase_across_kinds() {
    let mut reg = seeded();
    let p = reg.create_plot(1, s("5x5"), s("East"), s(""), 3).unwrap();
    let a = reg.create_activity(p.id, s("Weeding"), s("2024-02-02"), 4).unwrap();
    let r = reg.create_resource(s("Hoe"), 3, true, 5).unwrap();
    let e = reg.create_event(s("Fair"), s("Harvest fair"), s("2024-09-01"), s("Hall"), 6).unwrap();
    let u = reg.create_user(s("Cy"), s("cy@example.com"), s("5550003333"), Role::User, 7).unwrap();
    assert_eq!(vec![p.id, a.id, r.id, e.id, u.id], vec![3, 4, 5, 6, 7]);
    assert!(reg.create_resource(s("Rake"), 0, true, 8).is_err());
    let r2 = reg.create_resource(s("Rake"), 1, false, 9).unwrap();
    assert_eq!(r2.id, 8);
}

#[test]
fn plot_owner_must_exist() {
    let mut reg = seeded();
    let r = reg.create_plot(42, s("5x5"), s("East"), s(""), 3);
    assert!(matches!(r, Err(Error::InvalidPayload(_))));
    assert_eq!(reg.last_id, 2);
    let p = reg.create_plot(2, s("5x5"), s("East"), s("2024-12-31"), 3).unwrap();
    assert_eq!(p.owner_id, 2);
    assert_eq!(p.size, "5x5");
    assert_eq!(p.location, "East");
    assert_eq!(p.reserved_until, "2024-12-31");
    assert_eq!(p.created_at, 3);
    assert_eq!(reg.get_plot(p.id), Ok(p));
}

#[test]
fn plot_update_and_delete() {
    let mut reg = seeded();
    let p = reg.create_plot(2, s("5x5"), s("East"), s(""), 3).unwrap();
    let r = reg.update_plot(p.id, Some(1), None, None, None, 2);
    assert!(matches!(r, Err(Error::Unauthorized(_))));
    assert_eq!(reg.get_plot(p.id), Ok(p.clone()));
    let v = reg.update_plot(p.id, Some(1), Some(s("6x6")), None, Some(s("2025-01-01")), 1).unwrap();
    assert_eq!(v.owner_id, 1);
    assert_eq!(v.size, "6x6");
    assert_eq!(v.location, "East");
    assert_eq!(v.reserved_until, "2025-01-01");
    assert_eq!(v.created_at, 3);
    assert!(matches!(reg.update_plot(77, None, None, None, None, 1), Err(Error::NotFound(_))));
    assert!(matches!(reg.delete_plot(p.id, 2), Err(Error::Unauthorized(_))));
    assert_eq!(reg.get_plot(p.id), Ok(v.clone()));
    assert_eq!(reg.delete_plot(p.id, 1), Ok(v));
    assert!(matches!(reg.delete_plot(p.id, 1), Err(Error::NotFound(_))));
    assert!(matches!(reg.get_all_plots(), Err(Error::NotFound(_))));
}

#[test]
fn activity_flow() {
    let mut reg = seeded();
    let p = reg.create_plot(2, s("5x5"), s("East"), s(""), 3).unwrap();
    let a = reg.create_activity(p.id, s("Sowing"), s("2024-03-03"), 4).unwrap();
    assert_eq!(a.plot_id, p.id);
    assert_eq!(reg.get_activity(a.id), Ok(a.clone()));
    assert!(matches!(reg.update_activity(a.id, None, Some(s("x")), None, 2), Err(Error::Unauthorized(_))));
    let v = reg.update_activity(a.id, None, Some(s("Sowing beans")), None, 1).unwrap();
    assert_eq!(v.description, "Sowing beans");
    assert_eq!(v.date, "2024-03-03");
    assert_eq!(reg.get_all_activities(), Ok(vec![v.clone()]));
    assert!(matches!(reg.delete_activity(a.id, 2), Err(Error::Unauthorized(_))));
    assert_eq!(reg.delete_activity(a.id, 1), Ok(v));
    assert!(matches!(reg.delete_activity(a.id, 1), Err(Error::NotFound(_))));
}

#[test]
fn deleting_a_plot_keeps_its_activities() {
    let mut reg = seeded();
    let p = reg.create_plot(2, s("5x5"), s("East"), s(""), 3).unwrap();
    let a = reg.create_activity(p.id, s("Sowing"), s("2024-03-03"), 4).unwrap();
    reg.delete_plot(p.id, 1).unwrap();
    assert_eq!(reg.get_activity(a.id), Ok(a));
}

#[test]
fn resource_flow() {
    let mut reg = seeded();
    let r = reg.create_resource(s("Hose"), 0, true, 3);
    assert!(matches!(r, Err(Error::InvalidPayload(_))));
    let x = reg.create_resource(s("Hose"), 2, true, 3).unwrap();
    assert_eq!(x.quantity, 2);
    assert!(x.available);
    let v = reg.update_resource(x.id, None, Some(0), Some(false), 1).unwrap();
    assert_eq!(v.quantity, 0);
    assert!(!v.available);
    assert_eq!(v.name, "Hose");
    assert!(matches!(reg.update_resource(x.id, Some(s("y")), None, None, 2), Err(Error::Unauthorized(_))));
    assert_eq!(reg.get_resource(x.id), Ok(v.clone()));
    assert_eq!(reg.get_all_resources(), Ok(vec![v.clone()]));
    assert_eq!(reg.delete_resource(x.id, 1), Ok(v));
    assert!(matches!(reg.get_resource(x.id), Err(Error::NotFound(_))));
}

#[test]
fn event_flow() {
    let mut reg = seeded();
    let r = reg.create_event(s("Fair"), s(""), s("2024-09-01"), s("Hall"), 3);
    assert!(matches!(r, Err(Error::InvalidPayload(_))));
    let e = reg.create_event(s("Fair"), s("Harvest"), s("2024-09-01"), s("Hall"), 3).unwrap();
    assert_eq!(e.title, "Fair");
    let r = reg.update_event(e.id, None, None, None, Some(s("")), 1);
    assert!(matches!(r, Err(Error::InvalidPayload(_))));
    let r = reg.update_event(e.id, Some(s("Feast")), None, None, None, 2);
    assert!(matches!(r, Err(Error::Unauthorized(_))));
    assert_eq!(reg.get_event(e.id), Ok(e.clone()));
    let v = reg.update_event(e.id, Some(s("Feast")), None, Some(s("2024-09-02")), None, 1).unwrap();
    assert_eq!(v.title, "Feast");
    assert_eq!(v.description, "Harvest");
    assert_eq!(v.date, "2024-09-02");
    assert_eq!(v.location, "Hall");
    assert!(matches!(reg.delete_event(e.id, 2), Err(Error::Unauthorized(_))));
    assert_eq!(reg.delete_event(e.id, 1), Ok(v));
    assert!(matches!(reg.delete_event(e.id, 1), Err(Error::NotFound(_))));
    assert!(matches!(reg.get_all_events(), Err(Error::NotFound(_))));
}

#[test]
fn delete_of_unknown_id() {
    let mut reg = seeded();
    assert!(matches!(reg.delete_user(500, 1), Err(Error::NotFound(_))));
    assert!(matches!(reg.delete_resource(500, 1), Err(Error::NotFound(_))));
    assert!(matches!(reg.delete_resource(500, 1), Err(Error::NotFound(_))));
    assert!(matches!(reg.delete_event(500, 1), Err(Error::NotFound(_))));
    assert!(matches!(reg.delete_activity(500, 1), Err(Error::NotFound(_))));
}

#[test]
fn counter_exhaustion_is_visible() {
    let mut reg = Registry::new();
    assert!(reg.can_issue_id());
    assert_eq!(reg.next_id(), 1);
    assert_eq!(reg.next_id(), 2);
    reg.last_id = u64::MAX;
    assert!(!reg.can_issue_id());
}
