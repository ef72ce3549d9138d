use mycelium::registry::{plan_tick, Message, Registry, Scheduler};

#[test]
fn registry_refuses_duplicates() {
    let mut r: Registry<&str> = Registry::new();
    assert!(r.insert(0, "a"));
    assert!(r.insert(1, "b"));
    assert!(!r.insert(0, "c"));
    assert_eq!(r.len(), 2);
    assert_eq!(*r.entry_at(0), "a");
    assert!(r.contains(1));
    assert!(!r.contains(2));
}

#[test]
fn all_closed_drains_registry() {
    let mut r: Registry<u32> = Registry::new();
    for i in 0..5usize {
        r.insert(i, i as u32 * 10);
    }
    let ids: Vec<usize> = (0..r.len()).map(|i| r.id_at(i)).collect();
    let polled: Vec<Option<Message>> = ids.iter().map(|_| Some(Message::ConnectionClosed)).collect();
    let plan = plan_tick(&ids, &polled, true);
    assert_eq!(plan.remove, vec![0, 1, 2, 3, 4]);
    assert!(!plan.keep_alive);
    r.remove_all(&plan.remove);
    assert_eq!(r.len(), 0);
}

#[test]
fn closes_over_several_ticks_remove_once() {
    let mut r: Registry<()> = Registry::new();
    for i in 0..3usize {
        r.insert(i, ());
    }
    let plan = plan_tick(&vec![0, 1, 2], &vec![None, Some(Message::ConnectionClosed), None], false);
    r.remove_all(&plan.remove);
    assert_eq!(r.len(), 2);
    assert_eq!((r.id_at(0), r.id_at(1)), (0, 2));
    let plan = plan_tick(
        &vec![0, 2],
        &vec![Some(Message::ConnectionClosed), Some(Message::ConnectionClosed)],
        false,
    );
    r.remove_all(&plan.remove);
    assert_eq!(r.len(), 0);
}

#[test]
fn joins_are_announced() {
    let plan = plan_tick(
        &vec![4, 5, 6],
        &vec![Some(Message::PlayerJoined("Steve".to_string())), None, Some(Message::PlayerJoined("Alex".to_string()))],
        true,
    );
    assert_eq!(plan.joined, vec!["Steve".to_string(), "Alex".to_string()]);
    assert!(plan.keep_alive);
    assert!(plan.remove.is_empty());
}

#[test]
fn keep_alive_cadence_with_clock() {
    let ids = vec![0usize];
    let none = vec![None];
    let mut s = Scheduler::new(0);
    assert!(!s.tick_due(1000));
    assert!(s.tick_due(1001));
    let p = s.tick(1001, &ids, &none);
    assert!(!p.keep_alive);
    let p = s.tick(2002, &ids, &none);
    assert!(!p.keep_alive);
    let p = s.tick(3003, &ids, &none);
    assert!(p.keep_alive);
    assert_eq!(s.last_keep_alive, 3003);
    let p = s.tick(4004, &ids, &none);
    assert!(!p.keep_alive);
    let p = s.tick(5005, &ids, &none);
    assert!(!p.keep_alive);
    let p = s.tick(6006, &ids, &vec![Some(Message::ConnectionClosed)]);
    assert!(!p.keep_alive);
    assert_eq!(s.last_keep_alive, 3003);
    let p = s.tick(7007, &ids, &none);
    assert!(p.keep_alive);
    assert_eq!(s.last_keep_alive, 7007);
}

#[test]
fn join_announcement_text() {
    assert_eq!(mycelium::registry::join_announcement("Steve"), "{\"text\": \"+Steve joined.\"}");
}
