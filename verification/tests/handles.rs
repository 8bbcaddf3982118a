use rendezvous::Rendezvous;
use rendezvous::Snapshot;
use rendezvous::Waiter;

fn snap(live: u32, pending: u32) -> Snapshot {
    Snapshot { live, pending }
}

fn park_until_released(w: &mut Waiter) {
    while !w.is_released() {
        w.park();
    }
}

#[test]
fn new_group_has_one_participant() {
    let h = Rendezvous::new();
    assert_eq!(h.snapshot(), snap(1, 1));
    assert!(h.snapshot().is_consistent());
}

#[test]
fn default_is_a_new_group() {
    let h = Rendezvous::default();
    assert_eq!(h.snapshot(), snap(1, 1));
}

#[test]
fn duplicate_registers_in_both_counters() {
    let h = Rendezvous::new();
    let a = h.duplicate().unwrap();
    assert_eq!(h.snapshot(), snap(2, 2));
    let b = a.duplicate().unwrap();
    assert_eq!(h.snapshot(), snap(3, 3));
    assert_eq!(a.snapshot(), snap(3, 3));
    assert_eq!(b.snapshot(), snap(3, 3));
}

#[test]
fn duplicates_share_one_group() {
    let h = Rendezvous::new();
    let a = h.duplicate().unwrap();
    let other = Rendezvous::new();
    let _x = other.duplicate().unwrap();
    let _y = other.duplicate().unwrap();
    assert_eq!(a.snapshot(), snap(2, 2));
    assert_eq!(other.snapshot(), snap(3, 3));
}

#[test]
fn drop_leaves_both_counters() {
    let h = Rendezvous::new();
    let a = h.duplicate().unwrap();
    let b = h.duplicate().unwrap();
    assert_eq!(h.snapshot(), snap(3, 3));
    drop(a);
    assert_eq!(h.snapshot(), snap(2, 2));
    drop(b);
    assert_eq!(h.snapshot(), snap(1, 1));
}

#[test]
fn abandon_reports_the_last_departure() {
    let h = Rendezvous::new();
    let a = h.duplicate().unwrap();
    let b = h.duplicate().unwrap();
    assert!(!a.abandon());
    assert_eq!(h.snapshot(), snap(2, 2));
    assert!(!b.abandon());
    assert_eq!(h.snapshot(), snap(1, 1));
    assert!(h.abandon());
}

#[test]
fn wait_alone_is_released_at_once() {
    let h = Rendezvous::new();
    let w = h.wait();
    assert!(w.is_released());
    assert_eq!(w.observed(), 0);
    assert_eq!(w.snapshot(), snap(0, 1));
    assert!(w.finish());
}

#[test]
fn wait_with_others_live_is_not_released() {
    let h = Rendezvous::new();
    let a = h.duplicate().unwrap();
    let b = h.duplicate().unwrap();
    let w = a.wait();
    assert!(!w.is_released());
    assert_eq!(w.observed(), 2);
    assert_eq!(w.snapshot(), snap(2, 3));
    drop(b);
    drop(h);
    drop(w);
}

#[test]
fn park_returns_when_live_has_moved() {
    let h = Rendezvous::new();
    let a = h.duplicate().unwrap();
    let b = h.duplicate().unwrap();
    let mut w = a.wait();
    assert_eq!(w.observed(), 2);
    drop(b);
    w.park();
    assert_eq!(w.observed(), 1);
    assert!(!w.is_released());
    drop(h);
    w.park();
    assert_eq!(w.observed(), 0);
    assert!(w.is_released());
    assert!(w.finish());
}

#[test]
fn park_on_a_released_waiter_returns_at_once() {
    let h = Rendezvous::new();
    let keep = h.duplicate().unwrap().wait();
    let mut w = h.wait();
    assert!(w.is_released());
    w.park();
    w.park();
    assert!(w.is_released());
    assert_eq!(w.observed(), 0);
    assert!(!w.finish());
    drop(keep);
}

#[test]
fn dropping_a_waiter_settles_it() {
    let h = Rendezvous::new();
    let a = h.duplicate().unwrap();
    let w = a.wait();
    assert_eq!(h.snapshot(), snap(1, 2));
    drop(w);
    assert_eq!(h.snapshot(), snap(1, 1));
}

#[test]
fn a_thousand_duplicates_come_and_go() {
    let h = Rendezvous::new();
    let mut all = Vec::new();
    for _ in 0..1000 {
        all.push(h.duplicate().unwrap());
    }
    assert_eq!(h.snapshot(), snap(1001, 1001));
    drop(all);
    assert_eq!(h.snapshot(), snap(1, 1));
}

#[test]
fn pending_covers_live_at_every_step() {
    let h = Rendezvous::new();
    let a = h.duplicate().unwrap();
    let b = h.duplicate().unwrap();
    let c = h.duplicate().unwrap();
    assert!(h.snapshot().is_consistent());
    let mut wa = a.wait();
    assert_eq!(h.snapshot(), snap(3, 4));
    assert!(h.snapshot().is_consistent());
    let mut wb = b.wait();
    assert_eq!(h.snapshot(), snap(2, 4));
    drop(c);
    assert_eq!(h.snapshot(), snap(1, 3));
    let wh = h.wait();
    assert_eq!(wh.snapshot(), snap(0, 3));
    assert!(wh.snapshot().is_consistent());
    park_until_released(&mut wa);
    park_until_released(&mut wb);
    assert!(!wa.finish());
    assert_eq!(wh.snapshot(), snap(0, 2));
    assert!(!wh.finish());
    assert_eq!(wb.snapshot(), snap(0, 1));
    assert!(wb.finish());
}

#[test]
fn counters_only_fall_once_everyone_is_leaving() {
    let h = Rendezvous::new();
    let a = h.duplicate().unwrap();
    let b = h.duplicate().unwrap();
    let mut seen = vec![h.snapshot()];
    let wa = a.wait();
    seen.push(wa.snapshot());
    let wb = b.wait();
    seen.push(wa.snapshot());
    let wh = h.wait();
    seen.push(wa.snapshot());
    drop(wb);
    seen.push(wa.snapshot());
    drop(wh);
    seen.push(wa.snapshot());
    assert_eq!(
        seen,
        vec![snap(3, 3), snap(2, 3), snap(1, 3), snap(0, 3), snap(0, 2), snap(0, 1)]
    );
    for pair in seen.windows(2) {
        assert!(pair[1].live <= pair[0].live);
        assert!(pair[1].pending <= pair[0].pending);
    }
}

#[test]
fn exactly_one_departure_releases_the_group() {
    let h = Rendezvous::new();
    let a = h.duplicate().unwrap();
    let b = h.duplicate().unwrap();
    let c = h.duplicate().unwrap();
    let mut wa = a.wait();
    let mut wb = b.wait();
    let mut released = 0;
    if c.abandon() {
        released += 1;
    }
    if h.abandon() {
        released += 1;
    }
    park_until_released(&mut wa);
    park_until_released(&mut wb);
    if wb.finish() {
        released += 1;
    }
    if wa.finish() {
        released += 1;
    }
    assert_eq!(released, 1);
}

#[test]
fn an_abandoned_handle_releases_the_waiters() {
    let h = Rendezvous::new();
    let a = h.duplicate().unwrap();
    let mut w = h.wait();
    assert!(!w.is_released());
    assert_eq!(w.observed(), 1);
    assert!(!a.abandon());
    park_until_released(&mut w);
    assert!(w.is_released());
    assert!(w.finish());
}

fn is_send_and_sync<T: Send + Sync>() {}

#[test]
fn handles_cross_threads() {
    is_send_and_sync::<Rendezvous>();
    is_send_and_sync::<Waiter>();
}

#[test]
fn a_thousand_waiters_are_released_by_the_last() {
    let h = Rendezvous::new();
    let mut waiters = Vec::new();
    for _ in 0..1000 {
        waiters.push(h.duplicate().unwrap().wait());
    }
    assert_eq!(h.snapshot(), snap(1, 1001));
    for w in waiters.iter() {
        assert!(!w.is_released());
        assert_eq!(w.observed(), 1);
    }
    assert!(!h.abandon());
    let mut last = 0;
    for mut w in waiters {
        park_until_released(&mut w);
        if w.finish() {
            last += 1;
        }
    }
    assert_eq!(last, 1);
}

#[test]
fn dropping_the_last_live_handle_releases_three_waiters() {
    let a = Rendezvous::new();
    let b = a.duplicate().unwrap();
    let c = a.duplicate().unwrap();
    let d = a.duplicate().unwrap();
    let mut wa = a.wait();
    let mut wb = b.wait();
    let mut wc = c.wait();
    assert_eq!(d.snapshot(), snap(1, 4));
    assert!(!wa.is_released() && !wb.is_released() && !wc.is_released());
    drop(d);
    assert_eq!(wa.snapshot(), snap(0, 3));
    wa.park();
    wb.park();
    wc.park();
    assert!(wa.is_released() && wb.is_released() && wc.is_released());
    assert!(!wb.finish());
    assert_eq!(wa.snapshot(), snap(0, 2));
    assert!(!wc.finish());
    assert_eq!(wa.snapshot(), snap(0, 1));
    assert!(wa.finish());
}

#[test]
fn dropping_a_handle_lowers_each_counter_by_one() {
    let a = Rendezvous::new();
    let b = a.duplicate().unwrap();
    let c = a.duplicate().unwrap();
    let w = c.wait();
    assert_eq!(a.snapshot(), snap(2, 3));
    drop(b);
    assert_eq!(a.snapshot(), snap(1, 2));
    assert!(a.snapshot().is_consistent());
    assert!(!w.is_released());
    drop(a);
    assert_eq!(w.snapshot(), snap(0, 1));
    assert!(w.snapshot().is_consistent());
}

#[test]
fn dropping_a_handle_among_live_peers_wakes_nobody() {
    let a = Rendezvous::new();
    let b = a.duplicate().unwrap();
    let c = a.duplicate().unwrap();
    let mut w = c.wait();
    assert_eq!(w.observed(), 2);
    drop(b);
    w.park();
    assert_eq!(w.observed(), 1);
    assert!(!w.is_released());
    assert_eq!(a.snapshot(), snap(1, 2));
    drop(a);
    w.park();
    assert!(w.is_released());
    assert!(w.finish());
}
