use crossbeam_utils::thread::scope;
use crossbeam_utils::thread::Scope;
use rendezvous::Rendezvous;
use std::sync::atomic::AtomicUsize;
use std::sync::atomic::Ordering;
use std::sync::mpsc::channel;
use std::time::Duration;

fn wait(h: Rendezvous) -> bool {
    let mut w = h.wait();
    while !w.is_released() {
        w.park();
    }
    w.finish()
}

fn fan_out<'env>(s: &Scope<'env>, depth: usize, h: Rendezvous, arrived: &'env AtomicUsize) {
    if depth == 0 {
        arrived.fetch_add(1, Ordering::SeqCst);
        wait(h);
        return;
    }
    for _ in 0..2 {
        let child = h.duplicate().unwrap();
        s.spawn(move |s| fan_out(s, depth - 1, child, arrived));
    }
    drop(h);
}

#[test]
fn three_wait_and_the_fourth_is_dropped() {
    let creator = Rendezvous::new();
    let a = creator.duplicate().unwrap();
    let b = creator.duplicate().unwrap();
    let c = creator.duplicate().unwrap();
    assert_eq!(creator.snapshot().live, 4);
    let (done, results) = channel();
    scope(|s| {
        for h in [a, b, c] {
            let done = done.clone();
            s.spawn(move |_| {
                done.send(wait(h)).unwrap();
            });
        }
        assert!(results.recv_timeout(Duration::from_millis(100)).is_err());
        drop(creator);
        let mut last = 0;
        for _ in 0..3 {
            if results.recv_timeout(Duration::from_secs(10)).unwrap() {
                last += 1;
            }
        }
        assert_eq!(last, 1);
    })
    .unwrap();
}

#[test]
fn two_wait_one_is_dropped_and_the_creator_waits_last() {
    let creator = Rendezvous::new();
    let a = creator.duplicate().unwrap();
    let b = creator.duplicate().unwrap();
    let c = creator.duplicate().unwrap();
    let (done, results) = channel();
    scope(|s| {
        for h in [a, b] {
            let done = done.clone();
            s.spawn(move |_| {
                wait(h);
                done.send(()).unwrap();
            });
        }
        assert!(results.recv_timeout(Duration::from_millis(100)).is_err());
        drop(c);
        assert!(results.recv_timeout(Duration::from_millis(100)).is_err());
        wait(creator);
        results.recv_timeout(Duration::from_secs(10)).unwrap();
        results.recv_timeout(Duration::from_secs(10)).unwrap();
    })
    .unwrap();
}

#[test]
fn an_abandoned_handle_wakes_parked_waiters() {
    let creator = Rendezvous::new();
    let (done, results) = channel();
    scope(|s| {
        for _ in 0..3 {
            let h = creator.duplicate().unwrap();
            let done = done.clone();
            s.spawn(move |_| {
                wait(h);
                done.send(()).unwrap();
            });
        }
        assert!(results.recv_timeout(Duration::from_millis(200)).is_err());
        assert!(!creator.abandon());
        for _ in 0..3 {
            results.recv_timeout(Duration::from_secs(10)).unwrap();
        }
    })
    .unwrap();
}

#[test]
fn tree_of_threads_meets_at_the_root() {
    let root = Rendezvous::new();
    let arrived = AtomicUsize::new(0);
    let mut w = scope(|s| {
        fan_out(s, 6, root.duplicate().unwrap(), &arrived);
        let mut w = root.wait();
        while !w.is_released() {
            w.park();
        }
        assert_eq!(arrived.load(Ordering::SeqCst), 64);
        w
    })
    .unwrap();
    w.park();
    assert_eq!(w.snapshot().live, 0);
    assert_eq!(w.snapshot().pending, 1);
    assert!(w.finish());
}

#[test]
fn many_groups_in_a_row_all_meet() {
    for _ in 0..200 {
        let root = Rendezvous::new();
        let arrived = AtomicUsize::new(0);
        scope(|s| {
            fan_out(s, 2, root.duplicate().unwrap(), &arrived);
            wait(root);
            assert_eq!(arrived.load(Ordering::SeqCst), 4);
        })
        .unwrap();
    }
}
