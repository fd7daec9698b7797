use std::cell::RefCell;
use std::rc::Rc;

use pifan::hub::{Deliver, Hub};

struct Observer {
    healthy: bool,
    seen: Rc<RefCell<Vec<String>>>,
}

impl Deliver for Observer {
    fn deliver(&self, line: &str) -> bool {
        if self.healthy {
            self.seen.borrow_mut().push(line.to_string());
        }
        self.healthy
    }
}

fn observer(healthy: bool) -> (Observer, Rc<RefCell<Vec<String>>>) {
    let seen = Rc::new(RefCell::new(Vec::new()));
    (Observer { healthy, seen: seen.clone() }, seen)
}

#[test]
fn broadcast_drops_failed_observer() {
    let mut hub = Hub::new();
    let (a, seen_a) = observer(true);
    let (b, seen_b) = observer(true);
    let (c, seen_c) = observer(false);
    hub.register(a);
    hub.register(b);
    hub.register(c);
    assert_eq!(hub.broadcast("0: >:1.000\n"), vec![true, true, false]);
    assert_eq!(hub.len(), 2);
    assert_eq!(hub.broadcast("0: >:2.000\n"), vec![true, true]);
    assert_eq!(*seen_a.borrow(), vec!["0: >:1.000\n", "0: >:2.000\n"]);
    assert_eq!(*seen_b.borrow(), vec!["0: >:1.000\n", "0: >:2.000\n"]);
    assert!(seen_c.borrow().is_empty());
}

#[test]
fn failed_observer_is_never_written_again() {
    let mut hub = Hub::new();
    let (bad, _) = observer(false);
    let (good, seen_good) = observer(true);
    hub.register(bad);
    hub.register(good);
    assert_eq!(hub.broadcast("a\n"), vec![false, true]);
    assert_eq!(hub.broadcast("b\n"), vec![true]);
    assert_eq!(hub.broadcast("c\n"), vec![true]);
    assert_eq!(*seen_good.borrow(), vec!["a\n", "b\n", "c\n"]);
}

#[test]
fn late_observer_sees_only_later_messages() {
    let mut hub = Hub::new();
    let (a, _) = observer(true);
    hub.register(a);
    hub.broadcast("first\n");
    let (b, seen_b) = observer(true);
    hub.register(b);
    hub.broadcast("second\n");
    assert_eq!(*seen_b.borrow(), vec!["second\n"]);
}

#[test]
fn prune_keeps_flagged_in_order() {
    let mut hub = Hub::new();
    for i in 0..5 {
        hub.register(i);
    }
    hub.prune(&vec![true, false, true, false, true]);
    assert_eq!(*hub.subscribers(), vec![0, 2, 4]);
}

#[test]
fn broadcast_to_nobody() {
    let mut hub: Hub<Observer> = Hub::new();
    assert_eq!(hub.broadcast("x\n"), Vec::<bool>::new());
    assert_eq!(hub.len(), 0);
}
