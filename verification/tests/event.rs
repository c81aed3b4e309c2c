use rust_try_lib::application::event::{EventRegistry, Listener};
use rust_try_lib::system::event::EventRegistry as SystemEventRegistry;

struct TestEvent {
    a: isize,
}

struct HiEvent;

impl TestEvent {
    fn a(&mut self) {
        self.a += 1;
    }
}

const TEST_EVENT: u64 = 1;
const HI_EVENT: u64 = 2;

/// A listener made from a plain function.
struct FnListener<E>(fn(&mut E));

impl<E> Listener<E> for FnListener<E> {
    fn notify(&mut self, event: &mut E) {
        (self.0)(event)
    }
}

#[test]
fn event_it_works() {
    // The same registry is reached through `application::event` and
    // `system::event`; each path is exercised.
    let mut event_reg = SystemEventRegistry::new();
    event_reg.register(TEST_EVENT, FnListener(TestEvent::a));
    event_reg.fire(TEST_EVENT, TestEvent { a: 1 });

    let mut event_reg = EventRegistry::new();
    event_reg.register(TEST_EVENT, FnListener(TestEvent::a));
    event_reg.fire(TEST_EVENT, TestEvent { a: 1 });
}

#[test]
fn event_is_others_works() {
    let mut event_reg: EventRegistry<FnListener<TestEvent>> = EventRegistry::new();
    assert!(event_reg
        .events
        .insert(TEST_EVENT, Vec::<FnListener<TestEvent>>::new())
        .is_none());
    assert!(event_reg
        .events
        .insert(TEST_EVENT, Vec::<FnListener<TestEvent>>::new())
        .is_some());
    assert!(event_reg
        .events
        .insert(HI_EVENT, Vec::<FnListener<TestEvent>>::new())
        .is_none());

    let mut event_reg: SystemEventRegistry<FnListener<TestEvent>> = SystemEventRegistry::new();
    assert!(event_reg
        .events
        .insert(TEST_EVENT, Vec::<FnListener<TestEvent>>::new())
        .is_none());
    assert!(event_reg
        .events
        .insert(TEST_EVENT, Vec::<FnListener<TestEvent>>::new())
        .is_some());
    assert!(event_reg
        .events
        .insert(HI_EVENT, Vec::<FnListener<TestEvent>>::new())
        .is_none());
    let _ = HiEvent;
}

/// A listener that records, in the event, the order in which it was called.
struct Recorder {
    id: u32,
    calls: u32,
}

impl Listener<Vec<u32>> for Recorder {
    fn notify(&mut self, event: &mut Vec<u32>) {
        event.push(self.id);
        self.calls += 1;
    }
}

#[test]
fn register_keeps_registration_order() {
    let mut reg = EventRegistry::new();
    reg.register(7, Recorder { id: 1, calls: 0 });
    reg.register(7, Recorder { id: 2, calls: 0 });
    reg.register(8, Recorder { id: 3, calls: 0 });
    let ids: Vec<u32> = reg.events[&7].iter().map(|r| r.id).collect();
    assert_eq!(ids, vec![1, 2]);
    assert_eq!(reg.events[&8].len(), 1);
    assert_eq!(reg.events.len(), 2);
}

#[test]
fn fire_reaches_only_the_listeners_of_its_kind() {
    let mut reg = EventRegistry::new();
    reg.register(7, Recorder { id: 1, calls: 0 });
    reg.register(7, Recorder { id: 2, calls: 0 });
    reg.register(8, Recorder { id: 3, calls: 0 });
    reg.fire(7, Vec::new());
    reg.fire(9, Vec::new());
    let calls: Vec<u32> = reg.events[&7].iter().map(|r| r.calls).collect();
    assert_eq!(calls, vec![1, 1]);
    assert_eq!(reg.events[&8][0].calls, 0);
    assert_eq!(reg.events.len(), 2);
    assert!(!reg.events.contains_key(&9));
}

#[test]
fn clear_all_removes_every_entry() {
    let mut reg = EventRegistry::new();
    reg.register(1, Recorder { id: 1, calls: 0 });
    reg.register(2, Recorder { id: 2, calls: 0 });
    reg.clear_all();
    assert!(reg.events.is_empty());
}

#[test]
fn clear_list_removes_the_listed_kinds() {
    let mut reg = EventRegistry::new();
    reg.register(1, Recorder { id: 1, calls: 0 });
    reg.register(2, Recorder { id: 2, calls: 0 });
    reg.register(3, Recorder { id: 3, calls: 0 });
    reg.clear_list(&[1, 3, 4]);
    assert_eq!(reg.events.len(), 1);
    assert_eq!(reg.events[&2][0].id, 2);
}

#[test]
fn clear_exclude_keeps_only_the_listed_kinds() {
    let mut reg = EventRegistry::new();
    reg.register(1, Recorder { id: 1, calls: 0 });
    reg.register(1, Recorder { id: 4, calls: 0 });
    reg.register(2, Recorder { id: 2, calls: 0 });
    reg.register(3, Recorder { id: 3, calls: 0 });
    reg.clear_exclude(&[1, 1, 5]);
    assert_eq!(reg.events.len(), 1);
    let ids: Vec<u32> = reg.events[&1].iter().map(|r| r.id).collect();
    assert_eq!(ids, vec![1, 4]);
}
