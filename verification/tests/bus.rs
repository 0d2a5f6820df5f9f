use counter_core::app::{App, NodeKind};
use counter_core::counter::Counter;
use counter_core::event::{Event, EventContext};
use counter_core::message::{AppEvent, CounterEvent, Message};
use counter_core::model::AppData;

#[test]
fn ignored_message_leaves_model_unchanged() {
    let mut app = App::new();
    let model = app.insert(0, NodeKind::Model(AppData { count: 7 }));
    app.emit(model, Message::Counter(CounterEvent::Increment));
    assert!(app.process_one());
    assert_eq!(app.count_at(model), Some(7));
    assert_eq!(app.log, Vec::<usize>::new());
}

#[test]
fn handlers_run_child_before_parent() {
    let mut app = App::new();
    let a = app.insert(
        0,
        NodeKind::Counter(Counter { on_increment: None, on_decrement: None }),
    );
    let b = app.insert(
        a,
        NodeKind::Counter(Counter { on_increment: None, on_decrement: None }),
    );
    let leaf = app.insert(b, NodeKind::Plain);
    app.emit(leaf, Message::Counter(CounterEvent::Increment));
    app.process_one();
    assert_eq!(app.log, vec![b, a]);
}

#[test]
fn absorption_halts_propagation() {
    let mut app = App::new();
    let grandparent = app.insert(0, NodeKind::Model(AppData { count: 0 }));
    let parent = app.insert(grandparent, NodeKind::Model(AppData { count: 0 }));
    let child = app.insert(parent, NodeKind::Plain);
    app.emit(child, Message::App(AppEvent::Increment));
    app.process_one();
    assert_eq!(app.count_at(parent), Some(1));
    assert_eq!(app.count_at(grandparent), Some(0));
    assert_eq!(app.log, vec![parent]);
}

#[test]
fn event_envelope_tracks_absorption() {
    let mut e = Event::new(3, Message::App(AppEvent::Increment));
    assert_eq!(e.origin, 3);
    assert!(!e.is_absorbed());
    e.absorb();
    assert!(e.is_absorbed());
    assert_eq!(e.message, Message::App(AppEvent::Increment));
}

#[test]
fn emit_records_event_at_current_position() {
    let mut cx = EventContext::new(5);
    cx.emit(Message::App(AppEvent::Decrement));
    assert_eq!(cx.current, 5);
    assert_eq!(cx.emitted.len(), 1);
    assert_eq!(cx.emitted[0].origin, 5);
    assert_eq!(cx.emitted[0].message, Message::App(AppEvent::Decrement));
    assert!(!cx.emitted[0].absorbed);
}

#[test]
fn press_without_slot_is_noop() {
    let mut app = App::new();
    let b = app.insert(0, NodeKind::Button { on_press: None });
    app.press(b);
    assert!(app.queue.is_empty());
    assert!(!app.process_one());
}

#[test]
fn removed_model_stops_handling() {
    let mut app = App::new();
    let model = app.insert(0, NodeKind::Model(AppData { count: 4 }));
    app.remove(model);
    app.emit(model, Message::App(AppEvent::Increment));
    app.process_one();
    assert_eq!(app.count_at(model), Some(4));
    assert_eq!(app.log, Vec::<usize>::new());
}

#[test]
fn counter_wraps_at_range_ends() {
    let mut app = App::new();
    let model = app.insert(0, NodeKind::Model(AppData { count: i32::MAX }));
    app.emit(model, Message::App(AppEvent::Increment));
    app.process_one();
    assert_eq!(app.count_at(model), Some(i32::MIN));
    app.emit(model, Message::App(AppEvent::Decrement));
    app.process_one();
    assert_eq!(app.count_at(model), Some(i32::MAX));
}

#[test]
fn model_event_applies_each_variant() {
    let mut data = AppData { count: 10 };
    let mut cx = EventContext::new(0);
    let mut up = Event::new(0, Message::App(AppEvent::Increment));
    data.event(&mut cx, &mut up);
    assert_eq!(data.count, 11);
    assert!(up.is_absorbed());
    let mut down = Event::new(0, Message::App(AppEvent::Decrement));
    data.event(&mut cx, &mut down);
    assert_eq!(data.count, 10);
    assert!(down.is_absorbed());
    assert!(cx.emitted.is_empty());
}
