use counter_core::app::{App, NodeKind};
use counter_core::counter::{Counter, CounterModifiers};
use counter_core::lens::Lens;
use counter_core::message::{AppEvent, CounterEvent, Message};
use counter_core::model::AppData;

#[test]
fn binding_correctness_three_up_one_down() {
    let mut app = App::new();
    let model = app.insert(0, NodeKind::Model(AppData { count: 0 }));
    let h = Counter::new(&mut app, model, Lens::Count)
        .on_increment(&mut app, Message::App(AppEvent::Increment))
        .on_decrement(&mut app, Message::App(AppEvent::Decrement));
    for _ in 0..3 {
        app.press(h.inc_button);
        assert!(app.process_one());
        assert!(app.process_one());
    }
    app.press(h.dec_button);
    app.process_one();
    app.process_one();
    assert_eq!(app.count_at(model), Some(2));
    assert_eq!(app.bindings[0].cached, 2);
    assert_eq!(app.bindings[0].view, h.label);
}

#[test]
fn decrement_from_zero_goes_negative() {
    let mut app = App::new();
    let model = app.insert(0, NodeKind::Model(AppData { count: 0 }));
    let h = Counter::new(&mut app, model, Lens::Count)
        .on_decrement(&mut app, Message::App(AppEvent::Decrement));
    app.press(h.dec_button);
    app.process_one();
    app.process_one();
    assert_eq!(app.count_at(model), Some(-1));
    assert_eq!(app.bindings[0].cached, -1);
}

#[test]
fn no_callbacks_no_model_mutation() {
    let mut app = App::new();
    let model = app.insert(0, NodeKind::Model(AppData { count: 0 }));
    let h = Counter::new(&mut app, model, Lens::Count);
    app.press(h.inc_button);
    while app.process_one() {}
    app.press(h.dec_button);
    while app.process_one() {}
    assert_eq!(app.count_at(model), Some(0));
    assert_eq!(app.bindings[0].renders, 0);
}

#[test]
fn rerender_per_mutation_cycle_not_net_change() {
    let mut app = App::new();
    let model = app.insert(0, NodeKind::Model(AppData { count: 0 }));
    let h = Counter::new(&mut app, model, Lens::Count)
        .on_increment(&mut app, Message::App(AppEvent::Increment))
        .on_decrement(&mut app, Message::App(AppEvent::Decrement));
    app.press(h.inc_button);
    app.process_one();
    app.process_one();
    assert_eq!(app.bindings[0].renders, 1);
    assert_eq!(app.bindings[0].cached, 1);
    app.press(h.dec_button);
    app.process_one();
    app.process_one();
    assert_eq!(app.bindings[0].renders, 2);
    assert_eq!(app.bindings[0].cached, 0);
}

#[test]
fn ignored_messages_trigger_no_rerender() {
    let mut app = App::new();
    let model = app.insert(0, NodeKind::Model(AppData { count: 0 }));
    let _h = Counter::new(&mut app, model, Lens::Count)
        .on_increment(&mut app, Message::App(AppEvent::Increment));
    let stray = app.insert(0, NodeKind::Plain);
    app.emit(stray, Message::Counter(CounterEvent::Increment));
    app.process_one();
    app.emit(stray, Message::Counter(CounterEvent::Increment));
    app.process_one();
    assert_eq!(app.bindings[0].renders, 0);
    assert_eq!(app.count_at(model), Some(0));
}

#[test]
fn second_callback_replaces_first() {
    let mut app = App::new();
    let model = app.insert(0, NodeKind::Model(AppData { count: 0 }));
    let h = Counter::new(&mut app, model, Lens::Count)
        .on_increment(&mut app, Message::App(AppEvent::Increment))
        .on_increment(&mut app, Message::App(AppEvent::Decrement));
    app.press(h.inc_button);
    app.process_one();
    app.process_one();
    assert_eq!(app.count_at(model), Some(-1));
}

#[test]
fn lens_reads_and_compares_paths() {
    let lens = Lens::Count;
    assert_eq!(lens.get(&AppData { count: 9 }), 9);
    assert!(lens.path_eq(&Lens::Count));
}

#[test]
fn binding_goes_silent_when_model_removed() {
    let mut app = App::new();
    let model = app.insert(0, NodeKind::Model(AppData { count: 0 }));
    let h = Counter::new(&mut app, model, Lens::Count)
        .on_increment(&mut app, Message::App(AppEvent::Increment));
    app.press(h.inc_button);
    app.process_one();
    app.process_one();
    assert_eq!(app.bindings[0].renders, 1);
    app.remove(model);
    app.press(h.inc_button);
    while app.process_one() {}
    assert_eq!(app.count_at(model), Some(1));
    assert_eq!(app.bindings[0].renders, 1);
    assert_eq!(app.bindings[0].cached, 1);
}

#[test]
fn counter_without_model_stays_unbound() {
    let mut app = App::new();
    let h = Counter::new(&mut app, 0, Lens::Count);
    assert!(app.bindings.is_empty());
    app.press(h.inc_button);
    while app.process_one() {}
    assert!(app.queue.is_empty());
}
