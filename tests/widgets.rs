use yorool_gui::gui::button::{collect_fired_actions, Backend, IButton, ILabel};
use yorool_gui::gui::checkbox::{CheckboxBuilder, ICheckbox};
use yorool_gui::gui::grid::Grid;
use yorool_gui::gui::handlers::{Handlers, IHandlers};
use yorool_gui::gui::panel::Panel;
use yorool_gui::gui::window_manager::WindowManager;
use yorool_gui::gui::{button, panel, ribbon, ButtonEvent, CheckboxEvent, Control, Msg};
use yorool_gui::pool::Pool;
use yorool_gui::request::{MessageSender, QR};
use yorool_gui::router::Widget;

#[test]
fn checkbox_handles_its_events_in_order() {
    let mut cb = CheckboxBuilder::new(1).build();
    let mut input = Pool::new();
    input.push(Msg::Checkbox(1, CheckboxEvent::SetState(true)));
    input.push(Msg::Checkbox(2, CheckboxEvent::SetState(true)));
    input.push(Msg::Checkbox(1, CheckboxEvent::State(QR::Query(()))));
    input.push(Msg::Checkbox(1, CheckboxEvent::Click));
    input.push(Msg::Checkbox(1, CheckboxEvent::State(QR::Query(()))));
    let mut output = Pool::new();
    cb.handle(&mut input, &mut output);
    assert!(!cb.get_state());
    assert_eq!(input.drain(), vec![Msg::Checkbox(2, CheckboxEvent::SetState(true))]);
    assert_eq!(
        output.drain(),
        vec![
            Msg::Checkbox(1, CheckboxEvent::State(QR::Response(true))),
            Msg::Checkbox(1, CheckboxEvent::Pressed),
            Msg::Checkbox(1, CheckboxEvent::State(QR::Response(false))),
        ]
    );
}

#[test]
fn checkbox_fires_its_handlers_on_click() {
    let mut cb = CheckboxBuilder::new(1).build();
    cb.on_changed(10, Msg::Button(4, ButtonEvent::Click));
    cb.on_changed(11, Msg::Checkbox(5, CheckboxEvent::SetState(true)));
    cb.on_changed(10, Msg::Button(6, ButtonEvent::Click));
    cb.remove_handler(11);
    let mut input = Pool::from_vec(vec![Msg::Checkbox(1, CheckboxEvent::Click)]);
    let mut output = Pool::new();
    cb.handle(&mut input, &mut output);
    assert!(cb.get_state());
    assert_eq!(
        output.drain(),
        vec![Msg::Checkbox(1, CheckboxEvent::Pressed), Msg::Button(6, ButtonEvent::Click)]
    );
    cb.set_state(false);
    assert!(!cb.get_state());
}

#[test]
fn button_click_sends_pressed_and_handler_messages() {
    let mut b = button(3)
        .set_label("Add".to_string())
        .on_click(1, Msg::Checkbox(0, CheckboxEvent::SetState(true)))
        .on_click(2, Msg::Checkbox(1, CheckboxEvent::SetState(false)))
        .build();
    assert_eq!(b.backend().get_label(), "Add".to_string());
    assert_eq!(b.ctrl_id().slot(), 3);
    let mut input = Pool::new();
    input.push(Msg::Button(3, ButtonEvent::Touched(QR::Query(()))));
    input.push(Msg::Button(3, ButtonEvent::Click));
    let mut output = Pool::new();
    b.set_touched(true);
    b.handle(&mut input, &mut output);
    assert!(input.is_empty());
    assert_eq!(
        output.drain(),
        vec![
            Msg::Button(3, ButtonEvent::Touched(QR::Response(true))),
            Msg::Button(3, ButtonEvent::Pressed),
            Msg::Checkbox(0, CheckboxEvent::SetState(true)),
            Msg::Checkbox(1, CheckboxEvent::SetState(false)),
        ]
    );
}

#[test]
fn backend_click_and_collect() {
    let mut be = Backend::new();
    be.set_label("Go".to_string());
    assert_eq!(be.get_label(), "Go".to_string());
    be.set_touched(true);
    assert!(be.is_touched());
    be.on_click(5, Msg::Button(1, ButtonEvent::Pressed));
    be.click();
    be.click();
    assert_eq!(
        collect_fired_actions(&mut be),
        vec![Msg::Button(1, ButtonEvent::Pressed), Msg::Button(1, ButtonEvent::Pressed)]
    );
    assert!(collect_fired_actions(&mut be).is_empty());
    be.remove_handler(5);
    be.click();
    assert!(be.collect_fired_handlers().is_empty());
}

#[test]
fn handlers_registry() {
    let mut h: Handlers<u64> = Handlers::new();
    h.add_handler(1, 100);
    h.add_handler(2, 200);
    h.add_handler(1, 101);
    assert_eq!(h.get(1), Some(101));
    assert_eq!(h.get(3), None);
    assert_eq!(h.messages(), vec![200, 101]);
    h.fire_handler(2);
    h.fire_handler(3);
    h.fire_handlers(&vec![1, 2, 1]);
    assert_eq!(h.get_message(), Some(200));
    assert_eq!(h.collect_fired_handlers(), vec![101, 200, 101]);
    assert_eq!(h.get_message(), None);
    h.remove_handler(1);
    assert_eq!(h.get(1), None);
    h.unregister(2);
    assert!(h.messages().is_empty());
}

#[test]
fn ribbon_runs_children_in_order() {
    let mut r = yorool_gui::gui::column()
        .add_widget(CheckboxBuilder::new(1).set_state(true).build())
        .add_widget(CheckboxBuilder::new(2).build())
        .build();
    assert!(!r.is_horizontal());
    r.set_horizontal(true);
    assert!(r.is_horizontal());
    let mut input = Pool::new();
    input.push(Msg::Checkbox(2, CheckboxEvent::State(QR::Query(()))));
    input.push(Msg::Checkbox(1, CheckboxEvent::State(QR::Query(()))));
    input.push(Msg::Checkbox(7, CheckboxEvent::Click));
    let mut output = Pool::new();
    r.handle(&mut input, &mut output);
    assert_eq!(input.drain(), vec![Msg::Checkbox(7, CheckboxEvent::Click)]);
    assert_eq!(
        output.drain(),
        vec![
            Msg::Checkbox(1, CheckboxEvent::State(QR::Response(true))),
            Msg::Checkbox(2, CheckboxEvent::State(QR::Response(false))),
        ]
    );
    let removed = r.remove_widget(0);
    assert!(removed.get_state());
    assert_eq!(r.len(), 1);
}

#[test]
fn containers_of_mixed_controls() {
    let inner = ribbon()
        .add_widget(Control::Button(button(1).build()))
        .add_widget(Control::Checkbox(CheckboxBuilder::new(1).build()))
        .build();
    let mut p = panel().add_widget(inner).build();
    let mut input = Pool::new();
    input.push(Msg::Checkbox(1, CheckboxEvent::Click));
    input.push(Msg::Button(1, ButtonEvent::Click));
    let mut output = Pool::new();
    p.handle(&mut input, &mut output);
    assert!(input.is_empty());
    assert_eq!(
        output.drain(),
        vec![Msg::Button(1, ButtonEvent::Pressed), Msg::Checkbox(1, CheckboxEvent::Pressed)]
    );
}

#[test]
fn grid_panel_and_window_manager_compose() {
    let mut g = Grid::new();
    g.add_widget(CheckboxBuilder::new(1).build());
    let mut pn = Panel::new();
    pn.add_widget(CheckboxBuilder::new(2).build());
    assert_eq!(pn.len(), 1);
    let mut wm: WindowManager<Grid<_>> = WindowManager::new();
    wm.add_window(g);
    let mut input = Pool::new();
    input.push(Msg::Checkbox(1, CheckboxEvent::SetState(true)));
    input.push(Msg::Checkbox(1, CheckboxEvent::State(QR::Query(()))));
    let mut output = Pool::new();
    wm.handle(&mut input, &mut output);
    assert_eq!(wm.len(), 1);
    assert_eq!(
        output.drain(),
        vec![Msg::Checkbox(1, CheckboxEvent::State(QR::Response(true)))]
    );
}

#[test]
fn new_button_state_is_blank() {
    let be = Backend::new();
    assert_eq!(be.get_label(), "".to_string());
    assert!(!be.is_touched());
    let b = button(2).set_label("Add".to_string()).build();
    assert_eq!(b.backend().get_label(), "Add".to_string());
    assert!(!b.backend().is_touched());
}

#[test]
fn click_queues_handlers_in_registration_order() {
    let mut be = Backend::new();
    be.on_click(1, Msg::Button(1, ButtonEvent::Pressed));
    be.on_click(2, Msg::Checkbox(2, CheckboxEvent::Click));
    be.on_click(1, Msg::Button(3, ButtonEvent::Pressed));
    be.click();
    assert_eq!(
        be.collect_fired_handlers(),
        vec![Msg::Button(3, ButtonEvent::Pressed), Msg::Checkbox(2, CheckboxEvent::Click)]
    );
}

#[test]
fn reregistered_click_handler_fires_once() {
    let mut b = button(4)
        .on_click(1, Msg::Checkbox(0, CheckboxEvent::SetState(true)))
        .on_click(1, Msg::Checkbox(0, CheckboxEvent::SetState(false)))
        .build();
    let mut input = Pool::from_vec(vec![Msg::Button(4, ButtonEvent::Click)]);
    let mut output = Pool::new();
    b.handle(&mut input, &mut output);
    assert_eq!(
        output.drain(),
        vec![Msg::Button(4, ButtonEvent::Pressed), Msg::Checkbox(0, CheckboxEvent::SetState(false))]
    );
}
