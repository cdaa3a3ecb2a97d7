use yorool_gui::gui::radio_panel::{RadioPanel, ADD_BUTTON, REMOVE_BUTTON};
use yorool_gui::gui::{ButtonEvent, CheckboxEvent, Msg};
use yorool_gui::pool::Pool;
use yorool_gui::router::Router;

#[test]
fn panel_starts_with_three_radios_off() {
    let panel = RadioPanel::new();
    assert_eq!(panel.radio_states(), vec![false, false, false]);
    assert_eq!(panel.group().radios().len(), 3);
}

#[test]
fn add_and_remove_buttons_change_the_radios() {
    let mut panel = RadioPanel::new();
    let mut router = Router::new(Pool::new());
    router.push(Msg::Button(ADD_BUTTON, ButtonEvent::Click));
    panel.tick(&mut router);
    assert_eq!(panel.update(&mut router), (1, 0));
    assert_eq!(panel.radio_states().len(), 4);
    assert_eq!(panel.group().radios()[3].slot(), 3);

    router.push(Msg::Button(REMOVE_BUTTON, ButtonEvent::Click));
    router.push(Msg::Button(REMOVE_BUTTON, ButtonEvent::Click));
    panel.tick(&mut router);
    assert_eq!(panel.update(&mut router), (0, 2));
    assert_eq!(panel.radio_states().len(), 2);
    assert_eq!(panel.group().radios().len(), 2);
}

#[test]
fn remove_on_empty_panel_does_nothing() {
    let mut panel = RadioPanel::new();
    assert!(panel.remove_radio());
    assert!(panel.remove_radio());
    assert!(panel.remove_radio());
    assert!(!panel.remove_radio());
    assert!(panel.radio_states().is_empty());
    assert!(panel.add_radio());
    assert_eq!(panel.radio_states(), vec![false]);
}

#[test]
fn panel_keeps_one_radio_on() {
    let mut panel = RadioPanel::new();
    let mut router = Router::new(Pool::new());
    router.push(Msg::Checkbox(2, CheckboxEvent::Click));
    panel.tick(&mut router);
    assert_eq!(panel.step(&mut router, 8), Ok(Some(2)));
    panel.tick(&mut router);
    assert_eq!(panel.radio_states(), vec![false, false, true]);

    router.push(Msg::Checkbox(0, CheckboxEvent::Click));
    panel.tick(&mut router);
    assert_eq!(panel.step(&mut router, 8), Ok(Some(0)));
    panel.tick(&mut router);
    assert_eq!(panel.radio_states(), vec![true, false, false]);
}

#[test]
fn step_without_press_leaves_everything() {
    let mut panel = RadioPanel::new();
    let mut router = Router::new(Pool::new());
    router.push(Msg::Checkbox(0, CheckboxEvent::SetState(true)));
    assert_eq!(panel.step(&mut router, 4), Ok(None));
    assert_eq!(router.ticks(), 0);
    assert_eq!(router.into_pool().drain(), vec![Msg::Checkbox(0, CheckboxEvent::SetState(true))]);
}

#[test]
fn remove_takes_the_groups_last_radio() {
    let mut panel = RadioPanel::new();
    assert!(panel.add_radio());
    assert!(panel.remove_radio());
    assert!(panel.remove_radio());
    let slots: Vec<u64> = panel.group().radios().iter().map(|c| c.slot()).collect();
    assert_eq!(slots, vec![0, 1]);
    assert_eq!(panel.radio_states().len(), 2);
}
