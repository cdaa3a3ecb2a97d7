use yorool_gui::gui::checkbox::{Checkbox, CheckboxBuilder};
use yorool_gui::gui::radio_group::RadioGroupBuilder;
use yorool_gui::gui::{row, CheckboxEvent, Msg};
use yorool_gui::pool::Pool;
use yorool_gui::request::{CtrlId, QR};
use yorool_gui::router::{Answer, Router, Stalled};

fn answer_of(a: Answer<bool>) -> Option<bool> {
    match a {
        Answer::Ready(b) => Some(b),
        Answer::Pending => None,
    }
}

#[test]
fn query_resolves_one_tick_later() {
    let mut cb: Checkbox = CheckboxBuilder::new(1).set_state(true).build();
    let c = cb.ctrl_id();
    let mut router = Router::new(Pool::new());
    let first = router.query::<CheckboxEvent, (), bool>(&c, ());
    assert_eq!(answer_of(first), None);
    assert_eq!(router.ticks(), 0);
    assert_eq!(router.response::<CheckboxEvent, (), bool>(&c), None);
    router.tick(&mut cb);
    assert_eq!(router.ticks(), 1);
    assert_eq!(router.response::<CheckboxEvent, (), bool>(&c), Some(true));
    assert!(!router.conflicts());
}

#[test]
fn query_answers_at_once_from_the_pool() {
    let c: CtrlId<Msg, CheckboxEvent> = CtrlId::new(2);
    let mut p = Pool::new();
    p.push(Msg::Checkbox(2, CheckboxEvent::State(QR::Response(false))));
    let mut router = Router::new(p);
    let a = router.query::<CheckboxEvent, (), bool>(&c, ());
    assert_eq!(answer_of(a), Some(false));
    assert!(router.into_pool().is_empty());
}

#[test]
fn last_response_wins_and_is_flagged() {
    let c: CtrlId<Msg, CheckboxEvent> = CtrlId::new(2);
    let mut p = Pool::new();
    p.push(Msg::Checkbox(2, CheckboxEvent::State(QR::Response(false))));
    p.push(Msg::Checkbox(3, CheckboxEvent::Click));
    p.push(Msg::Checkbox(2, CheckboxEvent::State(QR::Response(true))));
    let mut router = Router::new(p);
    let a = router.query::<CheckboxEvent, (), bool>(&c, ());
    assert_eq!(answer_of(a), Some(true));
    assert!(router.conflicts());
    assert_eq!(router.into_pool().drain(), vec![Msg::Checkbox(3, CheckboxEvent::Click)]);
}

#[test]
fn query_pushes_the_request() {
    let c: CtrlId<Msg, CheckboxEvent> = CtrlId::new(8);
    let mut router = Router::new(Pool::new());
    let a = router.query::<CheckboxEvent, (), bool>(&c, ());
    assert_eq!(answer_of(a), None);
    assert_eq!(
        router.into_pool().drain(),
        vec![Msg::Checkbox(8, CheckboxEvent::State(QR::Query(())))]
    );
}

#[test]
fn ask_answers_after_one_tick() {
    let mut cb: Checkbox = CheckboxBuilder::new(1).set_state(true).build();
    let c = cb.ctrl_id();
    let mut router = Router::new(Pool::new());
    assert_eq!(router.ask::<_, CheckboxEvent, (), bool>(&mut cb, &c, (), 5), Ok(true));
    assert_eq!(router.ticks(), 1);
}

#[test]
fn ask_without_a_control_stalls_within_budget() {
    let mut cb: Checkbox = CheckboxBuilder::new(1).build();
    let missing: CtrlId<Msg, CheckboxEvent> = CtrlId::new(9);
    let mut router = Router::new(Pool::new());
    assert_eq!(
        router.ask::<_, CheckboxEvent, (), bool>(&mut cb, &missing, (), 3),
        Err(Stalled { ticks: 3 })
    );
    assert_eq!(router.ticks(), 3);
}

#[test]
fn run_stalls_when_a_radio_has_no_control() {
    let mut tree = row().add_widget(CheckboxBuilder::new(0).build()).build();
    let mut group = RadioGroupBuilder::new().add_widget(CtrlId::new(0)).add_widget(CtrlId::new(9)).build();
    let mut router = Router::new(Pool::new());
    router.push(Msg::Checkbox(9, CheckboxEvent::Pressed));
    assert_eq!(router.run(&mut tree, &mut group, 4), Err(Stalled { ticks: 4 }));
    assert_eq!(router.ticks(), 4);
}

#[test]
fn radio_group_end_to_end() {
    let a = CheckboxBuilder::new(0).build();
    let b = CheckboxBuilder::new(1).build();
    let c = CheckboxBuilder::new(2).build();
    let (ida, idb, idc) = (a.ctrl_id(), b.ctrl_id(), c.ctrl_id());
    let mut group = RadioGroupBuilder::new()
        .add_widget(ida.copy())
        .add_widget(idb.copy())
        .add_widget(idc.copy())
        .build();
    let mut tree = row().add_widget(a).add_widget(b).add_widget(c).build();
    let mut router = Router::new(Pool::new());

    group.select(&mut router, 0);
    router.tick(&mut tree);
    assert_eq!(router.ask::<_, CheckboxEvent, (), bool>(&mut tree, &ida, (), 3), Ok(true));
    assert_eq!(router.ask::<_, CheckboxEvent, (), bool>(&mut tree, &idb, (), 3), Ok(false));
    assert_eq!(router.ask::<_, CheckboxEvent, (), bool>(&mut tree, &idc, (), 3), Ok(false));

    // a click on B reaches it through pointer dispatch
    router.push(Msg::Checkbox(1, CheckboxEvent::Click));
    router.tick(&mut tree);
    assert_eq!(router.run(&mut tree, &mut group, 10), Ok(Some(1)));
    router.tick(&mut tree);

    assert_eq!(router.ask::<_, CheckboxEvent, (), bool>(&mut tree, &ida, (), 3), Ok(false));
    assert_eq!(router.ask::<_, CheckboxEvent, (), bool>(&mut tree, &idb, (), 3), Ok(true));
    assert_eq!(router.ask::<_, CheckboxEvent, (), bool>(&mut tree, &idc, (), 3), Ok(false));
}

#[test]
fn radio_group_without_press_is_done_at_once() {
    let mut tree = row().add_widget(CheckboxBuilder::new(0).build()).build();
    let mut group = RadioGroupBuilder::new().add_widget(CtrlId::new(0)).build();
    let mut router = Router::new(Pool::new());
    assert_eq!(router.run(&mut tree, &mut group, 5), Ok(None));
    assert_eq!(router.ticks(), 0);
}

#[test]
fn radio_group_turns_an_unchecked_radio_back_on() {
    let a = CheckboxBuilder::new(0).set_state(true).build();
    let b = CheckboxBuilder::new(1).build();
    let ida = a.ctrl_id();
    let mut group = RadioGroupBuilder::new().add_widget(a.ctrl_id()).add_widget(b.ctrl_id()).build();
    let mut tree = row().add_widget(a).add_widget(b).build();
    let mut router = Router::new(Pool::new());
    router.push(Msg::Checkbox(0, CheckboxEvent::Click));
    router.tick(&mut tree);
    assert_eq!(router.run(&mut tree, &mut group, 10), Ok(Some(0)));
    router.tick(&mut tree);
    assert_eq!(router.ask::<_, CheckboxEvent, (), bool>(&mut tree, &ida, (), 3), Ok(true));
}

#[test]
fn radio_group_add_and_remove() {
    let mut group = RadioGroupBuilder::new().add_widget(CtrlId::new(0)).build();
    group.add_widget(CtrlId::new(1));
    group.add_widget(CtrlId::new(0));
    assert_eq!(group.radios().len(), 3);
    group.remove_widget(&CtrlId::new(0));
    assert_eq!(group.radios().len(), 1);
    assert_eq!(group.radios()[0].slot(), 1);
}
