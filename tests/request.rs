use yorool_gui::gui::{is_same, ButtonEvent, CheckboxEvent, Msg};
use yorool_gui::pool::Pool;
use yorool_gui::request::{query_by_ctrlid, CtrlId, Unpack, QR};

#[test]
fn tomsg_builds_the_variant() {
    let c: CtrlId<Msg, CheckboxEvent> = CtrlId::new(4);
    assert_eq!(c.tomsg(CheckboxEvent::Click), Msg::Checkbox(4, CheckboxEvent::Click));
    let b: CtrlId<Msg, ButtonEvent> = CtrlId::new(4);
    assert_eq!(b.tomsg(ButtonEvent::Click), Msg::Button(4, ButtonEvent::Click));
    assert_eq!(c.slot(), 4);
}

#[test]
fn unpack_round_trip() {
    let c: CtrlId<Msg, CheckboxEvent> = CtrlId::new(1);
    let c2: CtrlId<Msg, CheckboxEvent> = CtrlId::new(2);
    let e = CheckboxEvent::SetState(true);
    assert_eq!(c.tomsg(e).unpack(&c), Ok(e));
    assert_eq!(c.tomsg(e).unpack(&c2), Err(Msg::Checkbox(1, e)));
    let b: CtrlId<Msg, ButtonEvent> = CtrlId::new(1);
    assert_eq!(c.tomsg(e).unpack(&b), Err(Msg::Checkbox(1, e)));
}

#[test]
fn peek_is_exclusive() {
    let c1: CtrlId<Msg, CheckboxEvent> = CtrlId::new(1);
    let c2: CtrlId<Msg, CheckboxEvent> = CtrlId::new(2);
    let msgs = vec![
        Msg::Checkbox(1, CheckboxEvent::Pressed),
        Msg::Checkbox(2, CheckboxEvent::Pressed),
        Msg::Button(1, ButtonEvent::Pressed),
    ];
    for m in &msgs {
        assert!(!(m.peek(&c1).is_some() && m.peek(&c2).is_some()));
    }
    assert_eq!(msgs[0].peek(&c1), Some(&CheckboxEvent::Pressed));
    assert_eq!(msgs[0].peek(&c2), None);
    assert_eq!(msgs[2].peek(&c1), None);
}

#[test]
fn same_channel_compares_addresses() {
    let c1: CtrlId<Msg, CheckboxEvent> = CtrlId::new(1);
    let c2: CtrlId<Msg, CheckboxEvent> = CtrlId::new(2);
    assert!(c1.same_channel(&c1.copy()));
    assert!(!c1.same_channel(&c2));
    assert!(is_same(&c1, &CtrlId::new(1)));
    assert!(!is_same(&c1, &c2));
}

#[test]
fn query_by_ctrlid_unpacks_in_order() {
    let c: CtrlId<Msg, CheckboxEvent> = CtrlId::new(5);
    let mut p = Pool::new();
    p.push(Msg::Checkbox(5, CheckboxEvent::SetState(false)));
    p.push(Msg::Button(5, ButtonEvent::Click));
    p.push(Msg::Checkbox(5, CheckboxEvent::State(QR::Query(()))));
    p.push(Msg::Checkbox(6, CheckboxEvent::Click));
    let evs = query_by_ctrlid(&mut p, &c);
    assert_eq!(
        evs,
        vec![CheckboxEvent::SetState(false), CheckboxEvent::State(QR::Query(()))]
    );
    assert_eq!(
        p.drain(),
        vec![Msg::Button(5, ButtonEvent::Click), Msg::Checkbox(6, CheckboxEvent::Click)]
    );
}

#[test]
fn qr_states() {
    let q: QR<(), bool> = QR::Query(());
    let r: QR<(), bool> = QR::Response(true);
    assert!(q.is_query() && !q.is_response());
    assert!(r.is_response() && !r.is_query());
}
