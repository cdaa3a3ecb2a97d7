use yorool_gui::gui::{CheckboxEvent, Msg};
use yorool_gui::pool::{Nothing, Pool};
use yorool_gui::request::CtrlId;

fn sample() -> Pool<Msg> {
    let mut p = Pool::new();
    p.push(Msg::Checkbox(1, CheckboxEvent::SetState(true)));
    p.push(Msg::Checkbox(2, CheckboxEvent::Click));
    p.push(Msg::Checkbox(1, CheckboxEvent::Pressed));
    p.push(Msg::Checkbox(3, CheckboxEvent::SetState(false)));
    p
}

#[test]
fn drain_filter_takes_matches_in_order() {
    let mut p = sample();
    let c: CtrlId<Msg, CheckboxEvent> = CtrlId::new(1);
    let taken = p.drain_filter(&c);
    assert_eq!(
        taken,
        vec![
            Msg::Checkbox(1, CheckboxEvent::SetState(true)),
            Msg::Checkbox(1, CheckboxEvent::Pressed)
        ]
    );
    assert_eq!(
        p.drain(),
        vec![
            Msg::Checkbox(2, CheckboxEvent::Click),
            Msg::Checkbox(3, CheckboxEvent::SetState(false))
        ]
    );
    assert!(p.is_empty());
}

#[test]
fn drain_filter_with_nothing_is_a_no_op() {
    let mut p = sample();
    let taken = p.drain_filter(&Nothing);
    assert!(taken.is_empty());
    assert_eq!(p.len(), 4);
    let mut q = sample();
    assert_eq!(p.drain(), q.drain());
}

#[test]
fn drain_filter_on_empty_pool() {
    let mut p: Pool<Msg> = Pool::new();
    let c: CtrlId<Msg, CheckboxEvent> = CtrlId::new(1);
    assert!(p.drain_filter(&c).is_empty());
    assert!(p.is_empty());
}

#[test]
fn query_does_not_consume() {
    let p = sample();
    let c: CtrlId<Msg, CheckboxEvent> = CtrlId::new(2);
    let d: CtrlId<Msg, CheckboxEvent> = CtrlId::new(9);
    assert!(p.query(&c));
    assert!(!p.query(&d));
    assert!(!p.query(&Nothing));
    assert_eq!(p.len(), 4);
}

#[test]
fn append_and_clear() {
    let mut p = sample();
    let mut q = sample();
    p.append(&mut q);
    assert_eq!(p.len(), 8);
    assert!(q.is_empty());
    p.clear();
    assert!(p.is_empty());
    let mut r = Pool::from_vec(vec![Msg::Checkbox(7, CheckboxEvent::Click)]);
    assert_eq!(r.drain(), vec![Msg::Checkbox(7, CheckboxEvent::Click)]);
}
