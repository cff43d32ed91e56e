use totality::events::axis;
use totality::events::button::{self, Flag, Key, Side};
use totality::events::cb::{group_removals, Manager, RegRequest, RegResponse, CB};
use totality::events::change::{Ch, ChV};
use totality::events::hal::{State, C, V};
use totality::events::pos;

#[test]
fn change_patterns() {
    let any: Ch<i32> = Ch::any();
    assert!(any.satisfied_by(&Ch::<i32>::new(1, 2)));
    let to5: Ch<i32> = Ch::to(5);
    assert!(to5.satisfied_by(&Ch::<i32>::new(3, 5)));
    assert!(!to5.satisfied_by(&Ch::<i32>::new(3, 4)));
    let from3: Ch<i32> = Ch::<i32>::from::<i32>(3);
    assert!(from3.satisfied_by(&Ch::<i32>::new(3, 9)));
    assert!(!from3.satisfied_by(&Ch::<i32>::new(4, 9)));
    let exact = Ch::<i32>::new(1, 2);
    assert!(!exact.satisfied_by(&Ch::<i32>::any()));
    let open_end = Ch::<i32>::new(1, None::<i32>);
    assert!(open_end.satisfied_by(&Ch::<i32>::new(1, 100)));
    assert!(matches!(ChV::from(Some(4)), ChV::D(4)));
    assert!(matches!(ChV::<i32>::from(None::<i32>), ChV::Any));
    assert!(matches!(ChV::from(4), ChV::D(4)));
}

#[test]
fn button_conversions() {
    assert_eq!(button::State::from(true), button::State::UP);
    assert_eq!(button::State::from(false), button::State::DOWN);
    assert!(!bool::from(button::State::UP));
    assert!(!bool::from(button::State::DOWN));
    assert_eq!(button::C::from(Key::Esc), button::C::S(Key::Esc));
    assert_eq!(button::C::from(Flag::Close), button::C::F(Flag::Close));
    let v = button::V::from((button::C::S(Key::Alt(Side::L)), button::State::DOWN));
    assert_eq!(v.value(), button::State::DOWN);
    assert_eq!(button::C::from(v), button::C::S(Key::Alt(Side::L)));
    assert_eq!(
        button::V::default_value_of(&button::C::A('q')),
        button::V(button::C::A('q'), button::State::UP)
    );
}

#[test]
fn axis_and_pos_defaults() {
    assert_eq!(axis::V::default_value_of(&axis::C::Scroll), axis::V::Scroll(0));
    assert_eq!(axis::C::from(axis::V::Scroll(7)), axis::C::Scroll);
    assert_eq!(
        pos::V::default_value_of(&pos::C::ScreenSz),
        pos::V::MousePos(pos::PosState(0, 0))
    );
    assert_eq!(pos::C::from(pos::V::ScreenSz(pos::SzState(1, 2))), pos::C::ScreenSz);
}

#[test]
fn hal_defaults() {
    assert_eq!(C::Ignored.default_v(), V::Ignored);
    assert_eq!(C::Unknown.default_v(), V::Ignored);
    assert_eq!(C::A(axis::C::Scroll).default_v(), V::A(axis::V::Scroll(0)));
    assert_eq!(C::from(pos::C::CursorPos), C::P(pos::C::CursorPos));
    assert_eq!(
        V::B(button::V(button::C::A('a'), button::State::DOWN)).category(),
        C::B(button::C::A('a'))
    );
}

#[test]
fn state_update_then_get() {
    let mut s = State::default();
    let c = C::B(button::C::A('x'));
    assert_eq!(s.get(&c), V::B(button::V(button::C::A('x'), button::State::UP)));
    let v = V::B(button::V(button::C::A('x'), button::State::DOWN));
    let (rc, rv) = s.update(&v);
    assert_eq!(rc, c);
    assert_eq!(*rv, v);
    assert_eq!(s.get(&c), v);
    let other = C::B(button::C::A('y'));
    assert_eq!(s.get(&other), V::B(button::V(button::C::A('y'), button::State::UP)));
    let v2 = V::B(button::V(button::C::A('x'), button::State::UP));
    s.update(&v2);
    assert_eq!(s.get(&c), v2);
    let (ic, iv) = s.update(&V::Ignored);
    assert_eq!(ic, C::Ignored);
    assert_eq!(*iv, V::Ignored);
    assert_eq!(s.get(&C::Ignored), V::Ignored);
}

#[test]
fn callback_registration_and_removal() {
    let c1 = C::B(button::C::F(Flag::Close));
    let c2 = C::P(pos::C::MousePos);
    let mut m = Manager::new();
    assert_eq!(m.register(CB::new(c1, 7)), 0);
    assert_eq!(m.register(CB::new(c1, 8)), 1);
    assert_eq!(m.register(CB::new(c2, 9)), 2);
    assert_eq!(m.occupied(), vec![c1, c2]);
    assert_eq!(m.listeners(&c1), vec![(0, 7), (1, 8)]);
    m.remove_matching(vec![(c1, vec![0])]);
    assert_eq!(m.listeners(&c1), vec![(1, 8)]);
    m.remove_matching(vec![(c2, vec![2])]);
    assert_eq!(m.occupied(), vec![c1]);
    assert!(m.listeners(&c2).is_empty());
    // the emptied category keeps its bucket, so registering again does not
    // make it occupied again
    assert_eq!(m.register(CB::new(c2, 10)), 3);
    assert_eq!(m.occupied(), vec![c1]);
    assert_eq!(m.listeners(&c2), vec![(3, 10)]);
}

#[test]
fn callback_requests() {
    let c1 = C::A(axis::C::Scroll);
    let mut m = Manager::new();
    match m.handle_req(RegRequest::Register(c1, vec![CB::new(c1, 1), CB::new(c1, 2)])) {
        RegResponse::Register(c, ids) => {
            assert_eq!(c, c1);
            assert_eq!(ids, vec![0, 1]);
        },
        RegResponse::Unregister => panic!("expected a registration answer"),
    }
    match m.handle_req(RegRequest::Unregister(vec![(c1, 0), (c1, 0), (c1, 5)])) {
        RegResponse::Unregister => {},
        RegResponse::Register(..) => panic!("expected an unregistration answer"),
    }
    assert_eq!(m.listeners(&c1), vec![(1, 2)]);
    assert_eq!(m.occupied(), vec![c1]);
}

#[test]
fn removals_grouped_by_category() {
    let c1 = C::A(axis::C::Scroll);
    let c2 = C::P(pos::C::MouseDelta);
    let grouped = group_removals(vec![
        (c2, vec![]),
        (c1, vec![3]),
        (c2, vec![4, 5]),
        (c1, vec![6]),
    ]);
    assert_eq!(grouped, vec![(c1, vec![3, 6]), (c2, vec![4, 5])]);
}
