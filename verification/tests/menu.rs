use richter::client::input::{menu_key, MenuInput, MenuKey};
use richter::menu::{
    Callback, EnumBuilder, Item, ItemError, Menu, MenuBodyView, MenuBuilder, MenuError, MenuState,
    MenuView, Slider, SystemHandle, TextField, Toggle,
};

fn view() -> MenuView {
    MenuView { draw_plaque: false, title_path: "path".to_string(), body: MenuBodyView::Dynamic }
}

fn h(id: u64) -> SystemHandle {
    SystemHandle { id }
}

fn chars(s: &str) -> Vec<char> {
    s.chars().collect()
}

fn ran(cb: Option<Callback>) -> Option<u64> {
    match cb {
        Some(Callback::Run(h)) => Some(h.id),
        _ => None,
    }
}

fn two_submenus() -> Menu {
    MenuBuilder::new()
        .add_submenu("menu_1".to_string(), MenuBuilder::new().add_action("action_1".to_string(), h(1)).build(view()))
        .add_submenu("menu_2".to_string(), MenuBuilder::new().add_action("action_2".to_string(), h(2)).build(view()))
        .build(view())
}

fn submenu_state(m: &Menu, i: usize) -> MenuState {
    match m.items()[i].item() {
        Item::Submenu(s) => s.state(),
        _ => unreachable!(),
    }
}

#[test]
fn test_toggle() {
    let mut item = Toggle::new(false, h(7));
    match item.toggle() {
        Callback::Toggled(handle, state) => {
            assert_eq!(handle, h(7));
            assert!(state);
        }
        _ => panic!("toggle must report its new state"),
    }
    assert!(item.get());
}

#[test]
fn test_enum() {
    let items = EnumBuilder::new()
        .add_item("option_0".to_string(), h(0))
        .unwrap()
        .add_item("option_1".to_string(), h(1))
        .unwrap()
        .add_item("option_2".to_string(), h(2))
        .unwrap()
        .build();
    let mut e = richter::menu::Enum::new(0, items).unwrap();
    assert_eq!(e.selected_name(), "option_0");

    // wrap under
    assert_eq!(ran(e.select_prev()), Some(2));
    assert_eq!(e.selected_name(), "option_2");

    e.select_next();
    e.select_next();
    assert_eq!(ran(e.select_next()), Some(2));
    assert_eq!(e.selected_name(), "option_2");

    // wrap over
    assert_eq!(ran(e.select_next()), Some(0));
    assert_eq!(e.selected_name(), "option_0");
}

#[test]
fn test_slider() {
    let mut item = Slider::new(11, 0, h(3)).unwrap();

    // don't underflow
    assert!(item.decrease().is_none());
    assert_eq!(item.selected(), 0);

    for i in 0..10 {
        match item.increase() {
            Some(Callback::SliderMoved(handle, step)) => {
                assert_eq!(handle, h(3));
                assert_eq!(step, i + 1);
            }
            _ => panic!("slider must move"),
        }
        assert_eq!(item.selected(), i + 1);
    }

    // don't overflow
    assert!(item.increase().is_none());
    assert_eq!(item.selected(), 10);
}

#[test]
fn test_textfield() {
    let max_len = 10;
    let mut tf = TextField::new(Some(chars("default")), Some(max_len), h(4)).unwrap();
    let mut last: Vec<char> = chars("before");

    fn record(last: &mut Vec<char>, cb: Option<Callback>) {
        if let Some(Callback::TextUpdated(_, text)) = cb {
            *last = text;
        }
    }

    tf.cursor_left();
    record(&mut last, tf.backspace());
    record(&mut last, tf.backspace());
    tf.home();
    record(&mut last, tf.delete());
    record(&mut last, tf.delete());
    record(&mut last, tf.delete());
    tf.cursor_right();
    record(&mut last, tf.insert('f'));
    tf.end();
    record(&mut last, tf.insert('e'));
    record(&mut last, tf.insert('r'));

    assert_eq!(tf.text(), last.as_slice());
    assert_eq!(tf.text(), chars("afure").as_slice());

    for _ in 0..2 * max_len {
        tf.insert('x');
    }

    assert_eq!(tf.len(), max_len);
}

#[test]
fn test_menu_builder() {
    let m = MenuBuilder::new().add_action("action".to_string(), h(9)).build(view());
    assert_eq!(m.items().len(), 1);
    assert_eq!(m.items()[0].name(), "action");
    assert!(matches!(m.items()[0].item(), Item::Action(a) if *a == h(9)));
    assert_eq!(m.state(), MenuState::Active { index: 0 });
}

#[test]
fn test_menu_active_submenu() {
    let mut m = two_submenus();
    assert!(matches!(m.state(), MenuState::Active { .. }));
    assert_eq!(submenu_state(&m, 0), MenuState::Inactive);
    assert_eq!(submenu_state(&m, 1), MenuState::Inactive);

    // enter m1
    m.activate().unwrap();
    assert!(matches!(m.state(), MenuState::InSubMenu { .. }));
    assert!(matches!(submenu_state(&m, 0), MenuState::Active { .. }));
    assert_eq!(submenu_state(&m, 1), MenuState::Inactive);

    // exit m1
    m.back().unwrap();
    assert!(matches!(m.state(), MenuState::Active { .. }));
    assert_eq!(submenu_state(&m, 0), MenuState::Inactive);
    assert_eq!(submenu_state(&m, 1), MenuState::Inactive);

    // enter m2
    m.next().unwrap();
    m.activate().unwrap();
    assert!(matches!(m.state(), MenuState::InSubMenu { .. }));
    assert_eq!(submenu_state(&m, 0), MenuState::Inactive);
    assert!(matches!(submenu_state(&m, 1), MenuState::Active { .. }));
}

#[test]
fn menu_next_then_prev_restores_selection() {
    let mut m = MenuBuilder::new()
        .add_action("a".to_string(), h(1))
        .add_action("b".to_string(), h(2))
        .add_action("c".to_string(), h(3))
        .build(view());
    m.next().unwrap();
    assert_eq!(m.state(), MenuState::Active { index: 1 });
    m.prev().unwrap();
    assert_eq!(m.state(), MenuState::Active { index: 0 });
    // wrapping
    m.prev().unwrap();
    assert_eq!(m.state(), MenuState::Active { index: 2 });
    m.next().unwrap();
    assert_eq!(m.state(), MenuState::Active { index: 0 });
}

#[test]
fn menu_activate_then_back_restores_states() {
    let mut m = two_submenus();
    let before = (m.state(), submenu_state(&m, 0), submenu_state(&m, 1));
    assert!(m.activate().unwrap().is_none());
    m.back().unwrap();
    assert_eq!((m.state(), submenu_state(&m, 0), submenu_state(&m, 1)), before);
}

#[test]
fn menu_actions_and_items_report_callbacks() {
    let mut m = MenuBuilder::new()
        .add_action("act".to_string(), h(5))
        .add_toggle("tog".to_string(), false, h(6))
        .add_slider("sld".to_string(), 3, 1, h(7))
        .unwrap()
        .build(view());
    assert_eq!(ran(m.activate().unwrap()), Some(5));
    m.next().unwrap();
    assert!(matches!(m.right().unwrap(), Some(Callback::Toggled(x, true)) if x == h(6)));
    assert!(matches!(m.left().unwrap(), Some(Callback::Toggled(x, false)) if x == h(6)));
    m.next().unwrap();
    assert!(matches!(m.right().unwrap(), Some(Callback::SliderMoved(x, 2)) if x == h(7)));
    assert!(m.right().unwrap().is_none());
    assert!(matches!(m.left().unwrap(), Some(Callback::SliderMoved(x, 1)) if x == h(7)));
}

#[test]
fn menu_errors() {
    let mut root = MenuBuilder::new().add_action("a".to_string(), h(1)).build(view());
    assert_eq!(root.back().unwrap_err(), MenuError::AtRoot);
    assert!(root.at_root());

    let mut m = two_submenus();
    m.activate().unwrap();
    // the selected element of the root is a submenu that is active; the root
    // itself has no active item to act on directly
    assert!(m.active_submenu().is_ok());
    assert!(!m.at_root());
}

#[test]
fn item_errors() {
    assert_eq!(richter::menu::Enum::new(0, Vec::new()).unwrap_err(), ItemError::NoEnumItems);
    let one = EnumBuilder::new().add_item("x".to_string(), h(1)).unwrap().build();
    assert_eq!(richter::menu::Enum::new(1, one).unwrap_err(), ItemError::InvalidInitialItem);
    assert_eq!(Slider::new(1, 0, h(1)).unwrap_err(), ItemError::TooFewSteps);
    assert_eq!(Slider::new(4, 4, h(1)).unwrap_err(), ItemError::InvalidInitialStep);
    let mut tf = TextField::new(Some(chars("ab")), None, h(1)).unwrap();
    assert_eq!(tf.set_cursor(3).unwrap_err(), ItemError::CursorOutOfRange);
    assert!(tf.set_cursor(1).is_ok());
    assert_eq!(tf.cursor(), 1);
}

#[test]
fn enum_next_then_prev_restores() {
    let items = EnumBuilder::new()
        .add_item("a".to_string(), h(0))
        .unwrap()
        .add_item("b".to_string(), h(1))
        .unwrap()
        .build();
    let mut e = richter::menu::Enum::new(1, items).unwrap();
    e.select_next();
    e.select_prev();
    assert_eq!(e.selected_name(), "b");
}

#[test]
fn slider_up_then_down_restores() {
    let mut s = Slider::new(5, 2, h(0)).unwrap();
    s.increase();
    s.decrease();
    assert_eq!(s.selected(), 2);
}

#[test]
fn toggle_twice_restores() {
    let mut t = Toggle::new(true, h(0));
    t.toggle();
    t.toggle();
    assert!(t.get());
    assert!(t.set_true().is_none());
    assert!(matches!(t.set_false(), Some(Callback::Toggled(_, false))));
}

#[test]
fn textfield_insert_then_delete_restores() {
    let mut tf = TextField::new(Some(chars("abc")), None, h(0)).unwrap();
    tf.set_cursor(1).unwrap();
    tf.insert('z');
    assert_eq!(tf.text(), chars("azbc").as_slice());
    tf.delete();
    assert_eq!(tf.text(), chars("abc").as_slice());
    assert_eq!(tf.cursor(), 1);
}

#[test]
fn menu_keys_drive_the_menu() {
    let mut m = two_submenus();
    assert!(matches!(menu_key(&mut m, MenuKey::Escape), Ok(MenuInput::ToggleMenu)));
    assert!(matches!(menu_key(&mut m, MenuKey::Down), Ok(MenuInput::Nothing)));
    assert_eq!(m.state(), MenuState::Active { index: 1 });
    assert!(matches!(menu_key(&mut m, MenuKey::Enter), Ok(MenuInput::Run(None))));
    assert_eq!(m.state(), MenuState::InSubMenu { index: 1 });
    assert!(matches!(menu_key(&mut m, MenuKey::Enter), Ok(MenuInput::Run(Some(Callback::Run(x)))) if x == h(2)));
    assert!(matches!(menu_key(&mut m, MenuKey::Escape), Ok(MenuInput::Nothing)));
    assert_eq!(m.state(), MenuState::Active { index: 1 });
    assert!(matches!(menu_key(&mut m, MenuKey::Other), Ok(MenuInput::Nothing)));
    assert!(matches!(menu_key(&mut m, MenuKey::Up), Ok(MenuInput::Nothing)));
    assert_eq!(m.state(), MenuState::Active { index: 0 });
}

#[test]
fn default_main_menu() {
    let m = richter::menu::build_default(MenuBuilder::new().add_action("quit".to_string(), h(1)));
    assert!(m.view().draw_plaque());
    assert_eq!(m.view().title_path(), "gfx/ttl_main.lmp");
    assert!(matches!(m.view().body(), MenuBodyView::Predefined { path } if path == "gfx/mainmenu.lmp"));
    assert_eq!(m.state(), MenuState::Active { index: 0 });
}

#[test]
fn back_activates_the_parent_of_a_nested_submenu() {
    let inner = MenuBuilder::new().add_action("deep".to_string(), h(3)).build(view());
    let middle = MenuBuilder::new()
        .add_action("x".to_string(), h(2))
        .add_submenu("inner".to_string(), inner)
        .build(view());
    let mut m = MenuBuilder::new().add_submenu("middle".to_string(), middle).build(view());
    m.activate().unwrap();
    m.next().unwrap();
    m.activate().unwrap();
    let middle_state = |m: &Menu| submenu_state(m, 0);
    assert_eq!(middle_state(&m), MenuState::InSubMenu { index: 1 });
    m.back().unwrap();
    // the middle menu is active again at the element that led into the
    // inner menu; the root still points into the middle menu
    assert_eq!(m.state(), MenuState::InSubMenu { index: 0 });
    assert_eq!(middle_state(&m), MenuState::Active { index: 1 });
    match m.items()[0].item() {
        Item::Submenu(mid) => assert_eq!(submenu_state(mid, 1), MenuState::Inactive),
        _ => unreachable!(),
    }
    m.back().unwrap();
    assert_eq!(m.state(), MenuState::Active { index: 0 });
    assert_eq!(middle_state(&m), MenuState::Inactive);
}
