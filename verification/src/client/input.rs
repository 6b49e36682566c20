//! Where keyboard input goes, and what keys do in the menu.

use vstd::prelude::*;

use crate::menu::item::Callback;
use crate::menu::{Menu, MenuError, MenuOp, MenuState};

verus! {

/// Which part of the client receives keyboard input.
#[derive(Clone, Copy, Debug, PartialEq, Eq, Structural)]
pub enum InputFocus {
    Game,
    Console,
    Menu,
}

impl Default for InputFocus {
    fn default() -> (r: InputFocus)
        ensures
            r == InputFocus::Console,
    {
        InputFocus::Console
    }
}

/// The console is shown exactly when it has focus.
pub fn console_visible(focus: InputFocus) -> (r: bool)
    ensures
        r == (focus == InputFocus::Console),
{
    match focus {
        InputFocus::Console => true,
        InputFocus::Game | InputFocus::Menu => false,
    }
}

/// The keys the menu reacts to.
#[derive(Clone, Copy, Debug, PartialEq, Eq, Structural)]
pub enum MenuKey {
    Escape,
    Enter,
    Up,
    Down,
    Left,
    Right,
    Other,
}

/// What the client does after a key in the menu.
#[derive(Debug)]
pub enum MenuInput {
    /// Nothing more.
    Nothing,
    /// Run the `togglemenu` command.
    ToggleMenu,
    /// Run the callback of the item, if there is one.
    Run(Option<Callback>),
}

/// How moving the selection changes the menu and what it returns.
pub open(crate) spec fn moved(old: Menu, new: Menu, op: MenuOp, r: Result<(), MenuError>) -> bool {
    &&& old.active() is None ==> r == Err::<(), MenuError>(MenuError::InvalidSubmenu) && new == old
    &&& old.active_not_selecting() ==> r == Err::<(), MenuError>(MenuError::SelectedMenuInactive)
        && new == old
    &&& old.active_selecting() ==> r is Ok && Menu::rewrites_active(old, new, op, None)
}

/// How acting on the selected item changes the menu and what it returns.
pub open(crate) spec fn acted(
    old: Menu,
    new: Menu,
    op: MenuOp,
    r: Result<Option<Callback>, MenuError>,
) -> bool {
    &&& old.active() is None ==> r == Err::<Option<Callback>, MenuError>(MenuError::InvalidSubmenu)
        && new == old
    &&& old.active_not_selecting() ==> r == Ok::<Option<Callback>, MenuError>(None) && new == old
    &&& old.active_selecting() ==> (r matches Ok(cb) && Menu::rewrites_active(old, new, op, cb))
}

/// The menu operation a key performs, if any (Escape goes back instead).
pub open spec fn key_op(key: MenuKey) -> Option<MenuOp> {
    match key {
        MenuKey::Enter => Some(MenuOp::Activate),
        MenuKey::Up => Some(MenuOp::Prev),
        MenuKey::Down => Some(MenuOp::Next),
        MenuKey::Left => Some(MenuOp::Left),
        MenuKey::Right => Some(MenuOp::Right),
        _ => None,
    }
}

/// Handles a key in the menu: Escape at the top level toggles the menu and
/// elsewhere goes back; Up and Down move the selection; Enter, Left and
/// Right act on the selected item and hand back its callback.
pub fn menu_key(menu: &mut Menu, key: MenuKey) -> (r: Result<MenuInput, MenuError>)
    requires
        old(menu).chain_ok(),
        key == MenuKey::Escape ==> !(old(menu).spec_state() is Inactive),
        key_op(key) matches Some(op) ==> old(menu).ready_for(op),
    ensures
        key == MenuKey::Other ==> *final(menu) == *old(menu) && (r matches Ok(MenuInput::Nothing)),
        key == MenuKey::Escape && old(menu).spec_state() is Active ==> *final(menu) == *old(menu)
            && (r matches Ok(MenuInput::ToggleMenu)),
        key == MenuKey::Escape && old(menu).spec_state() is InSubMenu ==> {
            &&& old(menu).active() is None ==> *final(menu) == *old(menu) && (r matches Err(
                MenuError::InvalidSubmenu,
            ))
            &&& old(menu).active() is Some ==> (r matches Ok(MenuInput::Nothing))
                && Menu::back_rel(*old(menu), *final(menu))
        },
        final(menu).chain_ok(),
        (key == MenuKey::Up || key == MenuKey::Down) ==> exists|res: Result<(), MenuError>|
            moved(*old(menu), *final(menu), key_op(key).unwrap(), res) && match res {
                Ok(()) => r matches Ok(MenuInput::Nothing),
                Err(e) => r == Err::<MenuInput, MenuError>(e),
            },
        (key == MenuKey::Enter || key == MenuKey::Left || key == MenuKey::Right) ==> exists|
            res: Result<Option<Callback>, MenuError>,
        |
            acted(*old(menu), *final(menu), key_op(key).unwrap(), res) && match res {
                Ok(cb) => r matches Ok(MenuInput::Run(c)) && c == cb,
                Err(e) => r == Err::<MenuInput, MenuError>(e),
            },
{
    match key {
        MenuKey::Escape => {
            if menu.at_root() {
                Ok(MenuInput::ToggleMenu)
            } else {
                match menu.back() {
                    Ok(()) => Ok(MenuInput::Nothing),
                    Err(e) => Err(e),
                }
            }
        },
        MenuKey::Up => {
            let res = menu.prev();
            assert(moved(*old(menu), *menu, MenuOp::Prev, res));
            match res {
                Ok(()) => Ok(MenuInput::Nothing),
                Err(e) => Err(e),
            }
        },
        MenuKey::Down => {
            let res = menu.next();
            assert(moved(*old(menu), *menu, MenuOp::Next, res));
            match res {
                Ok(()) => Ok(MenuInput::Nothing),
                Err(e) => Err(e),
            }
        },
        MenuKey::Enter => {
            let res = menu.activate();
            assert(acted(*old(menu), *menu, MenuOp::Activate, res));
            match res {
                Ok(cb) => Ok(MenuInput::Run(cb)),
                Err(e) => Err(e),
            }
        },
        MenuKey::Left => {
            let res = menu.left();
            assert(acted(*old(menu), *menu, MenuOp::Left, res));
            match res {
                Ok(cb) => Ok(MenuInput::Run(cb)),
                Err(e) => Err(e),
            }
        },
        MenuKey::Right => {
            let res = menu.right();
            assert(acted(*old(menu), *menu, MenuOp::Right, res));
            match res {
                Ok(cb) => Ok(MenuInput::Run(cb)),
                Err(e) => Err(e),
            }
        },
        MenuKey::Other => Ok(MenuInput::Nothing),
    }
}

} // verus!
