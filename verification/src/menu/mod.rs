use vstd::prelude::*;

pub mod item;
pub mod laws;

pub use self::item::{
    Callback, Enum, EnumItem, Item, ItemError, Slider, SystemHandle, TextField, Toggle,
};

verus! {

#[derive(Clone, Copy, Debug, PartialEq, Eq, Structural)]
pub enum MenuState {
    /// Menu is inactive.
    Inactive,
    /// Menu is active. `index` indicates the currently selected element.
    Active { index: usize },
    /// A submenu of this menu is active. `index` indicates the active submenu.
    InSubMenu { index: usize },
}

impl Default for MenuState {
    fn default() -> (r: MenuState)
        ensures
            r == MenuState::Inactive,
    {
        MenuState::Inactive
    }
}

/// Reasons why a menu operation cannot be carried out.
#[derive(Clone, Copy, Debug, PartialEq, Eq, Structural)]
pub enum MenuError {
    /// A menu's state names an element that is not a submenu.
    InvalidSubmenu,
    /// The active menu is not in the `Active` state.
    SelectedMenuInactive,
    /// The active menu is not in the `Active` state, so nothing is selected.
    InvalidActiveState,
    /// The root menu is active; there is nothing to go back to.
    AtRoot,
}

/// Specifies how the menu body should be rendered.
#[derive(Clone, Debug)]
pub enum MenuBodyView {
    /// The menu body is rendered using a predefined bitmap.
    Predefined {
        /// The path to the bitmap.
        path: String,
    },
    /// The menu body is rendered dynamically based on its contents.
    Dynamic,
}

#[derive(Clone, Debug)]
pub struct MenuView {
    pub draw_plaque: bool,
    pub title_path: String,
    pub body: MenuBodyView,
}

impl MenuView {
    /// Returns true if the Quake plaque should be drawn to the left of the menu.
    pub fn draw_plaque(&self) -> (r: bool)
        ensures
            r == self.draw_plaque,
    {
        self.draw_plaque
    }

    /// Returns the path to the menu title bitmap.
    pub fn title_path(&self) -> (r: &str)
        ensures
            r@ == self.title_path@,
    {
        self.title_path.as_str()
    }

    /// Returns a MenuBodyView which specifies how to render the menu body.
    pub fn body(&self) -> (r: &MenuBodyView)
        ensures
            *r == self.body,
    {
        &self.body
    }
}

#[derive(Debug)]
pub struct NamedMenuItem {
    pub(crate) name: String,
    pub(crate) item: Item,
}

impl NamedMenuItem {
    pub open(crate) spec fn spec_name(self) -> Seq<char> {
        self.name@
    }

    pub open(crate) spec fn spec_item(self) -> Item {
        self.item
    }

    pub fn new(name: String, item: Item) -> (r: NamedMenuItem)
        ensures
            r.spec_name() == name@,
            r.spec_item() == item,
    {
        NamedMenuItem { name, item }
    }

    pub fn name(&self) -> (r: &str)
        ensures
            r@ == self.spec_name(),
    {
        self.name.as_str()
    }

    pub fn item(&self) -> (r: &Item)
        ensures
            *r == self.spec_item(),
    {
        &self.item
    }
}

/// The operations that act on the active menu.
pub enum MenuOp {
    Next,
    Prev,
    Activate,
    Left,
    Right,
    Deactivate,
}

#[derive(Debug)]
pub struct Menu {
    pub(crate) items: Vec<NamedMenuItem>,
    pub(crate) state: MenuState,
    pub(crate) view: MenuView,
}

/// How an element reacts to the "left" key: its new value and what it asks the host to run.
pub open(crate) spec fn left_rel(old: Item, new: Item, cb: Option<Callback>) -> bool {
    match old {
        Item::Enum(e) => new matches Item::Enum(e2) && e2.spec_items() == e.spec_items()
            && e2.spec_selected() == e.prev_index(e.spec_selected()) && cb == Some(
            Callback::Run(e.spec_items()[e2.spec_selected() as int].spec_handler()),
        ),
        Item::Slider(s) => new matches Item::Slider(s2) && s2.spec_steps() == s.spec_steps()
            && s2.spec_handler() == s.spec_handler() && if s.spec_selected() == 0 {
            s2 == s && cb is None
        } else {
            s2.spec_selected() == s.spec_selected() - 1 && cb == Some(
                Callback::SliderMoved(s.spec_handler(), s2.spec_selected() as usize),
            )
        },
        Item::TextField(t) => cb is None && new == Item::TextField(
            t.moved_to(
                if t.spec_cursor() > 1 {
                    (t.spec_cursor() - 1) as usize
                } else {
                    t.spec_cursor() as usize
                },
            ),
        ),
        Item::Toggle(t) => new == Item::Toggle(Toggle { state: false, ..t }) && cb == (if t.state {
            Some(Callback::Toggled(t.on_toggle, false))
        } else {
            None
        }),
        _ => new == old && cb is None,
    }
}

/// How an element reacts to the "right" key: its new value and what it asks the host to run.
pub open(crate) spec fn right_rel(old: Item, new: Item, cb: Option<Callback>) -> bool {
    match old {
        Item::Enum(e) => new matches Item::Enum(e2) && e2.spec_items() == e.spec_items()
            && e2.spec_selected() == e.next_index(e.spec_selected()) && cb == Some(
            Callback::Run(e.spec_items()[e2.spec_selected() as int].spec_handler()),
        ),
        Item::Slider(s) => new matches Item::Slider(s2) && s2.spec_steps() == s.spec_steps()
            && s2.spec_handler() == s.spec_handler() && if s.spec_selected() + 1 == s.spec_steps() {
            s2 == s && cb is None
        } else {
            s2.spec_selected() == s.spec_selected() + 1 && cb == Some(
                Callback::SliderMoved(s.spec_handler(), s2.spec_selected() as usize),
            )
        },
        Item::TextField(t) => cb is None && new == Item::TextField(
            t.moved_to(
                if t.spec_cursor() < t.spec_text().len() {
                    (t.spec_cursor() + 1) as usize
                } else {
                    t.spec_cursor() as usize
                },
            ),
        ),
        Item::Toggle(t) => new == Item::Toggle(Toggle { state: true, ..t }) && cb == (if !t.state {
            Some(Callback::Toggled(t.on_toggle, true))
        } else {
            None
        }),
        _ => new == old && cb is None,
    }
}

impl Menu {
    pub open(crate) spec fn spec_state(self) -> MenuState {
        self.state
    }

    pub open(crate) spec fn spec_items(self) -> Seq<NamedMenuItem> {
        self.items@
    }

    pub open(crate) spec fn spec_view(self) -> MenuView {
        self.view
    }

    /// The item that a submenu state of this menu points at, if any.
    pub open(crate) spec fn child(self, index: usize) -> Option<Menu> {
        if index < self.items@.len() {
            match self.items@[index as int].item {
                Item::Submenu(s) => Some(s),
                _ => None,
            }
        } else {
            None
        }
    }

    /// Following the chain of `InSubMenu` states never indexes past the end
    /// of a menu's elements.
    pub open(crate) spec fn chain_ok(self) -> bool
        decreases self,
    {
        match self.state {
            MenuState::InSubMenu { index } => index < self.items@.len() && match self.items@[index as int].item {
                Item::Submenu(s) => s.chain_ok(),
                _ => true,
            },
            _ => true,
        }
    }

    /// The active (sub)menu: the end of the chain of `InSubMenu` states, or
    /// `None` if the chain reaches an element that is not a submenu.
    pub open(crate) spec fn active(self) -> Option<Menu>
        decreases self,
    {
        match self.state {
            MenuState::InSubMenu { index } => if index < self.items@.len() {
                match self.items@[index as int].item {
                    Item::Submenu(s) => s.active(),
                    _ => None,
                }
            } else {
                None
            },
            _ => Some(self),
        }
    }

    /// `new` differs from `self` only in `self`'s menu elements and its state.
    pub open(crate) spec fn same_but(self, new: Menu) -> bool {
        new.view == self.view
    }

    /// What `op` does to the active menu `self`, giving `new` and the callback `cb`.
    pub open(crate) spec fn op_rel(self, op: MenuOp, new: Menu, cb: Option<Callback>) -> bool {
        let len = self.items@.len();
        &&& new.view == self.view
        &&& match op {
            MenuOp::Next => self.state matches MenuState::Active { index } && cb is None
                && new.items@ == self.items@ && new.state == MenuState::Active {
                index: ((index + 1) % (len as int)) as usize,
            },
            MenuOp::Prev => self.state matches MenuState::Active { index } && cb is None
                && new.items@ == self.items@ && new.state == MenuState::Active {
                index: if index == 0 {
                    (len - 1) as usize
                } else {
                    ((index - 1) % (len as int)) as usize
                },
            },
            MenuOp::Activate => self.state matches MenuState::Active { index } && match self.items@[index as int].item {
                Item::Submenu(s) => cb is None && new.state == MenuState::InSubMenu { index }
                    && new.items@ == self.items@.update(
                    index as int,
                    NamedMenuItem {
                        name: self.items@[index as int].name,
                        item: Item::Submenu(Menu { state: MenuState::Active { index: 0 }, ..s }),
                    },
                ),
                Item::Action(h) => cb == Some(Callback::Run(h)) && new.state == self.state
                    && new.items@ == self.items@,
                _ => cb is None && new.state == self.state && new.items@ == self.items@,
            },
            MenuOp::Left => self.state matches MenuState::Active { index } && new.state == self.state
                && new.items@.len() == len && (forall|j: int|
                0 <= j < len && j != index ==> new.items@[j] == self.items@[j])
                && new.items@[index as int].name == self.items@[index as int].name && left_rel(
                self.items@[index as int].item,
                new.items@[index as int].item,
                cb,
            ),
            MenuOp::Right => self.state matches MenuState::Active { index } && new.state
                == self.state && new.items@.len() == len && (forall|j: int|
                0 <= j < len && j != index ==> new.items@[j] == self.items@[j])
                && new.items@[index as int].name == self.items@[index as int].name && right_rel(
                self.items@[index as int].item,
                new.items@[index as int].item,
                cb,
            ),
            MenuOp::Deactivate => cb is None && new.items@ == self.items@ && new.state
                == MenuState::Inactive,
        }
    }

    /// What `op` needs of the active menu `self` so that it does not panic.
    pub open(crate) spec fn op_pre(self, op: MenuOp) -> bool {
        let len = self.items@.len();
        match op {
            MenuOp::Next => self.state matches MenuState::Active { index } && len > 0 && index
                < usize::MAX,
            MenuOp::Prev => self.state is Active && len > 0,
            MenuOp::Activate | MenuOp::Left | MenuOp::Right => self.state matches MenuState::Active {
                index,
            } && index < len,
            MenuOp::Deactivate => true,
        }
    }

    /// `new` is `old` with its active menu `a` replaced according to `op`.
    pub open(crate) spec fn rewrites_active(old: Menu, new: Menu, op: MenuOp, cb: Option<Callback>) -> bool
        decreases old,
    {
        match old.state {
            MenuState::InSubMenu { index } => index < old.items@.len() && match old.items@[index as int].item {
                Item::Submenu(os) => {
                    &&& new.state == old.state
                    &&& new.view == old.view
                    &&& new.items@.len() == old.items@.len()
                    &&& forall|j: int|
                        0 <= j < old.items@.len() && j != index ==> new.items@[j] == old.items@[j]
                    &&& new.items@[index as int].name == old.items@[index as int].name
                    &&& new.items@[index as int].item matches Item::Submenu(ns)
                        && Menu::rewrites_active(os, ns, op, cb)
                },
                _ => false,
            },
            _ => old.op_rel(op, new, cb),
        }
    }

    /// The active menu exists and is in the `Active` state.
    pub open(crate) spec fn active_selecting(self) -> bool {
        match self.active() {
            Some(a) => a.state is Active,
            None => false,
        }
    }

    /// The active menu exists and is not in the `Active` state.
    pub open(crate) spec fn active_not_selecting(self) -> bool {
        match self.active() {
            Some(a) => !(a.state is Active),
            None => false,
        }
    }

    /// The element that the active menu has selected.
    pub open(crate) spec fn selected_item(self) -> Item {
        let a = self.active().unwrap();
        a.items@[a.state->Active_index as int].item
    }

    /// If the active menu is selecting, `op` can act on it without panicking.
    pub open(crate) spec fn ready_for(self, op: MenuOp) -> bool {
        match self.active() {
            Some(a) => a.state is Active ==> a.op_pre(op),
            None => true,
        }
    }

    /// Moving the selection or deactivating asks the host to run nothing.
    proof fn lemma_no_callback(old: Menu, new: Menu, op: MenuOp, cb: Option<Callback>)
        requires
            Menu::rewrites_active(old, new, op, cb),
            op is Next || op is Prev || op is Deactivate,
        ensures
            cb is None,
        decreases old,
    {
        match old.state {
            MenuState::InSubMenu { index } => match old.items@[index as int].item {
                Item::Submenu(os) => {
                    let ns = new.items@[index as int].item->Submenu_0;
                    Menu::lemma_no_callback(os, ns, op, cb);
                },
                _ => {},
            },
            _ => {},
        }
    }

    /// `new` is `old` with its active menu deactivated and that menu's parent,
    /// the menu that pointed into it, active again at the element that led
    /// into it. Every other menu keeps its state.
    pub open(crate) spec fn back_rel(old: Menu, new: Menu) -> bool
        decreases old,
    {
        match old.state {
            MenuState::InSubMenu { index } => index < old.items@.len() && match old.items@[index as int].item {
                Item::Submenu(os) => {
                    &&& new.view == old.view
                    &&& new.items@.len() == old.items@.len()
                    &&& forall|j: int|
                        0 <= j < old.items@.len() && j != index ==> new.items@[j] == old.items@[j]
                    &&& new.items@[index as int].name == old.items@[index as int].name
                    &&& if os.state is InSubMenu {
                        &&& new.state == old.state
                        &&& new.items@[index as int].item matches Item::Submenu(ns) && Menu::back_rel(os, ns)
                    } else {
                        &&& new.state == (MenuState::Active { index })
                        &&& new.items@[index as int].item == Item::Submenu(
                            Menu { state: MenuState::Inactive, ..os },
                        )
                    }
                },
                _ => false,
            },
            _ => false,
        }
    }

    /// Rewriting the active menu keeps the chain of submenu states in range.
    proof fn lemma_rewrite_keeps_chain(old: Menu, new: Menu, op: MenuOp, cb: Option<Callback>)
        requires
            old.chain_ok(),
            Menu::rewrites_active(old, new, op, cb),
            old.active() matches Some(a) && a.op_pre(op),
        ensures
            new.chain_ok(),
        decreases old,
    {
        match old.state {
            MenuState::InSubMenu { index } => match old.items@[index as int].item {
                Item::Submenu(os) => {
                    let ns = new.items@[index as int].item->Submenu_0;
                    Menu::lemma_rewrite_keeps_chain(os, ns, op, cb);
                },
                _ => {},
            },
            _ => {
                if op is Activate {
                    let i = old.state->Active_index;
                    if new.state is InSubMenu {
                        let s = new.items@[i as int].item->Submenu_0;
                        assert(s.chain_ok());
                    }
                }
            },
        }
    }

    /// After moving the selection, the active menu is selecting one of its
    /// elements, and has the elements it had.
    proof fn lemma_moved_selection(old: Menu, new: Menu, op: MenuOp)
        requires
            Menu::rewrites_active(old, new, op, None),
            op is Next || op is Prev,
            old.active() matches Some(a) && a.op_pre(op),
        ensures
            new.active() matches Some(b) && b.state matches MenuState::Active { index } && index
                < b.items@.len() && b.items@ == old.active().unwrap().items@,
        decreases old,
    {
        match old.state {
            MenuState::InSubMenu { index } => match old.items@[index as int].item {
                Item::Submenu(os) => {
                    let ns = new.items@[index as int].item->Submenu_0;
                    Menu::lemma_moved_selection(os, ns, op);
                },
                _ => {},
            },
            _ => {
                let len = old.items@.len();
                let i = old.state->Active_index;
                if op is Next {
                    assert(((i + 1) % (len as int)) < len) by (nonlinear_arith)
                        requires
                            len > 0,
                    ;
                } else if i != 0 {
                    assert((i - 1) % (len as int) < len) by (nonlinear_arith)
                        requires
                            len > 0,
                    ;
                }
            },
        }
    }

    /// Deactivating the active menu and reactivating its parent keeps the
    /// chain of submenu states in range.
    proof fn lemma_back_keeps_chain(old: Menu, new: Menu)
        requires
            old.chain_ok(),
            Menu::back_rel(old, new),
        ensures
            new.chain_ok(),
        decreases old,
    {
        match old.state {
            MenuState::InSubMenu { index } => match old.items@[index as int].item {
                Item::Submenu(os) => {
                    if os.state is InSubMenu {
                        let ns = new.items@[index as int].item->Submenu_0;
                        Menu::lemma_back_keeps_chain(os, ns);
                    }
                },
                _ => {},
            },
            _ => {},
        }
    }

    /// Deactivates the active menu and activates its parent.
    fn back_step(&mut self)
        requires
            old(self).state is InSubMenu,
            old(self).chain_ok(),
            old(self).active() is Some,
        ensures
            Menu::back_rel(*old(self), *final(self)),
        decreases *old(self),
    {
        if let MenuState::InSubMenu { index } = self.state {
            let deeper = match &self.items[index].item {
                Item::Submenu(s) => match s.state {
                    MenuState::InSubMenu { .. } => true,
                    _ => false,
                },
                _ => false,
            };
            if deeper {
                match &mut self.items[index].item {
                    Item::Submenu(s) => s.back_step(),
                    _ => {},
                }
            } else {
                match &mut self.items[index].item {
                    Item::Submenu(s) => {
                        s.state = MenuState::Inactive;
                    },
                    _ => {},
                }
                self.state = MenuState::Active { index };
            }
        }
    }

    /// Applies `op` to the active menu, following the chain of submenus.
    fn apply(&mut self, op: MenuOp) -> (cb: Option<Callback>)
        requires
            old(self).active() matches Some(a) && a.op_pre(op),
        ensures
            Menu::rewrites_active(*old(self), *final(self), op, cb),
        decreases *old(self),
    {
        match self.state {
            MenuState::InSubMenu { index } => {
                match &mut self.items[index].item {
                    Item::Submenu(s) => s.apply(op),
                    _ => {
                        proof {
                            assert(false);
                        }
                        None
                    },
                }
            },
            _ => self.apply_here(op),
        }
    }

    /// Applies `op` to this menu itself.
    fn apply_here(&mut self, op: MenuOp) -> (cb: Option<Callback>)
        requires
            !(old(self).state is InSubMenu),
            old(self).op_pre(op),
        ensures
            old(self).op_rel(op, *final(self), cb),
    {
        let len = self.items.len();
        match op {
            MenuOp::Next => {
                if let MenuState::Active { index } = self.state {
                    self.state = MenuState::Active { index: (index + 1) % len };
                }
                None
            },
            MenuOp::Prev => {
                if let MenuState::Active { index } = self.state {
                    self.state = MenuState::Active {
                        index: if index == 0 {
                            len - 1
                        } else {
                            (index - 1) % len
                        },
                    };
                }
                None
            },
            MenuOp::Activate => {
                if let MenuState::Active { index } = self.state {
                    let is_submenu = match &self.items[index].item {
                        Item::Submenu(_) => true,
                        _ => false,
                    };
                    if is_submenu {
                        self.state = MenuState::InSubMenu { index };
                        match &mut self.items[index].item {
                            Item::Submenu(submenu) => {
                                submenu.state = MenuState::Active { index: 0 };
                            },
                            _ => {},
                        }
                        None
                    } else {
                        match &self.items[index].item {
                            Item::Action(action) => Some(Callback::Run(*action)),
                            _ => None,
                        }
                    }
                } else {
                    None
                }
            },
            MenuOp::Left => {
                if let MenuState::Active { index } = self.state {
                    match &mut self.items[index].item {
                        Item::Enum(e) => e.select_prev(),
                        Item::Slider(slider) => slider.decrease(),
                        Item::TextField(text) => {
                            text.cursor_left();
                            None
                        },
                        Item::Toggle(toggle) => toggle.set_false(),
                        _ => None,
                    }
                } else {
                    None
                }
            },
            MenuOp::Right => {
                if let MenuState::Active { index } = self.state {
                    match &mut self.items[index].item {
                        Item::Enum(e) => e.select_next(),
                        Item::Slider(slider) => slider.increase(),
                        Item::TextField(text) => {
                            text.cursor_right();
                            None
                        },
                        Item::Toggle(toggle) => toggle.set_true(),
                        _ => None,
                    }
                } else {
                    None
                }
            },
            MenuOp::Deactivate => {
                self.state = MenuState::Inactive;
                None
            },
        }
    }
}


impl Menu {
    /// Returns a reference to the active submenu of this menu.
    pub fn active_submenu(&self) -> (r: Result<&Menu, MenuError>)
        requires
            self.chain_ok(),
        ensures
            self.active() matches Some(a) ==> (r matches Ok(m) && *m == a),
            self.active() is None ==> r == Err::<&Menu, MenuError>(MenuError::InvalidSubmenu),
        decreases self,
    {
        match self.state {
            MenuState::InSubMenu { index } => match &self.items[index].item {
                Item::Submenu(s) => s.active_submenu(),
                _ => Err(MenuError::InvalidSubmenu),
            },
            _ => Ok(self),
        }
    }

    /// Select the next element of the active menu, wrapping to the first.
    pub fn next(&mut self) -> (r: Result<(), MenuError>)
        requires
            old(self).chain_ok(),
            old(self).ready_for(MenuOp::Next),
        ensures
            old(self).active() is None ==> r == Err::<(), MenuError>(MenuError::InvalidSubmenu)
                && *final(self) == *old(self),
            old(self).active_not_selecting() ==> r == Err::<(), MenuError>(
                MenuError::SelectedMenuInactive,
            ) && *final(self) == *old(self),
            old(self).active_selecting() ==> r is Ok
                && Menu::rewrites_active(*old(self), *final(self), MenuOp::Next, None),
            final(self).chain_ok(),
            old(self).active_selecting() ==> final(self).active_selecting() && final(self).ready_for(
                MenuOp::Next,
            ) && final(self).ready_for(MenuOp::Prev),
    {
        let active = match self.active_submenu() {
            Ok(m) => match m.state {
                MenuState::Active { .. } => true,
                _ => false,
            },
            Err(e) => return Err(e),
        };
        if !active {
            return Err(MenuError::SelectedMenuInactive);
        }
        let cb = self.apply(MenuOp::Next);
        proof {
            Menu::lemma_no_callback(*old(self), *self, MenuOp::Next, cb);
            Menu::lemma_rewrite_keeps_chain(*old(self), *self, MenuOp::Next, cb);
            Menu::lemma_moved_selection(*old(self), *self, MenuOp::Next);
            let b = self.active().unwrap();
            assert(b.items.len() == b.items@.len());
        }
        Ok(())
    }

    /// Select the previous element of the active menu, wrapping to the last.
    pub fn prev(&mut self) -> (r: Result<(), MenuError>)
        requires
            old(self).chain_ok(),
            old(self).ready_for(MenuOp::Prev),
        ensures
            old(self).active() is None ==> r == Err::<(), MenuError>(MenuError::InvalidSubmenu)
                && *final(self) == *old(self),
            old(self).active_not_selecting() ==> r == Err::<(), MenuError>(
                MenuError::SelectedMenuInactive,
            ) && *final(self) == *old(self),
            old(self).active_selecting() ==> r is Ok
                && Menu::rewrites_active(*old(self), *final(self), MenuOp::Prev, None),
            final(self).chain_ok(),
            old(self).active_selecting() ==> final(self).active_selecting() && final(self).ready_for(
                MenuOp::Next,
            ) && final(self).ready_for(MenuOp::Prev),
    {
        let active = match self.active_submenu() {
            Ok(m) => match m.state {
                MenuState::Active { .. } => true,
                _ => false,
            },
            Err(e) => return Err(e),
        };
        if !active {
            return Err(MenuError::SelectedMenuInactive);
        }
        let cb = self.apply(MenuOp::Prev);
        proof {
            Menu::lemma_no_callback(*old(self), *self, MenuOp::Prev, cb);
            Menu::lemma_rewrite_keeps_chain(*old(self), *self, MenuOp::Prev, cb);
            Menu::lemma_moved_selection(*old(self), *self, MenuOp::Prev);
            let b = self.active().unwrap();
            assert(b.items.len() == b.items@.len());
        }
        Ok(())
    }

    /// Return a reference to the currently selected menu item.
    pub fn selected(&self) -> (r: Result<&Item, MenuError>)
        requires
            self.chain_ok(),
            self.ready_for(MenuOp::Activate),
        ensures
            self.active() is None ==> r == Err::<&Item, MenuError>(MenuError::InvalidSubmenu),
            self.active_not_selecting() ==> r == Err::<&Item, MenuError>(
                MenuError::InvalidActiveState,
            ),
            self.active_selecting() ==> (r matches Ok(item) && *item == self.selected_item()),
    {
        let m = match self.active_submenu() {
            Ok(m) => m,
            Err(e) => return Err(e),
        };
        match m.state {
            MenuState::Active { index } => Ok(&m.items[index].item),
            _ => Err(MenuError::InvalidActiveState),
        }
    }

    /// Activate the currently selected menu item.
    ///
    /// If this item is a `Menu`, sets the active (sub)menu's state to
    /// `MenuState::InSubMenu` and the selected submenu's state to
    /// `MenuState::Active`.
    ///
    /// If this item is an `Action`, asks for the action's handler to be run.
    ///
    /// Otherwise, this has no effect.
    pub fn activate(&mut self) -> (r: Result<Option<Callback>, MenuError>)
        requires
            old(self).chain_ok(),
            old(self).ready_for(MenuOp::Activate),
        ensures
            old(self).active() is None ==> r == Err::<Option<Callback>, MenuError>(
                MenuError::InvalidSubmenu,
            ) && *final(self) == *old(self),
            old(self).active_not_selecting() ==> r == Ok::<
                Option<Callback>,
                MenuError,
            >(None) && *final(self) == *old(self),
            old(self).active_selecting() ==> (r matches Ok(cb)
                && Menu::rewrites_active(*old(self), *final(self), MenuOp::Activate, cb)),
            final(self).chain_ok(),
    {
        let active = match self.active_submenu() {
            Ok(m) => match m.state {
                MenuState::Active { .. } => true,
                _ => false,
            },
            Err(e) => return Err(e),
        };
        if !active {
            return Ok(None);
        }
        let cb = self.apply(MenuOp::Activate);
        proof {
            Menu::lemma_rewrite_keeps_chain(*old(self), *self, MenuOp::Activate, cb);
        }
        Ok(cb)
    }

    /// Passes the "left" key to the selected element of the active menu.
    pub fn left(&mut self) -> (r: Result<Option<Callback>, MenuError>)
        requires
            old(self).chain_ok(),
            old(self).ready_for(MenuOp::Left),
        ensures
            old(self).active() is None ==> r == Err::<Option<Callback>, MenuError>(
                MenuError::InvalidSubmenu,
            ) && *final(self) == *old(self),
            old(self).active_not_selecting() ==> r == Ok::<
                Option<Callback>,
                MenuError,
            >(None) && *final(self) == *old(self),
            old(self).active_selecting() ==> (r matches Ok(cb)
                && Menu::rewrites_active(*old(self), *final(self), MenuOp::Left, cb)),
            final(self).chain_ok(),
    {
        let active = match self.active_submenu() {
            Ok(m) => match m.state {
                MenuState::Active { .. } => true,
                _ => false,
            },
            Err(e) => return Err(e),
        };
        if !active {
            return Ok(None);
        }
        let cb = self.apply(MenuOp::Left);
        proof {
            Menu::lemma_rewrite_keeps_chain(*old(self), *self, MenuOp::Left, cb);
        }
        Ok(cb)
    }

    /// Passes the "right" key to the selected element of the active menu.
    pub fn right(&mut self) -> (r: Result<Option<Callback>, MenuError>)
        requires
            old(self).chain_ok(),
            old(self).ready_for(MenuOp::Right),
        ensures
            old(self).active() is None ==> r == Err::<Option<Callback>, MenuError>(
                MenuError::InvalidSubmenu,
            ) && *final(self) == *old(self),
            old(self).active_not_selecting() ==> r == Ok::<
                Option<Callback>,
                MenuError,
            >(None) && *final(self) == *old(self),
            old(self).active_selecting() ==> (r matches Ok(cb)
                && Menu::rewrites_active(*old(self), *final(self), MenuOp::Right, cb)),
            final(self).chain_ok(),
    {
        let active = match self.active_submenu() {
            Ok(m) => match m.state {
                MenuState::Active { .. } => true,
                _ => false,
            },
            Err(e) => return Err(e),
        };
        if !active {
            return Ok(None);
        }
        let cb = self.apply(MenuOp::Right);
        proof {
            Menu::lemma_rewrite_keeps_chain(*old(self), *self, MenuOp::Right, cb);
        }
        Ok(cb)
    }

    /// Return `true` if the root menu is active, `false` otherwise.
    pub fn at_root(&self) -> (r: bool)
        ensures
            r == (self.spec_state() is Active),
    {
        match self.state {
            MenuState::Active { .. } => true,
            _ => false,
        }
    }

    /// Deactivate the active menu and activate its parent.
    pub fn back(&mut self) -> (r: Result<(), MenuError>)
        requires
            old(self).chain_ok(),
            !(old(self).spec_state() is Inactive),
        ensures
            final(self).chain_ok(),
            old(self).spec_state() is Active ==> r == Err::<(), MenuError>(MenuError::AtRoot)
                && *final(self) == *old(self),
            old(self).spec_state() is InSubMenu && old(self).active() is None ==> r == Err::<
                (),
                MenuError,
            >(MenuError::InvalidSubmenu) && *final(self) == *old(self),
            old(self).spec_state() is InSubMenu && old(self).active() is Some ==> r is Ok
                && Menu::back_rel(*old(self), *final(self)),
    {
        if self.at_root() {
            return Err(MenuError::AtRoot);
        }
        match self.active_submenu() {
            Ok(_) => {},
            Err(e) => return Err(e),
        }
        self.back_step();
        proof {
            Menu::lemma_back_keeps_chain(*old(self), *self);
        }
        Ok(())
    }

    pub fn items(&self) -> (r: &[NamedMenuItem])
        ensures
            r@ == self.spec_items(),
    {
        self.items.as_slice()
    }

    pub fn state(&self) -> (r: MenuState)
        ensures
            r == self.spec_state(),
    {
        self.state
    }

    pub fn view(&self) -> (r: &MenuView)
        ensures
            *r == self.spec_view(),
    {
        &self.view
    }
}

/// A menu element with a submenu's state set to inactive.
pub open(crate) spec fn deactivated(item: NamedMenuItem) -> NamedMenuItem {
    match item.item {
        Item::Submenu(m) => NamedMenuItem {
            item: Item::Submenu(Menu { state: MenuState::Inactive, ..m }),
            ..item
        },
        _ => item,
    }
}

/// Collects menu elements and builds a [`Menu`] from them.
pub struct MenuBuilder {
    items: Vec<NamedMenuItem>,
}

impl MenuBuilder {
    pub closed spec fn spec_items(self) -> Seq<NamedMenuItem> {
        self.items@
    }

    pub fn new() -> (r: MenuBuilder)
        ensures
            r.spec_items() == Seq::<NamedMenuItem>::empty(),
    {
        MenuBuilder { items: Vec::new() }
    }

    /// Builds the menu: it starts active at its first element, and every
    /// submenu starts inactive.
    pub fn build(self, view: MenuView) -> (m: Menu)
        ensures
            m.spec_state() == (MenuState::Active { index: 0 }),
            m.spec_view() == view,
            m.spec_items().len() == self.spec_items().len(),
            forall|i: int|
                0 <= i < m.spec_items().len() ==> #[trigger] m.spec_items()[i] == deactivated(
                    self.spec_items()[i],
                ),
    {
        let mut items = self.items;
        let ghost orig = items@;
        let mut i: usize = 0;
        while i < items.len()
            invariant
                items@.len() == orig.len(),
                i <= items@.len(),
                forall|j: int| 0 <= j < i ==> #[trigger] items@[j] == deactivated(orig[j]),
                forall|j: int| i <= j < items@.len() ==> #[trigger] items@[j] == orig[j],
            decreases items@.len() - i,
        {
            match &mut items[i].item {
                Item::Submenu(m) => {
                    m.state = MenuState::Inactive;
                },
                _ => {},
            }
            i = i + 1;
        }
        Menu { items, state: MenuState::Active { index: 0 }, view }
    }

    pub fn add_submenu(self, name: String, submenu: Menu) -> (r: MenuBuilder)
        ensures
            r.spec_items().len() == self.spec_items().len() + 1,
            r.spec_items().drop_last() == self.spec_items(),
            r.spec_items().last().spec_name() == name@,
            r.spec_items().last().spec_item() == Item::Submenu(submenu),
    {
        let mut items = self.items;
        items.push(NamedMenuItem::new(name, Item::Submenu(submenu)));
        MenuBuilder { items }
    }

    pub fn add_action(self, name: String, action: SystemHandle) -> (r: MenuBuilder)
        ensures
            r.spec_items().len() == self.spec_items().len() + 1,
            r.spec_items().drop_last() == self.spec_items(),
            r.spec_items().last().spec_name() == name@,
            r.spec_items().last().spec_item() == Item::Action(action),
    {
        let mut items = self.items;
        items.push(NamedMenuItem::new(name, Item::Action(action)));
        MenuBuilder { items }
    }

    pub fn add_toggle(self, name: String, init: bool, on_toggle: SystemHandle) -> (r: MenuBuilder)
        ensures
            r.spec_items().len() == self.spec_items().len() + 1,
            r.spec_items().drop_last() == self.spec_items(),
            r.spec_items().last().spec_name() == name@,
            r.spec_items().last().spec_item() matches Item::Toggle(t) && t.spec_state() == init
                && t.spec_handler() == on_toggle,
    {
        let mut items = self.items;
        items.push(NamedMenuItem::new(name, Item::Toggle(Toggle::new(init, on_toggle))));
        MenuBuilder { items }
    }

    pub fn add_enum(self, name: String, choices: Vec<EnumItem>, init: usize) -> (r: Result<
        MenuBuilder,
        ItemError,
    >)
        ensures
            choices@.len() == 0 ==> (r matches Err(e) && e == ItemError::NoEnumItems),
            choices@.len() > 0 && init >= choices@.len() ==> (r matches Err(e) && e
                == ItemError::InvalidInitialItem),
            choices@.len() > 0 && init < choices@.len() ==> (r matches Ok(b) && b.spec_items().len()
                == self.spec_items().len() + 1 && b.spec_items().drop_last() == self.spec_items()
                && b.spec_items().last().spec_name() == name@ && (b.spec_items().last().spec_item() matches Item::Enum(
                e,
            ) && e.spec_items() == choices@ && e.spec_selected() == init)),
    {
        let e = match Enum::new(init, choices) {
            Ok(e) => e,
            Err(err) => return Err(err),
        };
        let mut items = self.items;
        items.push(NamedMenuItem::new(name, Item::Enum(e)));
        Ok(MenuBuilder { items })
    }

    pub fn add_slider(self, name: String, steps: usize, init: usize, on_select: SystemHandle) -> (r:
        Result<MenuBuilder, ItemError>)
        ensures
            steps <= 1 ==> (r matches Err(e) && e == ItemError::TooFewSteps),
            steps > 1 && init >= steps ==> (r matches Err(e) && e == ItemError::InvalidInitialStep),
            steps > 1 && init < steps ==> (r matches Ok(b) && b.spec_items().len()
                == self.spec_items().len() + 1 && b.spec_items().drop_last() == self.spec_items()
                && b.spec_items().last().spec_name() == name@ && (b.spec_items().last().spec_item() matches Item::Slider(
                s,
            ) && s.spec_steps() == steps && s.spec_selected() == init && s.spec_handler()
                == on_select)),
    {
        let s = match Slider::new(steps, init, on_select) {
            Ok(s) => s,
            Err(err) => return Err(err),
        };
        let mut items = self.items;
        items.push(NamedMenuItem::new(name, Item::Slider(s)));
        Ok(MenuBuilder { items })
    }

    pub fn add_text_field(
        self,
        name: String,
        default: Option<Vec<char>>,
        max_len: Option<usize>,
        on_update: SystemHandle,
    ) -> (r: Result<MenuBuilder, ItemError>)
        ensures
            r matches Ok(b) && b.spec_items().len() == self.spec_items().len() + 1
                && b.spec_items().drop_last() == self.spec_items() && b.spec_items().last().spec_name()
                == name@ && (b.spec_items().last().spec_item() matches Item::TextField(t) && t.wf()
                && t.spec_text() == (match default {
                Some(d) => d@,
                None => Seq::<char>::empty(),
            }) && t.spec_cursor() == t.spec_text().len() && t.spec_max_len() == max_len
                && t.spec_handler() == on_update),
    {
        let t = match TextField::new(default, max_len, on_update) {
            Ok(t) => t,
            Err(err) => return Err(err),
        };
        let mut items = self.items;
        items.push(NamedMenuItem::new(name, Item::TextField(t)));
        Ok(MenuBuilder { items })
    }
}

/// Collects the choices of an [`Enum`] menu element.
pub struct EnumBuilder {
    items: Vec<EnumItem>,
}

impl EnumBuilder {
    pub closed spec fn spec_items(self) -> Seq<EnumItem> {
        self.items@
    }

    pub fn new() -> (r: EnumBuilder)
        ensures
            r.spec_items() == Seq::<EnumItem>::empty(),
    {
        EnumBuilder { items: Vec::new() }
    }

    pub fn add_item(self, name: String, on_select: SystemHandle) -> (r: Result<EnumBuilder, ItemError>)
        ensures
            r matches Ok(b) && b.spec_items().len() == self.spec_items().len() + 1
                && b.spec_items().drop_last() == self.spec_items() && b.spec_items().last().spec_name()
                == name@ && b.spec_items().last().spec_handler() == on_select,
    {
        let item = match EnumItem::new(name, on_select) {
            Ok(i) => i,
            Err(e) => return Err(e),
        };
        let mut items = self.items;
        items.push(item);
        Ok(EnumBuilder { items })
    }

    pub fn build(self) -> (r: Vec<EnumItem>)
        ensures
            r@ == self.spec_items(),
    {
        self.items
    }
}

/// The main menu as the client builds it when none is given: the
/// predefined main-menu picture under the main title, on a plaque.
pub fn build_default(builder: MenuBuilder) -> (m: Menu)
    ensures
        m.spec_state() == (MenuState::Active { index: 0 }),
        m.spec_view().draw_plaque,
        m.spec_view().title_path@ == "gfx/ttl_main.lmp"@,
        m.spec_view().body matches MenuBodyView::Predefined { path } && path@ == "gfx/mainmenu.lmp"@,
        m.spec_items().len() == builder.spec_items().len(),
{
    builder.build(
        MenuView {
            draw_plaque: true,
            title_path: String::from_str("gfx/ttl_main.lmp"),
            body: MenuBodyView::Predefined { path: String::from_str("gfx/mainmenu.lmp") },
        },
    )
}

} // verus!
