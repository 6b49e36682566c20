use vstd::prelude::*;

use super::item::{Callback, Enum, Slider, TextField, Toggle};
use super::{left_rel, right_rel, Item, Menu, MenuOp, MenuState, NamedMenuItem};

verus! {

/// Two menu elements agree, comparing submenus by [`menus_agree`].
pub open(crate) spec fn items_agree(a: NamedMenuItem, b: NamedMenuItem) -> bool
    decreases a,
{
    a == b || (a.name == b.name && match (a.item, b.item) {
        (Item::Submenu(p), Item::Submenu(q)) => menus_agree(p, q),
        _ => false,
    })
}

/// Two menus have the same state, view and elements, looking through the
/// element lists to their contents.
pub open(crate) spec fn menus_agree(x: Menu, y: Menu) -> bool
    decreases x,
{
    x == y || {
        &&& x.state == y.state
        &&& x.view == y.view
        &&& x.items@.len() == y.items@.len()
        &&& forall|j: int| 0 <= j < x.items@.len() ==> items_agree(#[trigger] x.items@[j], y.items@[j])
    }
}

/// Selecting the next element and then the previous one returns the menu to
/// where it was, whenever the active menu's selection is one of its elements.
pub proof fn next_then_prev_restores(m: Menu, m1: Menu, m2: Menu)
    requires
        m.chain_ok(),
        m.active() matches Some(a) && a.spec_state() matches MenuState::Active { index } && index
            < a.spec_items().len() && index < usize::MAX,
        Menu::rewrites_active(m, m1, MenuOp::Next, None),
        Menu::rewrites_active(m1, m2, MenuOp::Prev, None),
    ensures
        menus_agree(m, m2),
    decreases m,
{
    match m.state {
        MenuState::InSubMenu { index } => {
            let os = m.items@[index as int].item->Submenu_0;
            let n1 = m1.items@[index as int].item->Submenu_0;
            let n2 = m2.items@[index as int].item->Submenu_0;
            next_then_prev_restores(os, n1, n2);
            assert forall|j: int| 0 <= j < m.items@.len() implies items_agree(
                #[trigger] m.items@[j],
                m2.items@[j],
            ) by {
                if j != index {
                    assert(m.items@[j] == m2.items@[j]);
                } else {
                    assert(m2.items@[j].item == Item::Submenu(n2));
                    assert(m.items@[j].item == Item::Submenu(os));
                    assert(m2.items@[j].name == m.items@[j].name);
                }
            }
            assert(m2.state == m.state);
            assert(m2.view == m.view);
            assert(m2.items@.len() == m.items@.len());
            assert(menus_agree(m, m2));
        },
        _ => {
            let len = m.items@.len();
            let i = m.state->Active_index;
            let j = m1.state->Active_index;
            assert(j == ((i + 1) % (len as int)) as usize);
            if i + 1 < len {
                assert((i + 1) % (len as int) == i + 1) by (nonlinear_arith)
                    requires
                        i + 1 < len,
                ;
                assert(j == i + 1);
                assert((j - 1) % (len as int) == i) by (nonlinear_arith)
                    requires
                        j - 1 == i,
                        i < len,
                ;
            } else {
                assert((i + 1) % (len as int) == 0) by (nonlinear_arith)
                    requires
                        i + 1 == len,
                ;
                assert(j == 0);
            }
            assert(m2.items@ =~= m.items@);
            assert(m2.state == m.state);
            assert(forall|j: int| 0 <= j < m.items@.len() ==> items_agree(#[trigger] m.items@[j], m2.items@[j]));
        },
    }
}

/// Selecting the previous element and then the next one returns the menu
/// to where it was, whenever the active menu's selection is one of its
/// elements.
pub proof fn prev_then_next_restores(m: Menu, m1: Menu, m2: Menu)
    requires
        m.chain_ok(),
        m.active() matches Some(a) && a.spec_state() matches MenuState::Active { index } && index
            < a.spec_items().len(),
        Menu::rewrites_active(m, m1, MenuOp::Prev, None),
        Menu::rewrites_active(m1, m2, MenuOp::Next, None),
    ensures
        menus_agree(m, m2),
    decreases m,
{
    match m.state {
        MenuState::InSubMenu { index } => {
            let os = m.items@[index as int].item->Submenu_0;
            let n1 = m1.items@[index as int].item->Submenu_0;
            let n2 = m2.items@[index as int].item->Submenu_0;
            prev_then_next_restores(os, n1, n2);
            assert forall|j: int| 0 <= j < m.items@.len() implies items_agree(
                #[trigger] m.items@[j],
                m2.items@[j],
            ) by {
                if j != index {
                    assert(m.items@[j] == m2.items@[j]);
                } else {
                    assert(m2.items@[j].item == Item::Submenu(n2));
                    assert(m.items@[j].item == Item::Submenu(os));
                }
            }
            assert(menus_agree(m, m2));
        },
        _ => {
            let len = m.items@.len();
            let i = m.state->Active_index;
            let j = m1.state->Active_index;
            assert(m.items.len() == m.items@.len());
            if i == 0 {
                assert(j == len - 1);
                assert(((j + 1) % (len as int)) == 0) by (nonlinear_arith)
                    requires
                        j + 1 == len,
                        len > 0,
                ;
            } else {
                assert((i - 1) % (len as int) == i - 1) by (nonlinear_arith)
                    requires
                        0 <= i - 1 < len,
                ;
                assert(j == i - 1);
                assert((j + 1) % (len as int) == i) by (nonlinear_arith)
                    requires
                        j + 1 == i,
                        i < len,
                ;
            }
            assert(m2.items@ =~= m.items@);
            assert(m2.state == m.state);
            assert(forall|j: int| 0 <= j < m.items@.len() ==> items_agree(#[trigger] m.items@[j], m2.items@[j]));
        },
    }
}

/// Entering a submenu and backing out of it again returns the menu to where
/// it was, at any depth, when the submenu started out inactive.
pub proof fn activate_then_back_restores(
    m: Menu,
    m1: Menu,
    cb: Option<super::item::Callback>,
    m2: Menu,
)
    requires
        m.active() matches Some(a) && a.spec_state() matches MenuState::Active { index } && index
            < a.spec_items().len() && (a.spec_items()[index as int].spec_item() matches Item::Submenu(
            s,
        ) && s.spec_state() is Inactive),
        Menu::rewrites_active(m, m1, MenuOp::Activate, cb),
        Menu::back_rel(m1, m2),
    ensures
        menus_agree(m, m2),
    decreases m,
{
    match m.state {
        MenuState::InSubMenu { index } => {
            let os = m.items@[index as int].item->Submenu_0;
            let n1 = m1.items@[index as int].item->Submenu_0;
            let n2 = m2.items@[index as int].item->Submenu_0;
            assert(Menu::rewrites_active(os, n1, MenuOp::Activate, cb));
            if !(os.state is InSubMenu) {
                assert(os.active() == Some(os));
                let k = os.state->Active_index;
                assert(os.items@[k as int].item is Submenu);
            }
            assert(n1.state is InSubMenu);
            activate_then_back_restores(os, n1, cb, n2);
            assert forall|j: int| 0 <= j < m.items@.len() implies items_agree(
                #[trigger] m.items@[j],
                m2.items@[j],
            ) by {
                if j != index {
                    assert(m.items@[j] == m2.items@[j]);
                } else {
                    assert(m2.items@[j].item == Item::Submenu(n2));
                    assert(m.items@[j].item == Item::Submenu(os));
                }
            }
            assert(menus_agree(m, m2));
        },
        _ => {
            let i = m.state->Active_index;
            let s = m.items@[i as int].item->Submenu_0;
            assert(m1.state == (MenuState::InSubMenu { index: i }));
            assert(m1.items@[i as int].item == Item::Submenu(
                Menu { state: MenuState::Active { index: 0 }, ..s },
            ));
            assert(m2.items@[i as int].item == Item::Submenu(s));
            assert(m2.items@ =~= m.items@);
            assert(m2.state == m.state);
        },
    }
}

/// Choosing the next choice of an enum element and then the previous one
/// returns to the choice it started at.
pub proof fn enum_next_then_prev(e: Enum, i: nat)
    requires
        i < e.spec_items().len(),
    ensures
        e.prev_index(e.next_index(i)) == i,
{
}

/// The "left" key on an enum element selects the choice just before the
/// selected one, wrapping from the first choice to the last, and asks for
/// the new choice's handler to run; the "right" key selects the choice
/// just after, wrapping from the last to the first. So "right" after
/// "left" comes back to the choice it started at.
pub proof fn enum_left_and_right_step_through_choices(
    e: Enum,
    l: Item,
    lcb: Option<Callback>,
    r: Item,
    rcb: Option<Callback>,
)
    requires
        e.spec_selected() < e.spec_items().len(),
        left_rel(Item::Enum(e), l, lcb),
        right_rel(Item::Enum(e), r, rcb),
    ensures
        l matches Item::Enum(el) && el.spec_items() == e.spec_items() && el.spec_selected()
            < e.spec_items().len() && (el.spec_selected() as int + 1) % (e.spec_items().len() as int)
            == e.spec_selected() as int && lcb == Some(
            Callback::Run(e.spec_items()[el.spec_selected() as int].spec_handler()),
        ),
        r matches Item::Enum(er) && er.spec_items() == e.spec_items() && er.spec_selected()
            < e.spec_items().len() && er.spec_selected() as int == (e.spec_selected() as int + 1) % (
        e.spec_items().len() as int) && rcb == Some(
            Callback::Run(e.spec_items()[er.spec_selected() as int].spec_handler()),
        ),
{
    let n = e.spec_items().len() as int;
    let i = e.spec_selected() as int;
    let el = l->Enum_0;
    let er = r->Enum_0;
    if i == 0 {
        assert(el.spec_selected() == n - 1);
        assert((n - 1 + 1) % n == 0) by (nonlinear_arith)
            requires
                n > 0,
        ;
    } else {
        assert(el.spec_selected() == i - 1);
        assert((i - 1 + 1) % n == i) by (nonlinear_arith)
            requires
                0 < i < n,
        ;
    }
    if i + 1 >= n {
        assert(er.spec_selected() == 0);
        assert(i + 1 == n);
        assert((i + 1) % n == 0) by (nonlinear_arith)
            requires
                i + 1 == n,
                i >= 0,
        ;
    } else {
        assert(er.spec_selected() == i + 1);
        assert((i + 1) % n == i + 1) by (nonlinear_arith)
            requires
                0 <= i + 1 < n,
        ;
    }
}

/// Moving a slider up a step and down again returns it to where it was,
/// unless it started at the last step.
pub proof fn slider_up_then_down(s: Slider, s1: Slider, s2: Slider)
    requires
        s.spec_selected() + 1 < s.spec_steps(),
        s1.spec_selected() == s.spec_selected() + 1,
        s2.spec_selected() == s1.spec_selected() - 1,
    ensures
        s2.spec_selected() == s.spec_selected(),
{
}

/// Flipping a toggle twice gives back its state.
pub proof fn toggle_twice(t: Toggle, t1: Toggle, t2: Toggle)
    requires
        t1.spec_state() == !t.spec_state(),
        t2.spec_state() == !t1.spec_state(),
    ensures
        t2.spec_state() == t.spec_state(),
{
}

/// Inserting a character at the cursor and then deleting the character
/// under the cursor gives back the text, since insertion leaves the cursor
/// on the inserted character.
pub proof fn insert_then_delete(t: TextField, c: char, t1: TextField, t2: TextField)
    requires
        t.wf(),
        t1.spec_cursor() == t.spec_cursor(),
        t1.spec_text() == t.spec_text().insert(t.spec_cursor() as int, c),
        t2.spec_text() == t1.spec_text().remove(t1.spec_cursor() as int),
    ensures
        t2.spec_text() == t.spec_text(),
{
    assert(t2.spec_text() =~= t.spec_text());
}

} // verus!
