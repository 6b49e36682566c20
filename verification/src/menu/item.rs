use vstd::prelude::*;

use super::Menu;

verus! {

/// Identifies a handler that the host registered for a menu element; the
/// host runs it when a [`Callback`] naming it comes back from the menu.
#[derive(Clone, Copy, Debug, PartialEq, Eq, Structural)]
pub struct SystemHandle {
    pub id: u64,
}

/// A handler invocation that a menu operation asks the host to perform.
#[derive(Clone, Debug)]
pub enum Callback {
    /// Run the handler with no input.
    Run(SystemHandle),
    /// Run a toggle handler with the toggle's new state.
    Toggled(SystemHandle, bool),
    /// Run a slider handler with the index of the newly selected step.
    SliderMoved(SystemHandle, usize),
    /// Run a text field handler with the field's new contents.
    TextUpdated(SystemHandle, Vec<char>),
}

/// Reasons why a menu element cannot be built.
#[derive(Clone, Copy, Debug, PartialEq, Eq, Structural)]
pub enum ItemError {
    /// An enum element needs at least one choice.
    NoEnumItems,
    /// The initial choice of an enum element is out of range.
    InvalidInitialItem,
    /// A slider needs at least two steps.
    TooFewSteps,
    /// The initial step of a slider is out of range.
    InvalidInitialStep,
    /// A text field cursor may not be placed past the end of the text.
    CursorOutOfRange,
}

#[derive(Debug)]
pub enum Item {
    Submenu(Menu),
    Action(SystemHandle),
    Toggle(Toggle),
    Enum(Enum),
    Slider(Slider),
    TextField(TextField),
}

/// An on/off menu element.
#[derive(Clone, Debug)]
pub struct Toggle {
    pub(crate) state: bool,
    pub(crate) on_toggle: SystemHandle,
}

impl Toggle {
    pub open(crate) spec fn spec_state(self) -> bool {
        self.state
    }

    pub open(crate) spec fn spec_handler(self) -> SystemHandle {
        self.on_toggle
    }

    pub fn new(init: bool, on_toggle: SystemHandle) -> (t: Toggle)
        ensures
            t.spec_state() == init,
            t.spec_handler() == on_toggle,
    {
        Toggle { state: init, on_toggle }
    }

    /// Switches the toggle off; reports the change only if it was on.
    pub fn set_false(&mut self) -> (r: Option<Callback>)
        ensures
            final(self).spec_state() == false,
            final(self).spec_handler() == old(self).spec_handler(),
            r == (if old(self).spec_state() {
                Some(Callback::Toggled(old(self).spec_handler(), false))
            } else {
                None
            }),
    {
        if !self.state {
            return None;
        }
        self.state = false;
        Some(Callback::Toggled(self.on_toggle, self.get()))
    }

    /// Switches the toggle on; reports the change only if it was off.
    pub fn set_true(&mut self) -> (r: Option<Callback>)
        ensures
            final(self).spec_state() == true,
            final(self).spec_handler() == old(self).spec_handler(),
            r == (if !old(self).spec_state() {
                Some(Callback::Toggled(old(self).spec_handler(), true))
            } else {
                None
            }),
    {
        if self.state {
            return None;
        }
        self.state = true;
        Some(Callback::Toggled(self.on_toggle, self.get()))
    }

    /// Flips the toggle and reports the new state.
    pub fn toggle(&mut self) -> (r: Callback)
        ensures
            final(self).spec_state() == !old(self).spec_state(),
            final(self).spec_handler() == old(self).spec_handler(),
            r == Callback::Toggled(old(self).spec_handler(), !old(self).spec_state()),
    {
        self.state = !self.state;
        Callback::Toggled(self.on_toggle, self.get())
    }

    pub fn get(&self) -> (r: bool)
        ensures
            r == self.spec_state(),
    {
        self.state
    }
}

/// One choice of an [`Enum`] element.
#[derive(Clone, Debug)]
pub struct EnumItem {
    pub(crate) name: String,
    pub(crate) on_select: SystemHandle,
}

impl EnumItem {
    pub open(crate) spec fn spec_name(self) -> Seq<char> {
        self.name@
    }

    pub open(crate) spec fn spec_handler(self) -> SystemHandle {
        self.on_select
    }

    pub fn new(name: String, on_select: SystemHandle) -> (r: Result<EnumItem, ItemError>)
        ensures
            r matches Ok(e) && e.spec_name() == name@ && e.spec_handler() == on_select,
    {
        Ok(EnumItem { name, on_select })
    }

    pub fn name(&self) -> (r: &str)
        ensures
            r@ == self.spec_name(),
    {
        self.name.as_str()
    }
}

/// A menu element that cycles through a list of named choices.
#[derive(Debug)]
pub struct Enum {
    pub(crate) selected: usize,
    pub(crate) items: Vec<EnumItem>,
}

impl Enum {
    pub open(crate) spec fn spec_selected(self) -> nat {
        self.selected as nat
    }

    pub open(crate) spec fn spec_items(self) -> Seq<EnumItem> {
        self.items@
    }

    /// The choices are never empty and the selection is always one of them.
    #[verifier::type_invariant]
    pub open(crate) spec fn wf(self) -> bool {
        0 < self.items@.len() && self.selected < self.items@.len()
    }

    pub fn new(init: usize, items: Vec<EnumItem>) -> (r: Result<Enum, ItemError>)
        ensures
            items@.len() == 0 ==> r == Err::<Enum, ItemError>(ItemError::NoEnumItems),
            items@.len() > 0 && init >= items@.len() ==> r == Err::<Enum, ItemError>(
                ItemError::InvalidInitialItem,
            ),
            items@.len() > 0 && init < items@.len() ==> (r matches Ok(e) && e.wf()
                && e.spec_selected() == init && e.spec_items() == items@),
    {
        if items.len() == 0 {
            return Err(ItemError::NoEnumItems);
        }
        if init >= items.len() {
            return Err(ItemError::InvalidInitialItem);
        }
        Ok(Enum { selected: init, items })
    }

    pub fn selected_name(&self) -> (r: &str)
        ensures
            self.wf(),
            r@ == self.spec_items()[self.spec_selected() as int].spec_name(),
    {
        proof {
            use_type_invariant(self);
        }
        self.items[self.selected].name()
    }

    /// Index of the choice after `i`, wrapping to the first.
    pub open(crate) spec fn next_index(self, i: nat) -> nat {
        if i + 1 >= self.items@.len() {
            0
        } else {
            i + 1
        }
    }

    /// Index of the choice before `i`, wrapping to the last.
    pub open(crate) spec fn prev_index(self, i: nat) -> nat {
        if i == 0 {
            (self.items@.len() - 1) as nat
        } else {
            (i - 1) as nat
        }
    }

    pub fn select_next(&mut self) -> (r: Option<Callback>)
        ensures
            old(self).wf(),
            final(self).wf(),
            final(self).spec_items() == old(self).spec_items(),
            final(self).spec_selected() == old(self).next_index(old(self).spec_selected()),
            r == Some(
                Callback::Run(old(self).spec_items()[final(self).spec_selected() as int].spec_handler()),
            ),
    {
        proof {
            use_type_invariant(&*self);
        }
        let len = self.items.len();
        let selected = if self.selected + 1 >= len {
            0
        } else {
            self.selected + 1
        };
        self.selected = selected;
        let on_select = self.items[selected].on_select;
        Some(Callback::Run(on_select))
    }

    pub fn select_prev(&mut self) -> (r: Option<Callback>)
        ensures
            old(self).wf(),
            final(self).wf(),
            final(self).spec_items() == old(self).spec_items(),
            final(self).spec_selected() == old(self).prev_index(old(self).spec_selected()),
            r == Some(
                Callback::Run(old(self).spec_items()[final(self).spec_selected() as int].spec_handler()),
            ),
    {
        proof {
            use_type_invariant(&*self);
        }
        let selected = if self.selected == 0 {
            self.items.len() - 1
        } else {
            self.selected - 1
        };
        self.selected = selected;
        let on_select = self.items[selected].on_select;
        Some(Callback::Run(on_select))
    }
}

/// A menu element that moves through a fixed number of evenly spaced steps.
///
/// The numeric range that the steps cover is kept by the host, which maps a
/// step index to a value.
#[derive(Debug)]
pub struct Slider {
    pub(crate) steps: usize,
    pub(crate) selected: usize,
    pub(crate) on_select: SystemHandle,
}

impl Slider {
    pub open(crate) spec fn spec_steps(self) -> nat {
        self.steps as nat
    }

    pub open(crate) spec fn spec_selected(self) -> nat {
        self.selected as nat
    }

    pub open(crate) spec fn spec_handler(self) -> SystemHandle {
        self.on_select
    }

    /// At least two steps, and the selection is one of them.
    #[verifier::type_invariant]
    pub open(crate) spec fn wf(self) -> bool {
        self.steps > 1 && self.selected < self.steps
    }

    pub fn new(steps: usize, init: usize, on_select: SystemHandle) -> (r: Result<Slider, ItemError>)
        ensures
            steps <= 1 ==> r == Err::<Slider, ItemError>(ItemError::TooFewSteps),
            steps > 1 && init >= steps ==> r == Err::<Slider, ItemError>(
                ItemError::InvalidInitialStep,
            ),
            steps > 1 && init < steps ==> (r matches Ok(s) && s.wf() && s.spec_steps() == steps
                && s.spec_selected() == init && s.spec_handler() == on_select),
    {
        if steps <= 1 {
            return Err(ItemError::TooFewSteps);
        }
        if init >= steps {
            return Err(ItemError::InvalidInitialStep);
        }
        Ok(Slider { steps, selected: init, on_select })
    }

    /// Moves one step up unless already at the last step.
    pub fn increase(&mut self) -> (r: Option<Callback>)
        ensures
            old(self).wf(),
            final(self).wf(),
            final(self).spec_steps() == old(self).spec_steps(),
            final(self).spec_handler() == old(self).spec_handler(),
            old(self).spec_selected() + 1 == old(self).spec_steps() ==> *final(self) == *old(self)
                && r is None,
            old(self).spec_selected() + 1 < old(self).spec_steps() ==> final(self).spec_selected()
                == old(self).spec_selected() + 1 && r == Some(
                Callback::SliderMoved(old(self).spec_handler(), final(self).spec_selected() as usize),
            ),
    {
        proof {
            use_type_invariant(&*self);
        }
        let old = self.selected;
        if old == self.steps - 1 {
            None
        } else {
            self.selected = old + 1;
            Some(Callback::SliderMoved(self.on_select, self.selected))
        }
    }

    /// Moves one step down unless already at the first step.
    pub fn decrease(&mut self) -> (r: Option<Callback>)
        ensures
            old(self).wf(),
            final(self).wf(),
            final(self).spec_steps() == old(self).spec_steps(),
            final(self).spec_handler() == old(self).spec_handler(),
            old(self).spec_selected() == 0 ==> *final(self) == *old(self) && r is None,
            old(self).spec_selected() > 0 ==> final(self).spec_selected() == old(self).spec_selected()
                - 1 && r == Some(Callback::SliderMoved(old(self).spec_handler(), final(self).spec_selected() as usize)),
    {
        proof {
            use_type_invariant(&*self);
        }
        let old = self.selected;
        if old == 0 {
            None
        } else {
            self.selected = old - 1;
            Some(Callback::SliderMoved(self.on_select, self.selected))
        }
    }

    /// Index of the selected step.
    pub fn selected(&self) -> (r: usize)
        ensures
            r == self.spec_selected(),
    {
        self.selected
    }

    pub fn steps(&self) -> (r: usize)
        ensures
            r == self.spec_steps(),
    {
        self.steps
    }
}

/// An editable line of text with a cursor.
#[derive(Clone, Debug)]
pub struct TextField {
    pub(crate) chars: Vec<char>,
    pub(crate) max_len: Option<usize>,
    pub(crate) on_update: SystemHandle,
    pub(crate) cursor: usize,
}

impl TextField {
    pub open(crate) spec fn spec_text(self) -> Seq<char> {
        self.chars@
    }

    pub open(crate) spec fn spec_cursor(self) -> nat {
        self.cursor as nat
    }

    pub open(crate) spec fn spec_max_len(self) -> Option<usize> {
        self.max_len
    }

    pub open(crate) spec fn spec_handler(self) -> SystemHandle {
        self.on_update
    }

    /// This field with its cursor at `cursor` and all else unchanged.
    pub open(crate) spec fn moved_to(self, cursor: usize) -> TextField {
        TextField { cursor, ..self }
    }

    /// The cursor stands within the text or just past its end.
    pub open(crate) spec fn wf(self) -> bool {
        self.cursor <= self.chars@.len()
    }

    pub fn new(default: Option<Vec<char>>, max_len: Option<usize>, on_update: SystemHandle) -> (r:
        Result<TextField, ItemError>)
        ensures
            r matches Ok(t) && t.wf() && t.spec_text() == (match default {
                Some(d) => d@,
                None => Seq::<char>::empty(),
            }) && t.spec_cursor() == t.spec_text().len() && t.spec_max_len() == max_len
                && t.spec_handler() == on_update,
    {
        let chars = match default {
            Some(d) => d,
            None => Vec::new(),
        };
        let cursor = chars.len();
        Ok(TextField { chars, max_len, on_update, cursor })
    }

    pub fn is_empty(&self) -> (r: bool)
        ensures
            r == (self.spec_text().len() == 0),
    {
        self.len() == 0
    }

    pub fn text(&self) -> (r: &[char])
        ensures
            r@ == self.spec_text(),
    {
        self.chars.as_slice()
    }

    pub fn len(&self) -> (r: usize)
        ensures
            r == self.spec_text().len(),
    {
        self.chars.len()
    }

    pub fn cursor(&self) -> (r: usize)
        ensures
            r == self.spec_cursor(),
    {
        self.cursor
    }

    pub fn set_cursor(&mut self, cursor: usize) -> (r: Result<(), ItemError>)
        ensures
            cursor <= old(self).spec_text().len() ==> r is Ok && *final(self) == old(self).moved_to(cursor),
            cursor > old(self).spec_text().len() ==> r == Err::<(), ItemError>(
                ItemError::CursorOutOfRange,
            ) && *final(self) == *old(self),
    {
        if cursor > self.len() {
            return Err(ItemError::CursorOutOfRange);
        }
        self.cursor = cursor;
        Ok(())
    }

    pub fn home(&mut self)
        ensures
            *final(self) == old(self).moved_to(0),
    {
        self.cursor = 0;
    }

    pub fn end(&mut self)
        ensures
            *final(self) == old(self).moved_to(old(self).spec_text().len() as usize),
    {
        self.cursor = self.len();
    }

    /// Moves the cursor one place right, unless it is at the end.
    pub fn cursor_right(&mut self)
        ensures
            *final(self) == old(self).moved_to(
                if old(self).spec_cursor() < old(self).spec_text().len() {
                    (old(self).spec_cursor() + 1) as usize
                } else {
                    old(self).spec_cursor() as usize
                },
            ),
    {
        let curs = self.cursor;
        if curs < self.len() {
            self.cursor = curs + 1;
        }
    }

    /// Moves the cursor one place left; it never moves onto the first place.
    pub fn cursor_left(&mut self)
        ensures
            *final(self) == old(self).moved_to(
                if old(self).spec_cursor() > 1 {
                    (old(self).spec_cursor() - 1) as usize
                } else {
                    old(self).spec_cursor() as usize
                },
            ),
    {
        let curs = self.cursor;
        if curs > 1 {
            self.cursor = curs - 1;
        }
    }

    /// Inserts a character at the cursor, unless the text is at its maximum
    /// length. The cursor stays where it is.
    pub fn insert(&mut self, c: char) -> (r: Option<Callback>)
        requires
            !(old(self).spec_max_len() matches Some(l) && old(self).spec_text().len() == l)
                ==> old(self).wf(),
        ensures
            final(self).spec_cursor() == old(self).spec_cursor(),
            final(self).spec_max_len() == old(self).spec_max_len(),
            final(self).spec_handler() == old(self).spec_handler(),
            (old(self).spec_max_len() matches Some(l) && old(self).spec_text().len() == l) ==> r is None
                && *final(self) == *old(self),
            !(old(self).spec_max_len() matches Some(l) && old(self).spec_text().len() == l) ==> {
                &&& final(self).spec_text() == old(self).spec_text().insert(
                    old(self).spec_cursor() as int,
                    c,
                )
                &&& r matches Some(Callback::TextUpdated(h, t)) && h == old(self).spec_handler()
                    && t@ == final(self).spec_text()
            },
    {
        if let Some(l) = self.max_len {
            if self.chars.len() == l {
                return None;
            }
        }
        self.chars.insert(self.cursor, c);
        let value = self.chars.clone();
        Some(Callback::TextUpdated(self.on_update, value))
    }

    /// Removes the character before the cursor, if the cursor is past the
    /// second place. The cursor stays where it is.
    pub fn backspace(&mut self) -> (r: Option<Callback>)
        requires
            old(self).spec_cursor() > 1 ==> old(self).wf(),
        ensures
            final(self).spec_cursor() == old(self).spec_cursor(),
            final(self).spec_max_len() == old(self).spec_max_len(),
            final(self).spec_handler() == old(self).spec_handler(),
            old(self).spec_cursor() <= 1 ==> r is None && *final(self) == *old(self),
            old(self).spec_cursor() > 1 ==> {
                &&& final(self).spec_text() == old(self).spec_text().remove(
                    old(self).spec_cursor() - 1,
                )
                &&& r matches Some(Callback::TextUpdated(h, t)) && h == old(self).spec_handler()
                    && t@ == final(self).spec_text()
            },
    {
        if self.cursor > 1 {
            self.chars.remove(self.cursor - 1);
            let value = self.chars.clone();
            Some(Callback::TextUpdated(self.on_update, value))
        } else {
            None
        }
    }

    /// Removes the character under the cursor, if there is one.
    pub fn delete(&mut self) -> (r: Option<Callback>)
        ensures
            final(self).spec_cursor() == old(self).spec_cursor(),
            final(self).spec_max_len() == old(self).spec_max_len(),
            final(self).spec_handler() == old(self).spec_handler(),
            old(self).spec_cursor() >= old(self).spec_text().len() ==> r is None && *final(self)
                == *old(self),
            old(self).spec_cursor() < old(self).spec_text().len() ==> {
                &&& final(self).spec_text() == old(self).spec_text().remove(
                    old(self).spec_cursor() as int,
                )
                &&& r matches Some(Callback::TextUpdated(h, t)) && h == old(self).spec_handler()
                    && t@ == final(self).spec_text()
            },
    {
        if self.cursor < self.len() {
            self.chars.remove(self.cursor);
            let value = self.chars.clone();
            Some(Callback::TextUpdated(self.on_update, value))
        } else {
            None
        }
    }
}

} // verus!
