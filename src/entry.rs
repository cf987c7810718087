//! One row of the list: its editing flag and the events it handles.

use crate::todos::{with_checked, with_contents, TodoCollection, TodoMap};
use vstd::prelude::*;

verus! {

/// The keys that the text fields react to.
#[derive(Clone, Copy, Debug, PartialEq, Eq, Structural)]
pub enum KeyPress {
    Enter,
    Escape,
    Tab,
    Other,
}

/// Whether the key ends editing of a row.
pub open spec fn ends_editing(key: KeyPress) -> bool {
    key == KeyPress::Enter || key == KeyPress::Escape || key == KeyPress::Tab
}

/// Whether a row is editing after a key is pressed in its edit field.
pub open spec fn editing_after_key(editing: bool, key: KeyPress) -> bool {
    editing && !ends_editing(key)
}

/// Relies on `<bool as FromStr>::from_str`: only "true" and "false" parse.
#[verifier::external_body]
fn parse_bool(s: &str) -> (r: Option<bool>)
    ensures
        r == if s@ == "true"@ {
            Some(true)
        } else if s@ == "false"@ {
            Some(false)
        } else {
            None::<bool>
        },
{
    s.parse::<bool>().ok()
}

/// Reads the value that a checkbox reports: `Some` for "true" and "false",
/// `None` for anything else.
pub fn parse_checkbox_value(value: &str) -> (r: Option<bool>)
    ensures
        r == if value@ == "true"@ {
            Some(true)
        } else if value@ == "false"@ {
            Some(false)
        } else {
            None::<bool>
        },
{
    parse_bool(value)
}

/// The row that shows the item with id `id`. It is either viewing or editing.
#[derive(Clone, Copy, Debug, PartialEq, Eq, Structural)]
pub struct TodoEntry {
    pub id: u32,
    pub editing: bool,
}

impl TodoEntry {
    /// A row for the item, viewing it.
    pub fn new(id: u32) -> (r: Self)
        ensures
            r.id == id,
            !r.editing,
    {
        TodoEntry { id, editing: false }
    }

    /// A click on the row: editing starts unless the item is done (or gone).
    pub fn begin_edit(&mut self, todos: &TodoCollection)
        ensures
            final(self).id == old(self).id,
            final(self).editing == if todos@.contains_key(old(self).id) && !todos@[old(self).id].1 {
                true
            } else {
                old(self).editing
            },
    {
        match todos.get(self.id) {
            Some(t) => {
                if !t.checked {
                    self.editing = true;
                }
            },
            None => {},
        }
    }

    /// Focus leaves the row: editing ends.
    pub fn on_focus_out(&mut self)
        ensures
            final(self).id == old(self).id,
            !final(self).editing,
    {
        self.editing = false;
    }

    /// The checkbox changes: the item's done flag is written; whether the row
    /// is editing does not change.
    pub fn toggle_checked(&mut self, todos: &mut TodoCollection, checked: bool)
        requires
            old(todos).wf(),
        ensures
            *final(self) == *old(self),
            final(todos).wf(),
            final(todos)@ == with_checked(old(todos)@, old(self).id, checked),
    {
        todos.set_checked(self.id, checked);
    }

    /// A keystroke in the edit field: the item's text becomes `text` at once.
    pub fn edit_contents(&mut self, todos: &mut TodoCollection, text: String)
        requires
            old(todos).wf(),
        ensures
            *final(self) == *old(self),
            final(todos).wf(),
            final(todos)@ == with_contents(old(todos)@, old(self).id, text@),
    {
        todos.set_contents(self.id, text);
    }

    /// A key pressed in the edit field: Enter, Escape and Tab end editing.
    /// No key reverts the text, which was written as it was typed.
    pub fn on_edit_keydown(&mut self, key: KeyPress)
        ensures
            final(self).id == old(self).id,
            final(self).editing == editing_after_key(old(self).editing, key),
    {
        match key {
            KeyPress::Enter | KeyPress::Escape | KeyPress::Tab => {
                self.editing = false;
            },
            KeyPress::Other => {},
        }
    }
}

/// Text typed while editing stays in the item when Escape then ends
/// editing: the row leaves edit mode and nothing is reverted.
pub proof fn lemma_escape_keeps_edit(m: TodoMap, id: u32, text: Seq<char>)
    requires
        m.contains_key(id),
    ensures
        with_contents(m, id, text).contains_key(id),
        with_contents(m, id, text)[id].2 == text,
        !editing_after_key(true, KeyPress::Escape),
{
}

} // verus!
