//! The page's root state: the collection, the filter, the draft and the id
//! counter, with the values the page shows.

use crate::entry::KeyPress;
use crate::todos::{active_set, visible_set, strictly_ascending, without_completed, Filter, TodoCollection, TodoItem, TodoMap};
use vstd::prelude::*;

verus! {

/// The collection after the draft is submitted with `next` as the new id.
pub open spec fn submitted(m: TodoMap, next: u32, draft: Seq<char>) -> TodoMap {
    if draft.len() == 0 {
        m
    } else {
        m.insert(next, (next, false, draft))
    }
}

/// The id counter after the draft is submitted.
pub open spec fn next_after(next: u32, draft: Seq<char>) -> int {
    if draft.len() == 0 {
        next as int
    } else {
        next + 1
    }
}

/// The collection and counter after each draft is submitted in turn.
pub open spec fn submit_all(m: TodoMap, next: u32, drafts: Seq<Seq<char>>) -> (TodoMap, int)
    decreases drafts.len(),
{
    if drafts.len() == 0 {
        (m, next as int)
    } else {
        submit_all(
            submitted(m, next, drafts[0]),
            next_after(next, drafts[0]) as u32,
            drafts.drop_first(),
        )
    }
}

/// Submitting non-empty drafts one after another adds one item per draft,
/// under consecutive ids never used before, in the order of submission, and
/// keeps every earlier item as it was.
pub proof fn lemma_submit_all(m: TodoMap, next: u32, drafts: Seq<Seq<char>>)
    requires
        m.dom().finite(),
        forall|k: u32| #[trigger] m.contains_key(k) ==> k < next,
        forall|i: int| 0 <= i < drafts.len() ==> #[trigger] drafts[i].len() > 0,
        next + drafts.len() <= u32::MAX,
    ensures
        submit_all(m, next, drafts).1 == next + drafts.len(),
        submit_all(m, next, drafts).0.len() == m.len() + drafts.len(),
        submit_all(m, next, drafts).0.dom() == m.dom().union(
            Set::new(|k: u32| next <= k < next + drafts.len()),
        ),
        forall|i: int|
            0 <= i < drafts.len() ==> #[trigger] submit_all(m, next, drafts).0[(next + i) as u32]
                == ((next + i) as u32, false, drafts[i]),
        forall|k: u32| #[trigger]
            m.contains_key(k) ==> submit_all(m, next, drafts).0[k] == m[k],
    decreases drafts.len(),
{
    if drafts.len() > 0 {
        let m1 = submitted(m, next, drafts[0]);
        let next1 = (next + 1) as u32;
        let rest = drafts.drop_first();
        assert(drafts[0].len() > 0);
        assert(!m.contains_key(next));
        assert forall|i: int| 0 <= i < rest.len() implies #[trigger] rest[i].len() > 0 by {
            assert(rest[i] == drafts[i + 1]);
        }
        lemma_submit_all(m1, next1, rest);
        let r = submit_all(m, next, drafts).0;
        assert(r == submit_all(m1, next1, rest).0);
        assert(m1.contains_key(next));
        assert forall|i: int| 0 <= i < drafts.len() implies #[trigger] r[(next + i) as u32] == (
            (next + i) as u32,
            false,
            drafts[i],
        ) by {
            if i > 0 {
                assert(rest[i - 1] == drafts[i]);
                assert(next1 + (i - 1) == next + i);
            }
        }
        assert forall|k: u32| #[trigger] m.contains_key(k) implies r[k] == m[k] by {
            assert(m1.contains_key(k) && m1[k] == m[k]);
        }
        assert(r.dom() =~= m.dom().union(Set::new(|k: u32| next <= k < next + drafts.len())));
    } else {
        assert(m.dom().union(Set::new(|k: u32| next <= k < next + drafts.len())) =~= m.dom());
    }
}

/// The state of the page.
pub struct TodoApp {
    pub todos: TodoCollection,
    pub filter: Filter,
    pub draft: String,
    pub next_id: u32,
}

impl TodoApp {
    /// The collection is well formed and every id in it was handed out
    /// already, so the counter never hands it out again.
    pub open spec fn wf(&self) -> bool {
        &&& self.todos.wf()
        &&& forall|k: u32| #[trigger] self.todos@.contains_key(k) ==> k < self.next_id
    }

    /// An empty list, showing all items, with an empty draft.
    pub fn new() -> (r: Self)
        ensures
            r.wf(),
            r.todos@ == TodoMap::empty(),
            r.filter == Filter::All,
            r.draft@ == Seq::<char>::empty(),
            r.next_id == 0,
    {
        TodoApp { todos: TodoCollection::new(), filter: Filter::All, draft: String::new(), next_id: 0 }
    }

    /// Replaces the draft as typed.
    pub fn set_draft(&mut self, text: String)
        ensures
            final(self).draft == text,
            final(self).todos == old(self).todos,
            final(self).filter == old(self).filter,
            final(self).next_id == old(self).next_id,
    {
        self.draft = text;
    }

    /// Adds the draft as a new, not done item under the next id, advances the
    /// counter and empties the draft. An empty draft changes nothing.
    pub fn submit_draft(&mut self)
        requires
            old(self).wf(),
            old(self).draft@.len() > 0 ==> old(self).next_id < u32::MAX,
        ensures
            final(self).wf(),
            final(self).todos@ == submitted(old(self).todos@, old(self).next_id, old(self).draft@),
            final(self).next_id == next_after(old(self).next_id, old(self).draft@),
            final(self).draft@ == if old(self).draft@.len() == 0 {
                old(self).draft@
            } else {
                Seq::<char>::empty()
            },
            final(self).filter == old(self).filter,
    {
        if self.draft.as_str().is_empty() {
            return;
        }
        let id = self.next_id;
        let item = TodoItem { id, checked: false, contents: self.draft.clone() };
        self.todos.insert(item);
        self.next_id = id + 1;
        self.draft = String::new();
    }

    /// A key pressed in the draft field: Enter submits the draft.
    pub fn on_draft_keydown(&mut self, key: KeyPress)
        requires
            old(self).wf(),
            key == KeyPress::Enter && old(self).draft@.len() > 0 ==> old(self).next_id < u32::MAX,
        ensures
            final(self).wf(),
            final(self).filter == old(self).filter,
            key == KeyPress::Enter ==> {
                &&& final(self).todos@ == submitted(old(self).todos@, old(self).next_id, old(self).draft@)
                &&& final(self).next_id == next_after(old(self).next_id, old(self).draft@)
                &&& final(self).draft@ == if old(self).draft@.len() == 0 {
                    old(self).draft@
                } else {
                    Seq::<char>::empty()
                }
            },
            key != KeyPress::Enter ==> {
                &&& final(self).todos@ == old(self).todos@
                &&& final(self).next_id == old(self).next_id
                &&& final(self).draft@ == old(self).draft@
            },
    {
        if key == KeyPress::Enter {
            self.submit_draft();
        }
    }

    /// Chooses which items the list shows.
    pub fn set_filter(&mut self, filter: Filter)
        ensures
            final(self).filter == filter,
            final(self).todos == old(self).todos,
            final(self).draft == old(self).draft,
            final(self).next_id == old(self).next_id,
    {
        self.filter = filter;
    }

    /// Removes every item that is done.
    pub fn clear_completed(&mut self)
        requires
            old(self).wf(),
        ensures
            final(self).wf(),
            final(self).todos@ == without_completed(old(self).todos@),
            final(self).filter == old(self).filter,
            final(self).draft == old(self).draft,
            final(self).next_id == old(self).next_id,
    {
        self.todos.clear_completed();
    }

    /// The ids the list shows under the current filter, ascending.
    pub fn visible_ids(&self) -> (r: Vec<u32>)
        ensures
            r@.to_set() == visible_set(self.todos@, self.filter),
            strictly_ascending(r@),
    {
        self.todos.visible_ids(self.filter)
    }

    /// The number of items not yet done, whatever the filter.
    pub fn items_left(&self) -> (r: usize)
        requires
            self.wf(),
        ensures
            r == active_set(self.todos@).len(),
    {
        self.todos.items_left()
    }

    /// The word after the count: "item" for one, "items" otherwise.
    pub fn items_label(&self) -> (r: &'static str)
        requires
            self.wf(),
        ensures
            r@ == if active_set(self.todos@).len() == 1 {
                "item"@
            } else {
                "items"@
            },
    {
        if self.todos.items_left() == 1 {
            "item"
        } else {
            "items"
        }
    }

    /// Whether the "Clear completed" control is shown: some item is done.
    pub fn show_clear_completed(&self) -> (r: bool)
        ensures
            r == exists|k: u32| #[trigger] self.todos@.contains_key(k) && self.todos@[k].1,
    {
        self.todos.show_clear_completed()
    }

    /// Whether the status bar is shown: the collection is not empty.
    pub fn show_footer(&self) -> (r: bool)
        requires
            self.wf(),
        ensures
            r == (self.todos@.len() > 0),
    {
        !self.todos.is_empty()
    }
}

} // verus!
