//! What each key does in each mode. A key press changes the state and may
//! ask the host for a change in the store or for the records to be read
//! anew; [`Session::finish`] completes it with what the host hands back.

use crate::cursor::{
    half_page_above, half_page_below, half_page_down, half_page_up, kept_after_toggle,
    next_item, one_down, one_up, previous_item, update_tree_selection_after_toggle,
};
use crate::due::{due_date_of, parse_due_date_at, whole_seconds_between, SECONDS_PER_DAY};
use crate::form::{
    form_due_date, new_todo_from_form_at, parent_label, parent_label_text, FormError,
};
use crate::forest::has_child;
use crate::goto::GotoModel;
use crate::modes::{AppMode, CreateFieldFocus};
use crate::move_mode::{
    highlight_current_parent_for_move, is_highlighting_root_position,
    move_to_next_valid_parent, move_to_previous_valid_parent, starting_position,
    stepped_to_next, stepped_to_previous,
};
use crate::reparent::{authorize_move, closes_cycle, MoveError};
use crate::session::{
    Action, ActionModel, FollowUp, Key, NewTodoModel, Session, SessionModel, StoreRequest,
    StoreRequestModel,
};
use crate::text::{
    decimal, digit_value, is_blank, pop_char, push_char, to_decimal, without_last,
};
use crate::todo::Timestamp;
use crate::tree_search::TreeSearchModel;
use vstd::prelude::*;
use vstd::string::*;

verus! {

/// How many whole days lie between `now` and `due`, none for a due date
/// that has passed.
pub open spec fn days_ahead(due: Timestamp, now: Timestamp) -> int {
    let seconds = whole_seconds_between(due, now);
    if seconds <= 0 {
        0
    } else {
        seconds / (SECONDS_PER_DAY as int)
    }
}

/// The sentence that refuses to delete a task with children.
pub open spec fn has_children_text() -> Seq<char> {
    "Cannot delete: task has children. Delete children first."@
}

/// The sentence that refuses a move.
pub open spec fn move_refused_text(error: MoveError) -> Seq<char> {
    "Cannot move todo: "@ + error.text()
}

fn whole_days_ahead(due: Timestamp, now: Timestamp) -> (days: i64)
    ensures
        days == days_ahead(due, now),
{
    let nanos: i128 = (due.secs as i128 - now.secs as i128) * 1_000_000_000 + (due.nanos as i128
        - now.nanos as i128);
    if nanos < 1_000_000_000 {
        0
    } else {
        (nanos / (86_400 * 1_000_000_000)) as i64
    }
}

fn is_digit(c: char) -> (digit: bool)
    ensures
        digit == (digit_value(c) is Some),
{
    c == '0' || c == '1' || c == '2' || c == '3' || c == '4' || c == '5' || c == '6' || c == '7'
        || c == '8' || c == '9'
}

impl SessionModel {
    /// The state after a step down in the list of the mode.
    pub open spec fn todo_stepped(self, down: bool) -> SessionModel {
        let len = self.current_todos().len() as int;
        self.with_current_selection(
            if down {
                one_down(len, self.current_selection())
            } else {
                one_up(len, self.current_selection())
            },
        )
    }

    /// The state after a step down or up in the outline.
    pub open spec fn tree_stepped(self, down: bool) -> SessionModel {
        let len = self.outline.lines.len() as int;
        SessionModel {
            tree_selected: if down {
                one_down(len, self.tree_selected)
            } else {
                one_up(len, self.tree_selected)
            },
            ..self
        }
    }

    /// The state after a step in the outline where it is shown, else in the
    /// list.
    pub open spec fn stepped(self, down: bool) -> SessionModel {
        if self.use_tree_view {
            self.tree_stepped(down)
        } else {
            self.todo_stepped(down)
        }
    }

    /// The state after a step in the list of search results.
    pub open spec fn result_stepped(self, down: bool) -> SessionModel {
        let len = self.search_results.len() as int;
        SessionModel {
            search_selected: if down {
                one_down(len, self.search_selected)
            } else {
                one_up(len, self.search_selected)
            },
            ..self
        }
    }

    /// The state after half a page down or up, in the outline where it is
    /// shown, else in the list of incomplete tasks.
    pub open spec fn half_paged(self, down: bool) -> SessionModel {
        if self.use_tree_view {
            let len = self.outline.lines.len() as int;
            SessionModel {
                tree_selected: if down {
                    half_page_below(len, self.tree_selected)
                } else {
                    half_page_above(len, self.tree_selected)
                },
                ..self
            }
        } else {
            let len = self.incomplete_todos.len() as int;
            SessionModel {
                list_selected: if down {
                    half_page_below(len, self.list_selected)
                } else {
                    half_page_above(len, self.list_selected)
                },
                ..self
            }
        }
    }

    /// The state after the branch on the selected row of the outline was
    /// opened or folded, if that row has children.
    pub open spec fn branch_toggled(self) -> SessionModel {
        match self.tree_selected {
            Some(selected) => if selected < self.outline.lines.len()
                && self.outline.lines[selected as int].has_children {
                let outline = self.outline.toggled(self.outline.lines[selected as int].todo_id).0;
                SessionModel {
                    outline,
                    tree_selected: kept_after_toggle(outline.lines.len() as int, selected),
                    ..self
                }
            } else {
                self
            },
            None => self,
        }
    }

    /// The state with the selected task put up for the editor, if a task is
    /// selected.
    pub open spec fn editor_requested(self) -> SessionModel {
        match self.selected_todo() {
            Some(t) => SessionModel { editor_pending: Some(t), ..self },
            None => self,
        }
    }

    /// The state and the request after the completion of the selected task
    /// was flipped at the instant `now`: its row in the outline is brought
    /// up to date at once, the store is asked to follow.
    pub open spec fn completion_flipped(self, now: Timestamp, follow: FollowUp) -> (
        SessionModel,
        ActionModel,
    ) {
        match self.selected_todo() {
            Some(t) => (
                if self.use_tree_view {
                    SessionModel {
                        outline: self.outline.with_completion(
                            t.id,
                            if t.completed() {
                                None
                            } else {
                                Some(now)
                            },
                        ),
                        ..self
                    }
                } else {
                    self
                },
                ActionModel::Store(
                    if t.completed() {
                        StoreRequestModel::Uncomplete(t.id)
                    } else {
                        StoreRequestModel::Complete(t.id)
                    },
                    follow,
                ),
            ),
            None => (self, ActionModel::Nothing),
        }
    }

    /// The state and the request after the selected task was made the parent
    /// whose tasks are listed.
    pub open spec fn entered(self, follow: FollowUp) -> (SessionModel, ActionModel) {
        match self.selected_todo() {
            Some(t) => (
                SessionModel { current_parent: Some(t.id), ..self },
                ActionModel::Refresh(follow),
            ),
            None => (self, ActionModel::Nothing),
        }
    }

    /// The state and the request after the list went back to all tasks.
    pub open spec fn left(self, follow: FollowUp) -> (SessionModel, ActionModel) {
        if self.current_parent is Some {
            (SessionModel { current_parent: None, ..self }, ActionModel::Refresh(follow))
        } else {
            (self, ActionModel::Nothing)
        }
    }

    /// The state after the form for a new task was opened: its fields are
    /// empty, and the selected task, if there is one, is its parent.
    pub open spec fn form_opened(self) -> SessionModel {
        let opened = SessionModel {
            mode: AppMode::Create,
            input_title: Seq::empty(),
            input_description: Seq::empty(),
            input_due_date_relative: Seq::empty(),
            input_due_date_absolute: Seq::empty(),
            create_field_focus: CreateFieldFocus::Title,
            ..self
        };
        match opened.selected_todo() {
            Some(t) => SessionModel {
                selected_parent_id: Some(t.id),
                input_parent: parent_label_text(t.id, t.title@),
                ..opened
            },
            None => SessionModel { input_parent: Seq::empty(), selected_parent_id: None, ..opened },
        }
    }

    /// The state after the choice of a new parent for the selected task was
    /// begun, if the outline is shown and a task is selected.
    pub open spec fn move_begun(self) -> SessionModel {
        if self.use_tree_view {
            match self.selected_todo() {
                Some(t) => {
                    let moving = SessionModel {
                        move_todo_id: Some(t.id),
                        mode: AppMode::Move,
                        ..self
                    };
                    SessionModel {
                        tree_selected: starting_position(
                            moving.all_todos,
                            moving.outline.lines,
                            moving.move_todo_id,
                            moving.mode,
                            moving.tree_selected,
                        ),
                        ..moving
                    }
                },
                None => self,
            }
        } else {
            self
        }
    }

    /// What a key does in the list and in the outline.
    pub open spec fn after_list_key(self, key: Key, now: Timestamp) -> (SessionModel, ActionModel) {
        match key {
            Key::Char('q') => (SessionModel { should_quit: true, ..self }, ActionModel::Nothing),
            Key::Char('t') => (
                if self.use_tree_view {
                    self.branch_toggled()
                } else {
                    SessionModel {
                        use_tree_view: true,
                        tree_selected: if self.outline.lines.len() > 0 {
                            Some(0usize)
                        } else {
                            self.tree_selected
                        },
                        ..self
                    }
                },
                ActionModel::Nothing,
            ),
            Key::Char('f') => (
                SessionModel {
                    mode: AppMode::ListFind,
                    search_query: Seq::empty(),
                    search_results: Seq::empty(),
                    search_selected: None,
                    search_input_mode: true,
                    ..self
                },
                ActionModel::Nothing,
            ),
            Key::Char('c') => (
                SessionModel {
                    mode: AppMode::CompletedView,
                    completed_selected: if self.completed_todos.len() > 0
                        && self.completed_selected is None {
                        Some(0usize)
                    } else {
                        self.completed_selected
                    },
                    ..self
                },
                ActionModel::Nothing,
            ),
            Key::Char('/') => (
                SessionModel {
                    mode: AppMode::TreeSearch,
                    search_query: Seq::empty(),
                    tree_search: TreeSearchModel::begun(self.outline),
                    search_input_mode: true,
                    ..self
                },
                ActionModel::Nothing,
            ),
            Key::Char('n') => (self.form_opened(), ActionModel::Nothing),
            Key::Char('d') => (
                if self.current_selection() is Some {
                    SessionModel { mode: AppMode::ConfirmDelete, ..self }
                } else {
                    self
                },
                ActionModel::Nothing,
            ),
            Key::Char('m') => (self.move_begun(), ActionModel::Nothing),
            Key::Down | Key::Char('j') => (self.stepped(true), ActionModel::Nothing),
            Key::Up | Key::Char('k') => (self.stepped(false), ActionModel::Nothing),
            Key::Char(' ') => self.completion_flipped(now, FollowUp::KeepSelection),
            Key::Enter => (self.editor_requested(), ActionModel::Nothing),
            Key::Right | Key::Char('l') => self.entered(FollowUp::SelectFirst),
            Key::Left | Key::Char('h') => self.left(FollowUp::SelectFirst),
            _ => (self, ActionModel::Nothing),
        }
    }

    /// What a key does in the view of the completed tasks.
    pub open spec fn after_completed_view_key(self, key: Key) -> (SessionModel, ActionModel) {
        match key {
            Key::Esc | Key::Char('q') | Key::Char('c') => (
                SessionModel { mode: AppMode::List, ..self },
                ActionModel::Nothing,
            ),
            Key::Down | Key::Char('j') => (self.todo_stepped(true), ActionModel::Nothing),
            Key::Up | Key::Char('k') => (self.todo_stepped(false), ActionModel::Nothing),
            Key::Enter => (self.editor_requested(), ActionModel::Nothing),
            Key::Char(' ') => match self.selected_todo() {
                Some(t) => (
                    self,
                    ActionModel::Store(StoreRequestModel::Uncomplete(t.id), FollowUp::KeepSelection),
                ),
                None => (self, ActionModel::Nothing),
            },
            _ => (self, ActionModel::Nothing),
        }
    }

    /// The state and the request after the field for a span as due date was
    /// edited: what it reads as is to be shown in the field for a date, which
    /// is emptied on a deletion that leaves no due date.
    pub open spec fn relative_edited(self, now: Timestamp, deletion: bool) -> (
        SessionModel,
        ActionModel,
    ) {
        match due_date_of(self.input_due_date_relative, now) {
            Some(due) => (self, ActionModel::ShowDueDate(due)),
            None => (
                if deletion {
                    SessionModel { input_due_date_absolute: Seq::empty(), ..self }
                } else {
                    self
                },
                ActionModel::Nothing,
            ),
        }
    }

    /// The state after the field for a date as due date was edited: the
    /// field for a span shows the whole days until then, and is emptied on a
    /// deletion that leaves no due date.
    pub open spec fn absolute_edited(self, now: Timestamp, deletion: bool) -> SessionModel {
        match due_date_of(self.input_due_date_absolute, now) {
            Some(due) => SessionModel {
                input_due_date_relative: decimal(days_ahead(due, now)),
                ..self
            },
            None => if deletion {
                SessionModel { input_due_date_relative: Seq::empty(), ..self }
            } else {
                self
            },
        }
    }

    /// What a key does in the form for a new task.
    pub open spec fn after_create_key(self, key: Key, now: Timestamp) -> (
        SessionModel,
        ActionModel,
    ) {
        match key {
            Key::Esc => (SessionModel { mode: AppMode::List, ..self }, ActionModel::Nothing),
            Key::Enter => if is_blank(self.input_title) {
                (
                    SessionModel {
                        error_message: Some(FormError::EmptyTitle.text()),
                        ..self
                    },
                    ActionModel::Nothing,
                )
            } else {
                (
                    self,
                    ActionModel::Store(
                        StoreRequestModel::Create(
                            NewTodoModel {
                                title: self.input_title,
                                description: self.input_description,
                                parent_id: self.selected_parent_id,
                                due_by: form_due_date(
                                    self.input_due_date_relative,
                                    self.input_due_date_absolute,
                                    now,
                                ),
                            },
                        ),
                        FollowUp::AfterCreate,
                    ),
                )
            },
            Key::Tab => (
                SessionModel { create_field_focus: self.create_field_focus.following(), ..self },
                ActionModel::Nothing,
            ),
            Key::Char(c) => match self.create_field_focus {
                CreateFieldFocus::Title => (
                    SessionModel { input_title: self.input_title.push(c), ..self },
                    ActionModel::Nothing,
                ),
                CreateFieldFocus::DueDateRelative => (SessionModel {
                    input_due_date_relative: self.input_due_date_relative.push(c),
                    ..self
                }).relative_edited(now, false),
                CreateFieldFocus::DueDateAbsolute => (
                    (SessionModel {
                        input_due_date_absolute: self.input_due_date_absolute.push(c),
                        ..self
                    }).absolute_edited(now, false),
                    ActionModel::Nothing,
                ),
                CreateFieldFocus::Description => (
                    SessionModel { input_description: self.input_description.push(c), ..self },
                    ActionModel::Nothing,
                ),
                CreateFieldFocus::Parent => (
                    if c == 'r' {
                        SessionModel {
                            input_parent: Seq::empty(),
                            selected_parent_id: None,
                            ..self
                        }
                    } else {
                        (SessionModel {
                            mode: AppMode::ParentSearch,
                            search_query: seq![c],
                            ..self
                        }).list_searched()
                    },
                    ActionModel::Nothing,
                ),
            },
            Key::Backspace => match self.create_field_focus {
                CreateFieldFocus::Title => (
                    SessionModel { input_title: without_last(self.input_title), ..self },
                    ActionModel::Nothing,
                ),
                CreateFieldFocus::DueDateRelative => (SessionModel {
                    input_due_date_relative: without_last(self.input_due_date_relative),
                    ..self
                }).relative_edited(now, true),
                CreateFieldFocus::DueDateAbsolute => (
                    (SessionModel {
                        input_due_date_absolute: without_last(self.input_due_date_absolute),
                        ..self
                    }).absolute_edited(now, true),
                    ActionModel::Nothing,
                ),
                CreateFieldFocus::Description => (
                    SessionModel {
                        input_description: without_last(self.input_description),
                        ..self
                    },
                    ActionModel::Nothing,
                ),
                CreateFieldFocus::Parent => (
                    SessionModel { input_parent: Seq::empty(), selected_parent_id: None, ..self },
                    ActionModel::Nothing,
                ),
            },
            _ => (self, ActionModel::Nothing),
        }
    }

    /// What a key does where a deletion waits to be confirmed. A task with
    /// children is not deleted.
    pub open spec fn after_delete_key(self, key: Key) -> (SessionModel, ActionModel) {
        match key {
            Key::Char('y') => match self.selected_todo() {
                Some(t) => if has_child(self.all_todos, t.id) {
                    (
                        SessionModel {
                            error_message: Some(has_children_text()),
                            mode: AppMode::List,
                            ..self
                        },
                        ActionModel::Nothing,
                    )
                } else {
                    (
                        SessionModel { mode: AppMode::List, ..self },
                        ActionModel::Store(StoreRequestModel::Delete(t.id), FollowUp::KeepSelection),
                    )
                },
                None => (SessionModel { mode: AppMode::List, ..self }, ActionModel::Nothing),
            },
            Key::Char('n') | Key::Esc => (
                SessionModel { mode: AppMode::List, ..self },
                ActionModel::Nothing,
            ),
            _ => (self, ActionModel::Nothing),
        }
    }

    /// The state after `c` was typed into the query of the flat search.
    pub open spec fn list_query_typed(self, c: char) -> SessionModel {
        (SessionModel { search_query: self.search_query.push(c), ..self }).list_searched()
    }

    /// The state after the last character of the query of the flat search
    /// was deleted.
    pub open spec fn list_query_deleted(self) -> SessionModel {
        (SessionModel { search_query: without_last(self.search_query), ..self }).list_searched()
    }

    /// What a key does in the flat search.
    pub open spec fn after_list_find_key(self, key: Key) -> (SessionModel, ActionModel) {
        (
            match key {
                Key::Esc => SessionModel {
                    mode: AppMode::List,
                    search_query: Seq::empty(),
                    search_results: Seq::empty(),
                    search_input_mode: false,
                    ..self
                },
                Key::Enter => if self.search_input_mode {
                    (SessionModel { search_input_mode: false, ..self }).list_searched()
                } else {
                    self.editor_requested()
                },
                Key::Backspace => if self.search_input_mode {
                    self.list_query_deleted()
                } else {
                    self
                },
                Key::Char(c) => if self.search_input_mode {
                    self.list_query_typed(c)
                } else if c == 'j' {
                    self.result_stepped(true)
                } else if c == 'k' {
                    self.result_stepped(false)
                } else {
                    (SessionModel { search_input_mode: true, ..self }).list_query_typed(c)
                },
                Key::Down => if self.search_input_mode {
                    self
                } else {
                    self.result_stepped(true)
                },
                Key::Up => if self.search_input_mode {
                    self
                } else {
                    self.result_stepped(false)
                },
                _ => self,
            },
            ActionModel::Nothing,
        )
    }

    /// The state after `c` was typed into the query of the search in the
    /// outline.
    pub open spec fn tree_query_typed(self, c: char) -> SessionModel {
        (SessionModel { search_query: self.search_query.push(c), ..self }).tree_searched()
    }

    /// The state after the search in the outline was ended: the matches are
    /// dropped and the expansion state is put back.
    pub open spec fn tree_search_ended(self) -> SessionModel {
        SessionModel {
            mode: AppMode::List,
            search_query: Seq::empty(),
            search_input_mode: false,
            tree_search: TreeSearchModel::idle(),
            outline: self.tree_search.put_back(self.outline, self.show_hidden_items),
            ..self
        }
    }

    /// The state after a step to the next or to the previous match.
    pub open spec fn match_stepped(self, forward: bool) -> SessionModel {
        let stepped = self.tree_search.stepped(self.outline, self.tree_selected, forward);
        SessionModel { tree_search: stepped.0, outline: stepped.1, tree_selected: stepped.2, ..self }
    }

    /// What a key does in the search in the outline.
    pub open spec fn after_tree_search_key(self, key: Key, now: Timestamp) -> (
        SessionModel,
        ActionModel,
    ) {
        match key {
            Key::Esc => (self.tree_search_ended(), ActionModel::Nothing),
            Key::Enter => (
                if self.search_input_mode {
                    (SessionModel { search_input_mode: false, ..self }).tree_searched()
                } else {
                    self.editor_requested()
                },
                ActionModel::Nothing,
            ),
            Key::Backspace => (
                if self.search_input_mode {
                    (SessionModel {
                        search_query: without_last(self.search_query),
                        ..self
                    }).tree_searched()
                } else {
                    self
                },
                ActionModel::Nothing,
            ),
            Key::Char(c) => if self.search_input_mode {
                (self.tree_query_typed(c), ActionModel::Nothing)
            } else if c == 'j' {
                (self.stepped(true), ActionModel::Nothing)
            } else if c == 'k' {
                (self.stepped(false), ActionModel::Nothing)
            } else if c == 'h' {
                self.left(FollowUp::SelectFirstAndSearch)
            } else if c == 'l' {
                self.entered(FollowUp::SelectFirstAndSearch)
            } else if c == 't' {
                (
                    if self.use_tree_view {
                        self.branch_toggled()
                    } else {
                        self
                    },
                    ActionModel::Nothing,
                )
            } else if c == 'n' {
                (self.match_stepped(true), ActionModel::Nothing)
            } else if c == 'N' {
                (self.match_stepped(false), ActionModel::Nothing)
            } else if c == ' ' {
                self.completion_flipped(now, FollowUp::KeepSelectionAndSearch)
            } else {
                (
                    (SessionModel { search_input_mode: true, ..self }).tree_query_typed(c),
                    ActionModel::Nothing,
                )
            },
            Key::Down => (
                if self.search_input_mode {
                    self
                } else {
                    self.stepped(true)
                },
                ActionModel::Nothing,
            ),
            Key::Up => (
                if self.search_input_mode {
                    self
                } else {
                    self.stepped(false)
                },
                ActionModel::Nothing,
            ),
            Key::Left => if self.search_input_mode {
                (self, ActionModel::Nothing)
            } else {
                self.left(FollowUp::SelectFirstAndSearch)
            },
            Key::Right => if self.search_input_mode {
                (self, ActionModel::Nothing)
            } else {
                self.entered(FollowUp::SelectFirstAndSearch)
            },
            _ => (self, ActionModel::Nothing),
        }
    }

    /// What a key does in the search for a parent.
    pub open spec fn after_parent_search_key(self, key: Key) -> (SessionModel, ActionModel) {
        (
            match key {
                Key::Esc => SessionModel {
                    mode: AppMode::Create,
                    create_field_focus: CreateFieldFocus::Parent,
                    search_query: Seq::empty(),
                    search_results: Seq::empty(),
                    ..self
                },
                Key::Enter => match crate::session::record_at(
                    self.search_results,
                    self.search_selected,
                ) {
                    Some(t) => SessionModel {
                        selected_parent_id: Some(t.id),
                        input_parent: parent_label_text(t.id, t.title@),
                        mode: AppMode::Create,
                        create_field_focus: CreateFieldFocus::Parent,
                        ..self
                    },
                    None => self,
                },
                Key::Down | Key::Char('j') => self.result_stepped(true),
                Key::Up | Key::Char('k') => self.result_stepped(false),
                Key::Char(c) => self.list_query_typed(c),
                Key::Backspace => self.list_query_deleted(),
                _ => self,
            },
            ActionModel::Nothing,
        )
    }

    /// The state after `c` was typed into the query of the jump.
    pub open spec fn goto_query_typed(self, c: char) -> SessionModel {
        (SessionModel { goto_query: self.goto_query.push(c), ..self }).goto_updated()
    }

    /// The state after a step to the next or to the previous match of the
    /// jump.
    pub open spec fn goto_stepped(self, forward: bool) -> SessionModel {
        let stepped = self.goto.stepped(self.outline, self.tree_selected, forward);
        SessionModel { goto: stepped.0, tree_selected: stepped.1, ..self }
    }

    /// What a key does in the jump by short identifier. Only digits are
    /// taken into the query.
    pub open spec fn after_goto_key(self, key: Key, now: Timestamp) -> (SessionModel, ActionModel) {
        match key {
            Key::Esc => (
                SessionModel {
                    mode: AppMode::List,
                    goto_query: Seq::empty(),
                    goto: GotoModel::idle(),
                    search_input_mode: false,
                    ..self
                },
                ActionModel::Nothing,
            ),
            Key::Enter => (
                if self.search_input_mode {
                    (SessionModel { search_input_mode: false, ..self }).goto_updated()
                } else {
                    self.editor_requested()
                },
                ActionModel::Nothing,
            ),
            Key::Backspace => (
                if self.search_input_mode {
                    (SessionModel {
                        goto_query: without_last(self.goto_query),
                        ..self
                    }).goto_updated()
                } else {
                    self
                },
                ActionModel::Nothing,
            ),
            Key::Char(c) => if self.search_input_mode {
                (
                    if digit_value(c) is Some {
                        self.goto_query_typed(c)
                    } else {
                        self
                    },
                    ActionModel::Nothing,
                )
            } else if c == 'j' {
                (
                    if self.use_tree_view {
                        self.tree_stepped(true)
                    } else {
                        self
                    },
                    ActionModel::Nothing,
                )
            } else if c == 'k' {
                (
                    if self.use_tree_view {
                        self.tree_stepped(false)
                    } else {
                        self
                    },
                    ActionModel::Nothing,
                )
            } else if c == 'n' {
                (self.goto_stepped(true), ActionModel::Nothing)
            } else if c == 'N' {
                (self.goto_stepped(false), ActionModel::Nothing)
            } else if c == ' ' {
                self.completion_flipped(now, FollowUp::KeepSelectionAndGoto)
            } else {
                (
                    if digit_value(c) is Some {
                        (SessionModel { search_input_mode: true, ..self }).goto_query_typed(c)
                    } else {
                        self
                    },
                    ActionModel::Nothing,
                )
            },
            Key::Down => (
                if !self.search_input_mode && self.use_tree_view {
                    self.tree_stepped(true)
                } else {
                    self
                },
                ActionModel::Nothing,
            ),
            Key::Up => (
                if !self.search_input_mode && self.use_tree_view {
                    self.tree_stepped(false)
                } else {
                    self
                },
                ActionModel::Nothing,
            ),
            _ => (self, ActionModel::Nothing),
        }
    }

    /// The parent that the selection stands for while a task is being
    /// moved: the top level, a task, or nothing that could be chosen.
    pub open spec fn chosen_parent(self) -> Option<Option<i64>> {
        if self.mode == AppMode::Move && self.tree_selected == Some(0usize) {
            Some(None)
        } else {
            match self.selected_todo() {
                Some(t) => Some(Some(t.id)),
                None => None,
            }
        }
    }

    /// What a key does where a new parent is chosen. A move that would close
    /// a cycle is refused and not asked of the store.
    pub open spec fn after_move_key(self, key: Key) -> (SessionModel, ActionModel) {
        match key {
            Key::Esc | Key::Char('q') => (
                SessionModel { mode: AppMode::List, move_todo_id: None, ..self },
                ActionModel::Nothing,
            ),
            Key::Down | Key::Char('j') => (
                SessionModel {
                    tree_selected: stepped_to_next(
                        self.all_todos,
                        self.outline.lines,
                        self.move_todo_id,
                        self.mode,
                        self.tree_selected,
                    ),
                    ..self
                },
                ActionModel::Nothing,
            ),
            Key::Up | Key::Char('k') => (
                SessionModel {
                    tree_selected: stepped_to_previous(
                        self.all_todos,
                        self.outline.lines,
                        self.move_todo_id,
                        self.mode,
                        self.tree_selected,
                    ),
                    ..self
                },
                ActionModel::Nothing,
            ),
            Key::Enter => match (self.move_todo_id, self.chosen_parent()) {
                (Some(moved), Some(new_parent)) => if new_parent matches Some(parent)
                    && closes_cycle(self.all_todos, moved, parent) {
                    (
                        SessionModel {
                            error_message: Some(move_refused_text(MoveError::WouldCreateCycle)),
                            ..self
                        },
                        ActionModel::Nothing,
                    )
                } else {
                    (
                        self,
                        ActionModel::Store(
                            StoreRequestModel::Move(moved, new_parent),
                            FollowUp::AfterMove,
                        ),
                    )
                },
                _ => (self, ActionModel::Nothing),
            },
            _ => (self, ActionModel::Nothing),
        }
    }

    /// What a key does on the help page.
    pub open spec fn after_help_key(self, key: Key) -> (SessionModel, ActionModel) {
        (
            match key {
                Key::Esc | Key::Char('a') | Key::Char('q') => SessionModel {
                    mode: self.previous_mode,
                    ..self
                },
                _ => self,
            },
            ActionModel::Nothing,
        )
    }

    /// What a key press does at the instant `now`, with or without the
    /// control key held. The message of the key press before is gone. Where
    /// typed characters are no text, `a` opens the help page, control with
    /// `d` or `u` moves half a page, and, with the outline shown, `h` hides
    /// or shows the selected task, `H` shows or leaves out the hidden tasks
    /// and `g` begins a jump. Every other key goes to the mode.
    pub open spec fn after_key(self, key: Key, control: bool, now: Timestamp) -> (
        SessionModel,
        ActionModel,
    ) {
        let cleared = SessionModel { error_message: None, ..self };
        let text = cleared.mode.takes_text(cleared.search_input_mode);
        let commands = !text && cleared.mode != AppMode::Help;
        if key == Key::Char('a') && commands {
            (
                SessionModel { previous_mode: cleared.mode, mode: AppMode::Help, ..cleared },
                ActionModel::Nothing,
            )
        } else if key == Key::Char('d') && control && !text {
            (cleared.half_paged(true), ActionModel::Nothing)
        } else if key == Key::Char('u') && control && !text {
            (cleared.half_paged(false), ActionModel::Nothing)
        } else if key == Key::Char('h') && commands && cleared.use_tree_view {
            match cleared.selected_todo() {
                Some(t) => (
                    cleared,
                    ActionModel::Store(
                        StoreRequestModel::ToggleHidden(t.id),
                        FollowUp::KeepSelection,
                    ),
                ),
                None => (cleared, ActionModel::Nothing),
            }
        } else if key == Key::Char('H') && commands && cleared.use_tree_view {
            (
                SessionModel { show_hidden_items: !cleared.show_hidden_items, ..cleared },
                ActionModel::Refresh(FollowUp::KeepSelection),
            )
        } else if key == Key::Char('g') && commands && cleared.use_tree_view {
            (
                SessionModel {
                    mode: AppMode::IdModGoto,
                    goto_query: Seq::empty(),
                    goto: GotoModel::idle(),
                    search_input_mode: true,
                    ..cleared
                },
                ActionModel::Nothing,
            )
        } else {
            match cleared.mode {
                AppMode::List => cleared.after_list_key(key, now),
                AppMode::CompletedView => cleared.after_completed_view_key(key),
                AppMode::Create => cleared.after_create_key(key, now),
                AppMode::ConfirmDelete => cleared.after_delete_key(key),
                AppMode::ListFind => cleared.after_list_find_key(key),
                AppMode::TreeSearch => cleared.after_tree_search_key(key, now),
                AppMode::ParentSearch => cleared.after_parent_search_key(key),
                AppMode::Move => cleared.after_move_key(key),
                AppMode::Help => cleared.after_help_key(key),
                AppMode::IdModGoto => cleared.after_goto_key(key, now),
            }
        }
    }
}

impl Session {
    /// Steps down or up in the list of the mode.
    pub fn step_todo(&mut self, down: bool)
        ensures
            final(self)@ == old(self)@.todo_stepped(down),
    {
        let todos_len = match self.mode {
            AppMode::CompletedView => self.completed_todos.len(),
            _ => self.incomplete_todos.len(),
        };
        let selected = self.get_current_selection();
        let moved = if down {
            next_item(todos_len, selected)
        } else {
            previous_item(todos_len, selected)
        };
        self.set_current_selection(moved);
    }

    /// Steps down or up in the outline.
    pub fn step_tree_item(&mut self, down: bool)
        ensures
            final(self)@ == old(self)@.tree_stepped(down),
    {
        let lines_len = self.tree_manager.rendered_lines.len();
        self.tree_selected = if down {
            next_item(lines_len, self.tree_selected)
        } else {
            previous_item(lines_len, self.tree_selected)
        };
    }

    /// Steps in the outline where it is shown, else in the list.
    pub fn step(&mut self, down: bool)
        ensures
            final(self)@ == old(self)@.stepped(down),
    {
        if self.use_tree_view {
            self.step_tree_item(down);
        } else {
            self.step_todo(down);
        }
    }

    /// Steps down or up in the list of search results.
    pub fn step_search_result(&mut self, down: bool)
        ensures
            final(self)@ == old(self)@.result_stepped(down),
    {
        let len = self.search_results.len();
        self.search_selected = if down {
            next_item(len, self.search_selected)
        } else {
            previous_item(len, self.search_selected)
        };
    }

    /// Moves half a page down or up.
    pub fn half_page(&mut self, down: bool)
        ensures
            final(self)@ == old(self)@.half_paged(down),
    {
        if self.use_tree_view {
            let len = self.tree_manager.rendered_lines.len();
            self.tree_selected = if down {
                half_page_down(len, self.tree_selected)
            } else {
                half_page_up(len, self.tree_selected)
            };
        } else {
            let len = self.incomplete_todos.len();
            self.list_selected = if down {
                half_page_down(len, self.list_selected)
            } else {
                half_page_up(len, self.list_selected)
            };
        }
    }

    /// Opens or folds the branch on the selected row of the outline.
    pub fn toggle_selected_branch(&mut self)
        ensures
            final(self)@ == old(self)@.branch_toggled(),
    {
        match self.tree_selected {
            Some(selected) => {
                if selected < self.tree_manager.rendered_lines.len()
                    && self.tree_manager.rendered_lines[selected].has_children {
                    let todo_id = self.tree_manager.rendered_lines[selected].todo_id;
                    self.tree_manager.toggle_expansion(todo_id);
                    self.tree_selected = update_tree_selection_after_toggle(
                        self.tree_manager.rendered_lines.len(),
                        selected,
                    );
                }
            },
            None => {},
        }
    }

    /// Puts the selected task up for the editor.
    pub fn request_editor(&mut self)
        ensures
            final(self)@ == old(self)@.editor_requested(),
    {
        let pending = match self.get_selected_todo() {
            Some(todo) => Some(todo.clone()),
            None => None,
        };
        match pending {
            Some(todo) => {
                self.editor_pending = Some(todo);
            },
            None => {},
        }
    }

    /// Flips the completion of the selected task as of `now`.
    pub fn flip_completion(&mut self, now: Timestamp, follow: FollowUp) -> (action: Action)
        ensures
            (final(self)@, action@) == old(self)@.completion_flipped(now, follow),
    {
        let chosen = match self.get_selected_todo() {
            Some(todo) => Some((todo.id, todo.is_completed())),
            None => None,
        };
        match chosen {
            Some((todo_id, is_currently_completed)) => {
                if self.use_tree_view {
                    self.tree_manager.set_todo_completion(
                        todo_id,
                        if is_currently_completed {
                            None
                        } else {
                            Some(now)
                        },
                    );
                }
                if is_currently_completed {
                    Action::Store(StoreRequest::Uncomplete(todo_id), follow)
                } else {
                    Action::Store(StoreRequest::Complete(todo_id), follow)
                }
            },
            None => Action::Nothing,
        }
    }

    /// Makes the selected task the parent whose tasks are listed.
    pub fn enter_selected(&mut self, follow: FollowUp) -> (action: Action)
        ensures
            (final(self)@, action@) == old(self)@.entered(follow),
    {
        let chosen = match self.get_selected_todo() {
            Some(todo) => Some(todo.id),
            None => None,
        };
        match chosen {
            Some(todo_id) => {
                self.current_parent = Some(todo_id);
                Action::Refresh(follow)
            },
            None => Action::Nothing,
        }
    }

    /// Goes back to the list of all tasks.
    pub fn leave_parent(&mut self, follow: FollowUp) -> (action: Action)
        ensures
            (final(self)@, action@) == old(self)@.left(follow),
    {
        if self.current_parent.is_some() {
            self.current_parent = None;
            Action::Refresh(follow)
        } else {
            Action::Nothing
        }
    }

    /// Opens the form for a new task.
    pub fn open_form(&mut self)
        ensures
            final(self)@ == old(self)@.form_opened(),
    {
        self.mode = AppMode::Create;
        self.input_title = String::new();
        self.input_description = String::new();
        self.input_due_date_relative = String::new();
        self.input_due_date_absolute = String::new();
        self.create_field_focus = CreateFieldFocus::Title;
        let parent = match self.get_selected_todo() {
            Some(todo) => Some((todo.id, parent_label(todo.id, todo.title.as_str()))),
            None => None,
        };
        match parent {
            Some((todo_id, label)) => {
                self.selected_parent_id = Some(todo_id);
                self.input_parent = label;
            },
            None => {
                self.input_parent = String::new();
                self.selected_parent_id = None;
            },
        }
    }

    /// Begins the choice of a new parent for the selected task.
    pub fn begin_move(&mut self)
        ensures
            final(self)@ == old(self)@.move_begun(),
    {
        if self.use_tree_view {
            let chosen = match self.get_selected_todo() {
                Some(todo) => Some(todo.id),
                None => None,
            };
            match chosen {
                Some(todo_id) => {
                    self.move_todo_id = Some(todo_id);
                    self.mode = AppMode::Move;
                    self.tree_selected = highlight_current_parent_for_move(
                        &self.all_todos,
                        &self.tree_manager.rendered_lines,
                        self.move_todo_id,
                        self.mode,
                        self.tree_selected,
                    );
                },
                None => {},
            }
        }
    }

    /// What a key does in the list and in the outline.
    pub fn handle_list_key(&mut self, key: Key, now: Timestamp) -> (action: Action)
        ensures
            (final(self)@, action@) == old(self)@.after_list_key(key, now),
    {
        match key {
            Key::Char('q') => {
                self.should_quit = true;
                Action::Nothing
            },
            Key::Char('t') => {
                if self.use_tree_view {
                    self.toggle_selected_branch();
                } else {
                    self.use_tree_view = true;
                    if self.tree_manager.rendered_lines.len() > 0 {
                        self.tree_selected = Some(0);
                    }
                }
                Action::Nothing
            },
            Key::Char('f') => {
                self.mode = AppMode::ListFind;
                self.search_query = String::new();
                self.search_results = Vec::new();
                self.search_selected = None;
                self.search_input_mode = true;
                Action::Nothing
            },
            Key::Char('c') => {
                self.mode = AppMode::CompletedView;
                if self.completed_todos.len() > 0 && self.completed_selected.is_none() {
                    self.completed_selected = Some(0);
                }
                Action::Nothing
            },
            Key::Char('/') => {
                self.mode = AppMode::TreeSearch;
                self.search_query = String::new();
                self.tree_search.begin(&self.tree_manager);
                self.search_input_mode = true;
                Action::Nothing
            },
            Key::Char('n') => {
                self.open_form();
                Action::Nothing
            },
            Key::Char('d') => {
                if self.get_current_selection().is_some() {
                    self.mode = AppMode::ConfirmDelete;
                }
                Action::Nothing
            },
            Key::Char('m') => {
                self.begin_move();
                Action::Nothing
            },
            Key::Down | Key::Char('j') => {
                self.step(true);
                Action::Nothing
            },
            Key::Up | Key::Char('k') => {
                self.step(false);
                Action::Nothing
            },
            Key::Char(' ') => self.flip_completion(now, FollowUp::KeepSelection),
            Key::Enter => {
                self.request_editor();
                Action::Nothing
            },
            Key::Right | Key::Char('l') => self.enter_selected(FollowUp::SelectFirst),
            Key::Left | Key::Char('h') => self.leave_parent(FollowUp::SelectFirst),
            _ => Action::Nothing,
        }
    }

    /// What a key does in the view of the completed tasks.
    pub fn handle_completed_view_key(&mut self, key: Key) -> (action: Action)
        ensures
            (final(self)@, action@) == old(self)@.after_completed_view_key(key),
    {
        match key {
            Key::Esc | Key::Char('q') | Key::Char('c') => {
                self.mode = AppMode::List;
                Action::Nothing
            },
            Key::Down | Key::Char('j') => {
                self.step_todo(true);
                Action::Nothing
            },
            Key::Up | Key::Char('k') => {
                self.step_todo(false);
                Action::Nothing
            },
            Key::Enter => {
                self.request_editor();
                Action::Nothing
            },
            Key::Char(' ') => {
                match self.get_selected_todo() {
                    Some(todo) => Action::Store(
                        StoreRequest::Uncomplete(todo.id),
                        FollowUp::KeepSelection,
                    ),
                    None => Action::Nothing,
                }
            },
            _ => Action::Nothing,
        }
    }

    fn after_relative_edit(&mut self, now: Timestamp, deletion: bool) -> (action: Action)
        ensures
            (final(self)@, action@) == old(self)@.relative_edited(now, deletion),
    {
        match parse_due_date_at(self.input_due_date_relative.as_str(), now) {
            Some(due) => Action::ShowDueDate(due),
            None => {
                if deletion {
                    self.input_due_date_absolute = String::new();
                }
                Action::Nothing
            },
        }
    }

    fn after_absolute_edit(&mut self, now: Timestamp, deletion: bool)
        ensures
            final(self)@ == old(self)@.absolute_edited(now, deletion),
    {
        match parse_due_date_at(self.input_due_date_absolute.as_str(), now) {
            Some(due) => {
                self.input_due_date_relative = to_decimal(whole_days_ahead(due, now));
            },
            None => {
                if deletion {
                    self.input_due_date_relative = String::new();
                }
            },
        }
    }

    /// What a key does in the form for a new task.
    pub fn handle_create_key(&mut self, key: Key, now: Timestamp) -> (action: Action)
        ensures
            (final(self)@, action@) == old(self)@.after_create_key(key, now),
    {
        match key {
            Key::Esc => {
                self.mode = AppMode::List;
                Action::Nothing
            },
            Key::Enter => {
                match new_todo_from_form_at(
                    self.input_title.as_str(),
                    self.input_description.as_str(),
                    self.input_due_date_relative.as_str(),
                    self.input_due_date_absolute.as_str(),
                    self.selected_parent_id,
                    now,
                ) {
                    Ok(new_todo) => Action::Store(
                        StoreRequest::Create(new_todo),
                        FollowUp::AfterCreate,
                    ),
                    Err(refusal) => {
                        self.error_message = Some(refusal.message());
                        Action::Nothing
                    },
                }
            },
            Key::Tab => {
                self.create_field_focus = self.create_field_focus.next();
                Action::Nothing
            },
            Key::Char(c) => {
                match self.create_field_focus {
                    CreateFieldFocus::Title => {
                        push_char(&mut self.input_title, c);
                        Action::Nothing
                    },
                    CreateFieldFocus::DueDateRelative => {
                        push_char(&mut self.input_due_date_relative, c);
                        self.after_relative_edit(now, false)
                    },
                    CreateFieldFocus::DueDateAbsolute => {
                        push_char(&mut self.input_due_date_absolute, c);
                        self.after_absolute_edit(now, false);
                        Action::Nothing
                    },
                    CreateFieldFocus::Description => {
                        push_char(&mut self.input_description, c);
                        Action::Nothing
                    },
                    CreateFieldFocus::Parent => {
                        if c == 'r' {
                            self.input_parent = String::new();
                            self.selected_parent_id = None;
                        } else {
                            self.mode = AppMode::ParentSearch;
                            self.search_query = String::new();
                            push_char(&mut self.search_query, c);
                            proof {
                                assert(self.search_query@ =~= seq![c]);
                            }
                            self.update_search_results();
                        }
                        Action::Nothing
                    },
                }
            },
            Key::Backspace => {
                match self.create_field_focus {
                    CreateFieldFocus::Title => {
                        pop_char(&mut self.input_title);
                        Action::Nothing
                    },
                    CreateFieldFocus::DueDateRelative => {
                        pop_char(&mut self.input_due_date_relative);
                        self.after_relative_edit(now, true)
                    },
                    CreateFieldFocus::DueDateAbsolute => {
                        pop_char(&mut self.input_due_date_absolute);
                        self.after_absolute_edit(now, true);
                        Action::Nothing
                    },
                    CreateFieldFocus::Description => {
                        pop_char(&mut self.input_description);
                        Action::Nothing
                    },
                    CreateFieldFocus::Parent => {
                        self.input_parent = String::new();
                        self.selected_parent_id = None;
                        Action::Nothing
                    },
                }
            },
            _ => Action::Nothing,
        }
    }

    /// What a key does where a deletion waits to be confirmed.
    pub fn handle_delete_key(&mut self, key: Key) -> (action: Action)
        ensures
            (final(self)@, action@) == old(self)@.after_delete_key(key),
    {
        match key {
            Key::Char('y') => {
                let chosen = match self.get_selected_todo() {
                    Some(todo) => Some(todo.id),
                    None => None,
                };
                self.mode = AppMode::List;
                match chosen {
                    Some(todo_id) => {
                        if self.has_children(todo_id) {
                            self.error_message = Some(
                                String::from_str(
                                    "Cannot delete: task has children. Delete children first.",
                                ),
                            );
                            Action::Nothing
                        } else {
                            Action::Store(StoreRequest::Delete(todo_id), FollowUp::KeepSelection)
                        }
                    },
                    None => Action::Nothing,
                }
            },
            Key::Char('n') | Key::Esc => {
                self.mode = AppMode::List;
                Action::Nothing
            },
            _ => Action::Nothing,
        }
    }

    fn type_list_query(&mut self, c: char)
        ensures
            final(self)@ == old(self)@.list_query_typed(c),
    {
        push_char(&mut self.search_query, c);
        self.update_search_results();
    }

    fn delete_list_query(&mut self)
        ensures
            final(self)@ == old(self)@.list_query_deleted(),
    {
        pop_char(&mut self.search_query);
        self.update_search_results();
    }

    /// What a key does in the flat search.
    pub fn handle_list_find_key(&mut self, key: Key) -> (action: Action)
        ensures
            (final(self)@, action@) == old(self)@.after_list_find_key(key),
    {
        match key {
            Key::Esc => {
                self.mode = AppMode::List;
                self.search_query = String::new();
                self.search_results = Vec::new();
                self.search_input_mode = false;
            },
            Key::Enter => {
                if self.search_input_mode {
                    self.search_input_mode = false;
                    self.update_search_results();
                } else {
                    self.request_editor();
                }
            },
            Key::Backspace => {
                if self.search_input_mode {
                    self.delete_list_query();
                }
            },
            Key::Char(c) => {
                if self.search_input_mode {
                    self.type_list_query(c);
                } else if c == 'j' {
                    self.step_search_result(true);
                } else if c == 'k' {
                    self.step_search_result(false);
                } else {
                    self.search_input_mode = true;
                    self.type_list_query(c);
                }
            },
            Key::Down => {
                if !self.search_input_mode {
                    self.step_search_result(true);
                }
            },
            Key::Up => {
                if !self.search_input_mode {
                    self.step_search_result(false);
                }
            },
            _ => {},
        }
        Action::Nothing
    }

    fn type_tree_query(&mut self, c: char)
        ensures
            final(self)@ == old(self)@.tree_query_typed(c),
    {
        push_char(&mut self.search_query, c);
        self.update_tree_search_matches();
    }

    /// Ends the search in the outline.
    pub fn end_tree_search(&mut self)
        ensures
            final(self)@ == old(self)@.tree_search_ended(),
    {
        self.mode = AppMode::List;
        self.search_query = String::new();
        self.search_input_mode = false;
        self.tree_search.end(&mut self.tree_manager, self.show_hidden_items);
    }

    /// Steps to the next or to the previous match of the search.
    pub fn step_match(&mut self, forward: bool)
        ensures
            final(self)@ == old(self)@.match_stepped(forward),
    {
        let mut selection = self.tree_selected;
        if forward {
            self.tree_search.navigate_to_next_match(&mut self.tree_manager, &mut selection);
        } else {
            self.tree_search.navigate_to_previous_match(&mut self.tree_manager, &mut selection);
        }
        self.tree_selected = selection;
    }

    /// What a key does in the search in the outline.
    pub fn handle_tree_search_key(&mut self, key: Key, now: Timestamp) -> (action: Action)
        ensures
            (final(self)@, action@) == old(self)@.after_tree_search_key(key, now),
    {
        match key {
            Key::Esc => {
                self.end_tree_search();
                Action::Nothing
            },
            Key::Enter => {
                if self.search_input_mode {
                    self.search_input_mode = false;
                    self.update_tree_search_matches();
                } else {
                    self.request_editor();
                }
                Action::Nothing
            },
            Key::Backspace => {
                if self.search_input_mode {
                    pop_char(&mut self.search_query);
                    self.update_tree_search_matches();
                }
                Action::Nothing
            },
            Key::Char(c) => {
                if self.search_input_mode {
                    self.type_tree_query(c);
                    Action::Nothing
                } else if c == 'j' {
                    self.step(true);
                    Action::Nothing
                } else if c == 'k' {
                    self.step(false);
                    Action::Nothing
                } else if c == 'h' {
                    self.leave_parent(FollowUp::SelectFirstAndSearch)
                } else if c == 'l' {
                    self.enter_selected(FollowUp::SelectFirstAndSearch)
                } else if c == 't' {
                    if self.use_tree_view {
                        self.toggle_selected_branch();
                    }
                    Action::Nothing
                } else if c == 'n' {
                    self.step_match(true);
                    Action::Nothing
                } else if c == 'N' {
                    self.step_match(false);
                    Action::Nothing
                } else if c == ' ' {
                    self.flip_completion(now, FollowUp::KeepSelectionAndSearch)
                } else {
                    self.search_input_mode = true;
                    self.type_tree_query(c);
                    Action::Nothing
                }
            },
            Key::Down => {
                if !self.search_input_mode {
                    self.step(true);
                }
                Action::Nothing
            },
            Key::Up => {
                if !self.search_input_mode {
                    self.step(false);
                }
                Action::Nothing
            },
            Key::Left => {
                if self.search_input_mode {
                    Action::Nothing
                } else {
                    self.leave_parent(FollowUp::SelectFirstAndSearch)
                }
            },
            Key::Right => {
                if self.search_input_mode {
                    Action::Nothing
                } else {
                    self.enter_selected(FollowUp::SelectFirstAndSearch)
                }
            },
            _ => Action::Nothing,
        }
    }

    /// What a key does in the search for a parent.
    pub fn handle_parent_search_key(&mut self, key: Key) -> (action: Action)
        ensures
            (final(self)@, action@) == old(self)@.after_parent_search_key(key),
    {
        match key {
            Key::Esc => {
                self.mode = AppMode::Create;
                self.create_field_focus = CreateFieldFocus::Parent;
                self.search_query = String::new();
                self.search_results = Vec::new();
            },
            Key::Enter => {
                let chosen = match self.search_selected {
                    Some(selected) => if selected < self.search_results.len() {
                        let todo = &self.search_results[selected];
                        Some((todo.id, parent_label(todo.id, todo.title.as_str())))
                    } else {
                        None
                    },
                    None => None,
                };
                match chosen {
                    Some((todo_id, label)) => {
                        self.selected_parent_id = Some(todo_id);
                        self.input_parent = label;
                        self.mode = AppMode::Create;
                        self.create_field_focus = CreateFieldFocus::Parent;
                    },
                    None => {},
                }
            },
            Key::Down | Key::Char('j') => {
                self.step_search_result(true);
            },
            Key::Up | Key::Char('k') => {
                self.step_search_result(false);
            },
            Key::Char(c) => {
                self.type_list_query(c);
            },
            Key::Backspace => {
                self.delete_list_query();
            },
            _ => {},
        }
        Action::Nothing
    }

    fn type_goto_query(&mut self, c: char)
        ensures
            final(self)@ == old(self)@.goto_query_typed(c),
    {
        push_char(&mut self.goto_query, c);
        self.update_goto_matches();
    }

    /// Steps to the next or to the previous match of the jump.
    pub fn step_goto(&mut self, forward: bool)
        ensures
            final(self)@ == old(self)@.goto_stepped(forward),
    {
        let mut selection = self.tree_selected;
        if forward {
            self.goto.navigate_to_next_goto_match(&self.tree_manager, &mut selection);
        } else {
            self.goto.navigate_to_previous_goto_match(&self.tree_manager, &mut selection);
        }
        self.tree_selected = selection;
    }

    /// What a key does in the jump by short identifier.
    pub fn handle_idmod_goto_key(&mut self, key: Key, now: Timestamp) -> (action: Action)
        ensures
            (final(self)@, action@) == old(self)@.after_goto_key(key, now),
    {
        match key {
            Key::Esc => {
                self.mode = AppMode::List;
                self.goto_query = String::new();
                self.goto.clear();
                self.search_input_mode = false;
                Action::Nothing
            },
            Key::Enter => {
                if self.search_input_mode {
                    self.search_input_mode = false;
                    self.update_goto_matches();
                } else {
                    self.request_editor();
                }
                Action::Nothing
            },
            Key::Backspace => {
                if self.search_input_mode {
                    pop_char(&mut self.goto_query);
                    self.update_goto_matches();
                }
                Action::Nothing
            },
            Key::Char(c) => {
                if self.search_input_mode {
                    if is_digit(c) {
                        self.type_goto_query(c);
                    }
                    Action::Nothing
                } else if c == 'j' {
                    if self.use_tree_view {
                        self.step_tree_item(true);
                    }
                    Action::Nothing
                } else if c == 'k' {
                    if self.use_tree_view {
                        self.step_tree_item(false);
                    }
                    Action::Nothing
                } else if c == 'n' {
                    self.step_goto(true);
                    Action::Nothing
                } else if c == 'N' {
                    self.step_goto(false);
                    Action::Nothing
                } else if c == ' ' {
                    self.flip_completion(now, FollowUp::KeepSelectionAndGoto)
                } else {
                    if is_digit(c) {
                        self.search_input_mode = true;
                        self.type_goto_query(c);
                    }
                    Action::Nothing
                }
            },
            Key::Down => {
                if !self.search_input_mode && self.use_tree_view {
                    self.step_tree_item(true);
                }
                Action::Nothing
            },
            Key::Up => {
                if !self.search_input_mode && self.use_tree_view {
                    self.step_tree_item(false);
                }
                Action::Nothing
            },
            _ => Action::Nothing,
        }
    }

    /// The parent that the selection stands for while a task is being moved.
    pub fn get_chosen_parent(&self) -> (chosen: Option<Option<i64>>)
        ensures
            chosen == self@.chosen_parent(),
    {
        if is_highlighting_root_position(self.mode, self.tree_selected) {
            Some(None)
        } else {
            match self.get_selected_todo() {
                Some(todo) => Some(Some(todo.id)),
                None => None,
            }
        }
    }

    /// What a key does where a new parent is chosen.
    pub fn handle_move_key(&mut self, key: Key) -> (action: Action)
        ensures
            (final(self)@, action@) == old(self)@.after_move_key(key),
    {
        match key {
            Key::Esc | Key::Char('q') => {
                self.mode = AppMode::List;
                self.move_todo_id = None;
                Action::Nothing
            },
            Key::Down | Key::Char('j') => {
                self.tree_selected = move_to_next_valid_parent(
                    &self.all_todos,
                    &self.tree_manager.rendered_lines,
                    self.move_todo_id,
                    self.mode,
                    self.tree_selected,
                );
                Action::Nothing
            },
            Key::Up | Key::Char('k') => {
                self.tree_selected = move_to_previous_valid_parent(
                    &self.all_todos,
                    &self.tree_manager.rendered_lines,
                    self.move_todo_id,
                    self.mode,
                    self.tree_selected,
                );
                Action::Nothing
            },
            Key::Enter => {
                match (self.move_todo_id, self.get_chosen_parent()) {
                    (Some(moved), Some(new_parent)) => {
                        match authorize_move(&self.all_todos, moved, new_parent) {
                            Ok(_) => Action::Store(
                                StoreRequest::Move(moved, new_parent),
                                FollowUp::AfterMove,
                            ),
                            Err(refusal) => {
                                let mut message = String::from_str("Cannot move todo: ");
                                let reason = refusal.message();
                                message.append(reason.as_str());
                                self.error_message = Some(message);
                                Action::Nothing
                            },
                        }
                    },
                    _ => Action::Nothing,
                }
            },
            _ => Action::Nothing,
        }
    }

    /// What a key does on the help page.
    pub fn handle_help_key(&mut self, key: Key) -> (action: Action)
        ensures
            (final(self)@, action@) == old(self)@.after_help_key(key),
    {
        match key {
            Key::Esc | Key::Char('a') | Key::Char('q') => {
                self.mode = self.previous_mode;
            },
            _ => {},
        }
        Action::Nothing
    }

    /// Takes a key press at the instant `now`, with or without the control
    /// key held, and says what the host is to do for it.
    pub fn handle_key_event(&mut self, key: Key, control: bool, now: Timestamp) -> (action: Action)
        ensures
            (final(self)@, action@) == old(self)@.after_key(key, control, now),
    {
        self.error_message = None;
        let is_in_text_input_mode = self.mode.is_text_input(self.search_input_mode);
        let in_help = match self.mode {
            AppMode::Help => true,
            _ => false,
        };
        let commands = !is_in_text_input_mode && !in_help;
        match key {
            Key::Char('a') => {
                if commands {
                    self.previous_mode = self.mode;
                    self.mode = AppMode::Help;
                    return Action::Nothing;
                }
            },
            Key::Char('d') => {
                if control && !is_in_text_input_mode {
                    self.half_page(true);
                    return Action::Nothing;
                }
            },
            Key::Char('u') => {
                if control && !is_in_text_input_mode {
                    self.half_page(false);
                    return Action::Nothing;
                }
            },
            Key::Char('h') => {
                if commands && self.use_tree_view {
                    return match self.get_selected_todo() {
                        Some(todo) => Action::Store(
                            StoreRequest::ToggleHidden(todo.id),
                            FollowUp::KeepSelection,
                        ),
                        None => Action::Nothing,
                    };
                }
            },
            Key::Char('H') => {
                if commands && self.use_tree_view {
                    self.show_hidden_items = !self.show_hidden_items;
                    return Action::Refresh(FollowUp::KeepSelection);
                }
            },
            Key::Char('g') => {
                if commands && self.use_tree_view {
                    self.mode = AppMode::IdModGoto;
                    self.goto_query = String::new();
                    self.goto.clear();
                    self.search_input_mode = true;
                    return Action::Nothing;
                }
            },
            _ => {},
        }
        match self.mode {
            AppMode::List => self.handle_list_key(key, now),
            AppMode::CompletedView => self.handle_completed_view_key(key),
            AppMode::Create => self.handle_create_key(key, now),
            AppMode::ConfirmDelete => self.handle_delete_key(key),
            AppMode::ListFind => self.handle_list_find_key(key),
            AppMode::TreeSearch => self.handle_tree_search_key(key, now),
            AppMode::ParentSearch => self.handle_parent_search_key(key),
            AppMode::Move => self.handle_move_key(key),
            AppMode::Help => self.handle_help_key(key),
            AppMode::IdModGoto => self.handle_idmod_goto_key(key, now),
        }
    }
}

} // verus!
