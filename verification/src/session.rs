//! The state of the interface between two key presses, and what it asks of
//! its host: the host holds the store and the screen, performs what is asked,
//! and hands back the records of the store.

use crate::cursor::{kept_in_range, update_selection_after_refresh};
use crate::forest::has_child;
use crate::goto::{GotoModel, IdModGoto};
use crate::hierarchy::{find, find_todo};
use crate::modes::{AppMode, CreateFieldFocus, Cursor};
use crate::move_mode::selected_tree_row;
use crate::order::{completed_latest_first, get_all_completed_todos};
use crate::search::{hits_of, marked, search_todos};
use crate::todo::{clone_todos, same_parent, NewTodo, Timestamp, Todo};
use crate::tree::{line_views, OutlineModel, TodoTreeManager};
use crate::tree_search::{TreeSearch, TreeSearchModel};
use vstd::prelude::*;
use vstd::string::*;

verus! {

/// A key as the interface knows it.
#[derive(Clone, Copy, Debug, PartialEq, Eq, Structural)]
pub enum Key {
    Char(char),
    Enter,
    Esc,
    Tab,
    Backspace,
    Up,
    Down,
    Left,
    Right,
    /// Any other key.
    Other,
}

/// A change that the host is to make in the store.
#[derive(Debug, PartialEq, Eq)]
pub enum StoreRequest {
    /// Hide the task if it is shown, show it if it is hidden.
    ToggleHidden(i64),
    /// Mark the task completed as of now.
    Complete(i64),
    /// Mark the task not completed.
    Uncomplete(i64),
    /// Create the task.
    Create(NewTodo),
    /// Delete the task.
    Delete(i64),
    /// Put the task under the given parent, or at the top level.
    Move(i64, Option<i64>),
}

/// How a key press is to be finished once the records have been read anew.
#[derive(Clone, Copy, Debug, PartialEq, Eq, Structural)]
pub enum FollowUp {
    /// Nothing further.
    Nothing,
    /// Bring the selection back into range.
    KeepSelection,
    /// Bring the selection back into range, then search again.
    KeepSelectionAndSearch,
    /// Bring the selection back into range, then look for the jump again.
    KeepSelectionAndGoto,
    /// Select the first row if there are incomplete tasks.
    SelectFirst,
    /// Search again, then select the first row if there are incomplete tasks.
    SelectFirstAndSearch,
    /// Leave the form for a new task and empty it.
    AfterCreate,
    /// Leave the choice of a new parent.
    AfterMove,
}

/// What a key press asks of the host.
#[derive(Debug, PartialEq, Eq)]
pub enum Action {
    /// Nothing.
    Nothing,
    /// Read the records anew and finish as told.
    Refresh(FollowUp),
    /// Make the change in the store, read the records anew and finish as
    /// told.
    Store(StoreRequest, FollowUp),
    /// Write the instant, in local time, into the field for the due date.
    ShowDueDate(Timestamp),
}

/// What the store needs to create a task, as a mathematical value.
pub struct NewTodoModel {
    pub title: Seq<char>,
    pub description: Seq<char>,
    pub parent_id: Option<i64>,
    pub due_by: Option<Timestamp>,
}

impl View for NewTodo {
    type V = NewTodoModel;

    open spec fn view(&self) -> NewTodoModel {
        NewTodoModel {
            title: self.title@,
            description: self.description@,
            parent_id: self.parent_id,
            due_by: self.due_by,
        }
    }
}

/// A change in the store as a mathematical value.
pub enum StoreRequestModel {
    ToggleHidden(i64),
    Complete(i64),
    Uncomplete(i64),
    Create(NewTodoModel),
    Delete(i64),
    Move(i64, Option<i64>),
}

impl View for StoreRequest {
    type V = StoreRequestModel;

    open spec fn view(&self) -> StoreRequestModel {
        match self {
            StoreRequest::ToggleHidden(id) => StoreRequestModel::ToggleHidden(*id),
            StoreRequest::Complete(id) => StoreRequestModel::Complete(*id),
            StoreRequest::Uncomplete(id) => StoreRequestModel::Uncomplete(*id),
            StoreRequest::Create(todo) => StoreRequestModel::Create(todo@),
            StoreRequest::Delete(id) => StoreRequestModel::Delete(*id),
            StoreRequest::Move(id, parent) => StoreRequestModel::Move(*id, *parent),
        }
    }
}

/// What a key press asks of the host, as a mathematical value.
pub enum ActionModel {
    Nothing,
    Refresh(FollowUp),
    Store(StoreRequestModel, FollowUp),
    ShowDueDate(Timestamp),
}

impl View for Action {
    type V = ActionModel;

    open spec fn view(&self) -> ActionModel {
        match self {
            Action::Nothing => ActionModel::Nothing,
            Action::Refresh(follow) => ActionModel::Refresh(*follow),
            Action::Store(request, follow) => ActionModel::Store(request@, *follow),
            Action::ShowDueDate(instant) => ActionModel::ShowDueDate(*instant),
        }
    }
}

/// The state of the interface.
pub struct Session {
    /// All records of the store as they were read last.
    pub all_todos: Vec<Todo>,
    pub incomplete_todos: Vec<Todo>,
    pub completed_todos: Vec<Todo>,
    pub tree_manager: TodoTreeManager,
    pub list_selected: Option<usize>,
    pub tree_selected: Option<usize>,
    pub completed_selected: Option<usize>,
    pub search_selected: Option<usize>,
    pub mode: AppMode,
    pub previous_mode: AppMode,
    pub input_title: String,
    pub input_description: String,
    pub input_due_date_relative: String,
    pub input_due_date_absolute: String,
    pub current_parent: Option<i64>,
    pub should_quit: bool,
    pub error_message: Option<String>,
    pub search_query: String,
    pub search_results: Vec<Todo>,
    pub tree_search: TreeSearch,
    pub input_parent: String,
    pub selected_parent_id: Option<i64>,
    pub create_field_focus: CreateFieldFocus,
    pub use_tree_view: bool,
    pub search_input_mode: bool,
    pub move_todo_id: Option<i64>,
    pub editor_pending: Option<Todo>,
    pub show_hidden_items: bool,
    pub goto_query: String,
    pub goto: IdModGoto,
}

/// The state of the interface as a mathematical value.
pub struct SessionModel {
    pub all_todos: Seq<Todo>,
    pub incomplete_todos: Seq<Todo>,
    pub completed_todos: Seq<Todo>,
    pub outline: OutlineModel,
    pub list_selected: Option<usize>,
    pub tree_selected: Option<usize>,
    pub completed_selected: Option<usize>,
    pub search_selected: Option<usize>,
    pub mode: AppMode,
    pub previous_mode: AppMode,
    pub input_title: Seq<char>,
    pub input_description: Seq<char>,
    pub input_due_date_relative: Seq<char>,
    pub input_due_date_absolute: Seq<char>,
    pub current_parent: Option<i64>,
    pub should_quit: bool,
    pub error_message: Option<Seq<char>>,
    pub search_query: Seq<char>,
    pub search_results: Seq<Todo>,
    pub tree_search: TreeSearchModel,
    pub input_parent: Seq<char>,
    pub selected_parent_id: Option<i64>,
    pub create_field_focus: CreateFieldFocus,
    pub use_tree_view: bool,
    pub search_input_mode: bool,
    pub move_todo_id: Option<i64>,
    pub editor_pending: Option<Todo>,
    pub show_hidden_items: bool,
    pub goto_query: Seq<char>,
    pub goto: GotoModel,
}

impl View for Session {
    type V = SessionModel;

    open spec fn view(&self) -> SessionModel {
        SessionModel {
            all_todos: self.all_todos@,
            incomplete_todos: self.incomplete_todos@,
            completed_todos: self.completed_todos@,
            outline: self.tree_manager@,
            list_selected: self.list_selected,
            tree_selected: self.tree_selected,
            completed_selected: self.completed_selected,
            search_selected: self.search_selected,
            mode: self.mode,
            previous_mode: self.previous_mode,
            input_title: self.input_title@,
            input_description: self.input_description@,
            input_due_date_relative: self.input_due_date_relative@,
            input_due_date_absolute: self.input_due_date_absolute@,
            current_parent: self.current_parent,
            should_quit: self.should_quit,
            error_message: match self.error_message {
                Some(message) => Some(message@),
                None => None,
            },
            search_query: self.search_query@,
            search_results: self.search_results@,
            tree_search: self.tree_search@,
            input_parent: self.input_parent@,
            selected_parent_id: self.selected_parent_id,
            create_field_focus: self.create_field_focus,
            use_tree_view: self.use_tree_view,
            search_input_mode: self.search_input_mode,
            move_todo_id: self.move_todo_id,
            editor_pending: self.editor_pending,
            show_hidden_items: self.show_hidden_items,
            goto_query: self.goto_query@,
            goto: self.goto@,
        }
    }
}

/// The incomplete tasks under `parent`, or all incomplete tasks where no
/// parent is given, in the order of `all`.
pub open spec fn incomplete_under(all: Seq<Todo>, parent: Option<i64>) -> Seq<Todo>
    decreases all.len(),
{
    if all.len() == 0 {
        Seq::empty()
    } else {
        let before = incomplete_under(all.drop_last(), parent);
        let t = all.last();
        if !t.completed() && (parent is None || t.parent_id == parent) {
            before.push(t)
        } else {
            before
        }
    }
}

/// The record at position `at` of `todos`, if there is one.
pub open spec fn record_at(todos: Seq<Todo>, at: Option<usize>) -> Option<Todo> {
    match at {
        Some(i) => if i < todos.len() {
            Some(todos[i as int])
        } else {
            None
        },
        None => None,
    }
}

impl SessionModel {
    /// The state in which the interface begins.
    pub open spec fn initial() -> SessionModel {
        SessionModel {
            all_todos: Seq::empty(),
            incomplete_todos: Seq::empty(),
            completed_todos: Seq::empty(),
            outline: (OutlineModel {
                todos: Seq::empty(),
                expansion: Map::empty(),
                tree: Seq::empty(),
                lines: Seq::empty(),
                index: Map::empty(),
            }),
            list_selected: None,
            tree_selected: None,
            completed_selected: None,
            search_selected: None,
            mode: AppMode::List,
            previous_mode: AppMode::List,
            input_title: Seq::empty(),
            input_description: Seq::empty(),
            input_due_date_relative: Seq::empty(),
            input_due_date_absolute: Seq::empty(),
            current_parent: None,
            should_quit: false,
            error_message: None,
            search_query: Seq::empty(),
            search_results: Seq::empty(),
            tree_search: TreeSearchModel::idle(),
            input_parent: Seq::empty(),
            selected_parent_id: None,
            create_field_focus: CreateFieldFocus::Title,
            use_tree_view: true,
            search_input_mode: false,
            move_todo_id: None,
            editor_pending: None,
            show_hidden_items: false,
            goto_query: Seq::empty(),
            goto: GotoModel::idle(),
        }
    }

    /// The selection of the cursor that the mode works with.
    pub open spec fn current_selection(self) -> Option<usize> {
        match self.mode.cursor_of(self.use_tree_view) {
            Cursor::Completed => self.completed_selected,
            Cursor::Tree => self.tree_selected,
            Cursor::List => self.list_selected,
        }
    }

    /// The state with the selection of the mode's cursor set.
    pub open spec fn with_current_selection(self, selected: Option<usize>) -> SessionModel {
        match self.mode.cursor_of(self.use_tree_view) {
            Cursor::Completed => SessionModel { completed_selected: selected, ..self },
            Cursor::Tree => SessionModel { tree_selected: selected, ..self },
            Cursor::List => SessionModel { list_selected: selected, ..self },
        }
    }

    /// How many tasks the list of the mode holds: the completed ones in
    /// their view, else the incomplete ones.
    pub open spec fn current_todos(self) -> Seq<Todo> {
        if self.mode == AppMode::CompletedView {
            self.completed_todos
        } else {
            self.incomplete_todos
        }
    }

    /// How many rows the cursor of the mode moves over.
    pub open spec fn current_len(self) -> int {
        match self.mode.cursor_of(self.use_tree_view) {
            Cursor::Completed => self.completed_todos.len() as int,
            Cursor::Tree => self.outline.lines.len() as int,
            Cursor::List => self.incomplete_todos.len() as int,
        }
    }

    /// The task that is selected: in the list of search results, in the list
    /// of completed tasks, on the row of the outline, or in the list of
    /// incomplete tasks, as the mode has it.
    pub open spec fn selected_todo(self) -> Option<Todo> {
        if self.mode == AppMode::ListFind {
            record_at(self.search_results, self.search_selected)
        } else if self.mode == AppMode::CompletedView {
            record_at(self.completed_todos, self.completed_selected)
        } else if self.use_tree_view {
            let row = match self.tree_selected {
                Some(index) => if self.mode == AppMode::Move {
                    if index == 0 {
                        None
                    } else {
                        Some((index - 1) as usize)
                    }
                } else {
                    Some(index)
                },
                None => None,
            };
            match row {
                Some(at) => if at < self.outline.lines.len() {
                    find(self.outline.todos, self.outline.lines[at as int].todo_id)
                } else {
                    None
                },
                None => None,
            }
        } else {
            record_at(self.incomplete_todos, self.list_selected)
        }
    }

    /// The state after the records have been read anew: the lists and the
    /// outline are made from them, and the first row of the outline is
    /// selected if none was.
    pub open spec fn refreshed(self, all: Seq<Todo>) -> SessionModel {
        let outline = self.outline.rebuilt(all, self.show_hidden_items);
        SessionModel {
            all_todos: all,
            incomplete_todos: incomplete_under(all, self.current_parent),
            completed_todos: completed_latest_first(all),
            outline,
            tree_selected: if outline.lines.len() > 0 && self.tree_selected is None {
                Some(0usize)
            } else {
                self.tree_selected
            },
            ..self
        }
    }

    /// The state with the selection of the mode's cursor brought back into
    /// range.
    pub open spec fn selection_kept(self) -> SessionModel {
        self.with_current_selection(kept_in_range(self.current_len(), self.current_selection()))
    }

    /// The state after the corpus was searched for the query of the outline.
    pub open spec fn tree_searched(self) -> SessionModel {
        let searched = self.tree_search.searched(
            self.outline,
            self.tree_selected,
            self.search_query,
            self.all_todos,
        );
        SessionModel { tree_search: searched.0, tree_selected: searched.1, ..self }
    }

    /// The state after the rows were looked through for the jump.
    pub open spec fn goto_updated(self) -> SessionModel {
        let updated = self.goto.updated(self.outline, self.tree_selected, self.goto_query);
        SessionModel { goto: updated.0, tree_selected: updated.1, ..self }
    }

    /// The state after the corpus was searched for the query of the flat
    /// search: the first result is selected if there is one.
    pub open spec fn list_searched(self) -> SessionModel {
        let results = marked(self.all_todos, hits_of(self.search_query, self.all_todos));
        SessionModel {
            search_results: results,
            search_selected: if results.len() > 0 {
                Some(0usize)
            } else {
                None
            },
            ..self
        }
    }

    /// The state with the first row selected, if there are incomplete tasks.
    pub open spec fn first_selected(self) -> SessionModel {
        if self.incomplete_todos.len() > 0 {
            SessionModel {
                list_selected: Some(0usize),
                tree_selected: if self.use_tree_view {
                    Some(0usize)
                } else {
                    self.tree_selected
                },
                ..self
            }
        } else {
            self
        }
    }

    /// The state with the form for a new task emptied and left.
    pub open spec fn form_left(self) -> SessionModel {
        SessionModel {
            mode: AppMode::List,
            input_title: Seq::empty(),
            input_parent: Seq::empty(),
            input_description: Seq::empty(),
            input_due_date_relative: Seq::empty(),
            input_due_date_absolute: Seq::empty(),
            selected_parent_id: None,
            create_field_focus: CreateFieldFocus::Title,
            ..self
        }
    }

    /// The state once the host has done what was asked and has read the
    /// records anew.
    pub open spec fn finished(self, follow: FollowUp, all: Seq<Todo>) -> SessionModel {
        let fresh = self.refreshed(all);
        match follow {
            FollowUp::Nothing => fresh,
            FollowUp::KeepSelection => fresh.selection_kept(),
            FollowUp::KeepSelectionAndSearch => fresh.selection_kept().tree_searched(),
            FollowUp::KeepSelectionAndGoto => fresh.selection_kept().goto_updated(),
            FollowUp::SelectFirst => fresh.first_selected(),
            FollowUp::SelectFirstAndSearch => fresh.tree_searched().first_selected(),
            FollowUp::AfterCreate => fresh.form_left(),
            FollowUp::AfterMove => SessionModel {
                mode: AppMode::List,
                move_todo_id: None,
                ..fresh
            },
        }
    }
}

/// The incomplete tasks under `parent`, or all incomplete tasks where no
/// parent is given.
pub fn get_incomplete_todos(all: &Vec<Todo>, parent: Option<i64>) -> (incomplete: Vec<Todo>)
    ensures
        incomplete@ == incomplete_under(all@, parent),
{
    let mut incomplete: Vec<Todo> = Vec::new();
    let mut i: usize = 0;
    proof {
        assert(all@.take(0) =~= Seq::<Todo>::empty());
    }
    while i < all.len()
        invariant
            i <= all.len(),
            incomplete@ == incomplete_under(all@.take(i as int), parent),
        decreases all.len() - i,
    {
        proof {
            assert(all@.take(i + 1).drop_last() =~= all@.take(i as int));
        }
        if !all[i].is_completed() && (parent.is_none() || same_parent(all[i].parent_id, parent)) {
            incomplete.push(all[i].clone());
        }
        i += 1;
    }
    proof {
        assert(all@.take(all.len() as int) =~= all@);
    }
    incomplete
}

impl Session {
    /// The state in which the interface begins: nothing read yet, the
    /// outline shown, hidden tasks left out.
    pub fn new() -> (session: Self)
        ensures
            session@ == SessionModel::initial(),
    {
        let session = Session {
            all_todos: Vec::new(),
            incomplete_todos: Vec::new(),
            completed_todos: Vec::new(),
            tree_manager: TodoTreeManager::new(),
            list_selected: None,
            tree_selected: None,
            completed_selected: None,
            search_selected: None,
            mode: AppMode::List,
            previous_mode: AppMode::List,
            input_title: String::new(),
            input_description: String::new(),
            input_due_date_relative: String::new(),
            input_due_date_absolute: String::new(),
            current_parent: None,
            should_quit: false,
            error_message: None,
            search_query: String::new(),
            search_results: Vec::new(),
            tree_search: TreeSearch::new(),
            input_parent: String::new(),
            selected_parent_id: None,
            create_field_focus: CreateFieldFocus::Title,
            use_tree_view: true,
            search_input_mode: false,
            move_todo_id: None,
            editor_pending: None,
            show_hidden_items: false,
            goto_query: String::new(),
            goto: IdModGoto::new(),
        };
        proof {
            assert(line_views(session.tree_manager.rendered_lines@) =~= Seq::<
                crate::outline::LineView,
            >::empty());
            assert(crate::tree::shapes(session.tree_manager.tree@) =~= Seq::<
                crate::forest::TreeShape,
            >::empty());
        }
        session
    }

    /// The selection of the cursor that the mode works with.
    pub fn get_current_selection(&self) -> (selected: Option<usize>)
        ensures
            selected == self@.current_selection(),
    {
        match self.mode.cursor(self.use_tree_view) {
            Cursor::Completed => self.completed_selected,
            Cursor::Tree => self.tree_selected,
            Cursor::List => self.list_selected,
        }
    }

    /// Sets the selection of the cursor that the mode works with.
    pub fn set_current_selection(&mut self, selected: Option<usize>)
        ensures
            final(self)@ == old(self)@.with_current_selection(selected),
    {
        match self.mode.cursor(self.use_tree_view) {
            Cursor::Completed => {
                self.completed_selected = selected;
            },
            Cursor::Tree => {
                self.tree_selected = selected;
            },
            Cursor::List => {
                self.list_selected = selected;
            },
        }
    }

    /// How many rows the cursor of the mode moves over.
    pub fn get_current_len(&self) -> (len: usize)
        ensures
            len == self@.current_len(),
    {
        match self.mode.cursor(self.use_tree_view) {
            Cursor::Completed => self.completed_todos.len(),
            Cursor::Tree => self.tree_manager.rendered_lines.len(),
            Cursor::List => self.incomplete_todos.len(),
        }
    }

    /// The task that is selected, as the mode has it.
    pub fn get_selected_todo(&self) -> (selected: Option<&Todo>)
        ensures
            match selected {
                Some(t) => self@.selected_todo() == Some(*t),
                None => self@.selected_todo() is None,
            },
    {
        match self.mode {
            AppMode::ListFind => {
                match self.search_selected {
                    Some(i) => if i < self.search_results.len() {
                        Some(&self.search_results[i])
                    } else {
                        None
                    },
                    None => None,
                }
            },
            AppMode::CompletedView => {
                match self.completed_selected {
                    Some(i) => if i < self.completed_todos.len() {
                        Some(&self.completed_todos[i])
                    } else {
                        None
                    },
                    None => None,
                }
            },
            _ => {
                if self.use_tree_view {
                    match selected_tree_row(self.mode, self.tree_selected) {
                        Some(at) => if at < self.tree_manager.rendered_lines.len() {
                            find_todo(
                                &self.tree_manager.todos,
                                self.tree_manager.rendered_lines[at].todo_id,
                            )
                        } else {
                            None
                        },
                        None => None,
                    }
                } else {
                    match self.list_selected {
                        Some(i) => if i < self.incomplete_todos.len() {
                            Some(&self.incomplete_todos[i])
                        } else {
                            None
                        },
                        None => None,
                    }
                }
            },
        }
    }

    /// Takes the records of the store as they are now: the lists and the
    /// outline are made anew from them.
    pub fn refresh_todos(&mut self, all_todos: Vec<Todo>)
        ensures
            final(self)@ == old(self)@.refreshed(all_todos@),
    {
        self.incomplete_todos = get_incomplete_todos(&all_todos, self.current_parent);
        self.completed_todos = get_all_completed_todos(&all_todos);
        let batch = clone_todos(&all_todos);
        self.tree_manager.rebuild_from_todos_with_hidden_filter(batch, self.show_hidden_items);
        if self.tree_manager.rendered_lines.len() > 0 && self.tree_selected.is_none() {
            self.tree_selected = Some(0);
        }
        self.all_todos = all_todos;
    }

    /// Brings the selection of the mode's cursor back into range.
    pub fn update_selection_after_refresh(&mut self)
        ensures
            final(self)@ == old(self)@.selection_kept(),
    {
        let kept = update_selection_after_refresh(
            self.get_current_len(),
            self.get_current_selection(),
        );
        self.set_current_selection(kept);
    }

    /// Searches the corpus for the query of the outline.
    pub fn update_tree_search_matches(&mut self)
        ensures
            final(self)@ == old(self)@.tree_searched(),
    {
        let mut selection = self.tree_selected;
        self.tree_search.update_tree_search_matches(
            &self.tree_manager,
            &mut selection,
            self.search_query.as_str(),
            &self.all_todos,
        );
        self.tree_selected = selection;
    }

    /// Looks through the rows for the jump.
    pub fn update_goto_matches(&mut self)
        ensures
            final(self)@ == old(self)@.goto_updated(),
    {
        let mut selection = self.tree_selected;
        self.goto.update_goto_matches(&self.tree_manager, &mut selection, self.goto_query.as_str());
        self.tree_selected = selection;
    }

    /// Searches the corpus for the query of the flat search.
    pub fn update_search_results(&mut self)
        ensures
            final(self)@ == old(self)@.list_searched(),
    {
        self.search_results = search_todos(&self.all_todos, self.search_query.as_str());
        if self.search_results.len() > 0 {
            self.search_selected = Some(0);
        } else {
            self.search_selected = None;
        }
    }

    /// Finishes a key press once the host has done what was asked and has
    /// read the records anew.
    pub fn finish(&mut self, follow: FollowUp, all_todos: Vec<Todo>)
        ensures
            final(self)@ == old(self)@.finished(follow, all_todos@),
    {
        self.refresh_todos(all_todos);
        match follow {
            FollowUp::Nothing => {},
            FollowUp::KeepSelection => {
                self.update_selection_after_refresh();
            },
            FollowUp::KeepSelectionAndSearch => {
                self.update_selection_after_refresh();
                self.update_tree_search_matches();
            },
            FollowUp::KeepSelectionAndGoto => {
                self.update_selection_after_refresh();
                self.update_goto_matches();
            },
            FollowUp::SelectFirst => {
                self.select_first();
            },
            FollowUp::SelectFirstAndSearch => {
                self.update_tree_search_matches();
                self.select_first();
            },
            FollowUp::AfterCreate => {
                self.mode = AppMode::List;
                self.input_title = String::new();
                self.input_parent = String::new();
                self.input_description = String::new();
                self.input_due_date_relative = String::new();
                self.input_due_date_absolute = String::new();
                self.selected_parent_id = None;
                self.create_field_focus = CreateFieldFocus::Title;
            },
            FollowUp::AfterMove => {
                self.mode = AppMode::List;
                self.move_todo_id = None;
            },
        }
    }

    /// Selects the first row if there are incomplete tasks.
    pub fn select_first(&mut self)
        ensures
            final(self)@ == old(self)@.first_selected(),
    {
        if self.incomplete_todos.len() > 0 {
            self.list_selected = Some(0);
            if self.use_tree_view {
                self.tree_selected = Some(0);
            }
        }
    }

    /// Whether some record of the store names task `id` as its parent.
    pub fn has_children(&self, id: i64) -> (found: bool)
        ensures
            found == has_child(self.all_todos@, id),
    {
        let mut i: usize = 0;
        while i < self.all_todos.len()
            invariant
                i <= self.all_todos.len(),
                forall|j: int|
                    0 <= j < i ==> (#[trigger] self.all_todos@[j]).parent_id != Some(id),
            decreases self.all_todos.len() - i,
        {
            if same_parent(self.all_todos[i].parent_id, Some(id)) {
                return true;
            }
            i += 1;
        }
        false
    }
}

} // verus!
