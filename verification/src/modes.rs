//! The modes of the interface and what they decide by themselves.

use vstd::prelude::*;

verus! {

/// What the interface is showing or asking for.
#[derive(Debug, Clone, Copy, PartialEq, Eq, Structural)]
pub enum AppMode {
    List,
    CompletedView,
    Create,
    ConfirmDelete,
    ListFind,
    TreeSearch,
    ParentSearch,
    Move,
    Help,
    IdModGoto,
}

/// The field of the form for a new task that takes the keys.
#[derive(Debug, Clone, Copy, PartialEq, Eq, Structural)]
pub enum CreateFieldFocus {
    Title,
    DueDateRelative,
    DueDateAbsolute,
    Parent,
    Description,
}

/// The cursor that a mode works with.
#[derive(Debug, Clone, Copy, PartialEq, Eq, Structural)]
pub enum Cursor {
    /// The cursor of the flat list of incomplete tasks.
    List,
    /// The cursor of the outline.
    Tree,
    /// The cursor of the list of completed tasks.
    Completed,
}

impl AppMode {
    /// Typed characters are text in this mode, not commands.
    pub open spec fn takes_text(self, search_input_mode: bool) -> bool {
        match self {
            AppMode::Create => true,
            AppMode::ParentSearch => true,
            AppMode::ListFind => search_input_mode,
            AppMode::TreeSearch => search_input_mode,
            AppMode::IdModGoto => search_input_mode,
            _ => false,
        }
    }

    /// Whether typed characters are text in this mode, given whether a
    /// search field is being typed into.
    pub fn is_text_input(self, search_input_mode: bool) -> (text: bool)
        ensures
            text == self.takes_text(search_input_mode),
    {
        match self {
            AppMode::Create => true,
            AppMode::ParentSearch => true,
            AppMode::ListFind => search_input_mode,
            AppMode::TreeSearch => search_input_mode,
            AppMode::IdModGoto => search_input_mode,
            _ => false,
        }
    }

    /// The cursor of this mode: that of the completed tasks in their view,
    /// else that of the outline when the outline is shown, else that of the
    /// flat list.
    pub open spec fn cursor_of(self, use_tree_view: bool) -> Cursor {
        if self == AppMode::CompletedView {
            Cursor::Completed
        } else if use_tree_view {
            Cursor::Tree
        } else {
            Cursor::List
        }
    }

    /// The cursor that this mode works with.
    pub fn cursor(self, use_tree_view: bool) -> (cursor: Cursor)
        ensures
            cursor == self.cursor_of(use_tree_view),
    {
        match self {
            AppMode::CompletedView => Cursor::Completed,
            _ => if use_tree_view {
                Cursor::Tree
            } else {
                Cursor::List
            },
        }
    }
}

impl CreateFieldFocus {
    /// The field after this one, the first after the last.
    pub open spec fn following(self) -> CreateFieldFocus {
        match self {
            CreateFieldFocus::Title => CreateFieldFocus::DueDateRelative,
            CreateFieldFocus::DueDateRelative => CreateFieldFocus::DueDateAbsolute,
            CreateFieldFocus::DueDateAbsolute => CreateFieldFocus::Parent,
            CreateFieldFocus::Parent => CreateFieldFocus::Description,
            CreateFieldFocus::Description => CreateFieldFocus::Title,
        }
    }

    /// The field that the tabulator key moves to.
    pub fn next(self) -> (field: CreateFieldFocus)
        ensures
            field == self.following(),
    {
        match self {
            CreateFieldFocus::Title => CreateFieldFocus::DueDateRelative,
            CreateFieldFocus::DueDateRelative => CreateFieldFocus::DueDateAbsolute,
            CreateFieldFocus::DueDateAbsolute => CreateFieldFocus::Parent,
            CreateFieldFocus::Parent => CreateFieldFocus::Description,
            CreateFieldFocus::Description => CreateFieldFocus::Title,
        }
    }
}

/// Going through the fields with the tabulator key comes back to the field
/// it began with after five steps, and not before.
pub proof fn lemma_fields_cycle(field: CreateFieldFocus)
    ensures
        field.following().following().following().following().following() == field,
        field.following() != field,
        field.following().following() != field,
        field.following().following().following() != field,
        field.following().following().following().following() != field,
{
}

} // verus!
