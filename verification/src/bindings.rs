use vstd::prelude::*;

verus! {

/// A Zed action: either a plain action name or a `[name, args]` pair whose
/// arguments are held as JSON text.
#[derive(Clone, Copy)]
pub enum Action {
    /// Simple action: `"editor::Copy"`
    Simple(&'static str),
    /// Action with arguments: `["pane::ActivateItem", {"index": 0}]`
    WithArg(&'static str, &'static str),
}

/// A single keybinding: the shortcut, the Zed action, and the context it applies in.
#[derive(Clone, Copy)]
pub struct Binding {
    /// Zed-format key chord, e.g. "ctrl-c", "ctrl-shift-f"
    pub key: &'static str,
    /// Zed action
    pub action: Action,
    /// Zed context filter, e.g. "Editor && mode == full". Empty = global.
    pub context: &'static str,
}

/// A named group of related bindings.
pub struct Category {
    /// Human-readable name
    pub name: &'static str,
    /// Slug used to pick the category on the command line
    pub slug: &'static str,
    /// Description
    pub description: &'static str,
    /// The bindings in this category
    pub bindings: Vec<Binding>,
}

/// The text that names an action for display: the action name alone, or the
/// name, one space and the argument text.
pub open spec fn action_display_spec(action: Action) -> Seq<char> {
    match action {
        Action::Simple(s) => s@,
        Action::WithArg(name, args) => name@ + " "@ + args@,
    }
}

impl Binding {
    /// Human-readable action name for display.
    pub fn action_display(&self) -> (r: String)
        ensures
            r@ == action_display_spec(self.action),
    {
        match &self.action {
            Action::Simple(s) => String::from_str(s),
            Action::WithArg(name, args) => {
                let mut out = String::from_str(name);
                out.append(" ");
                out.append(args);
                out
            },
        }
    }
}

/// No two categories share a slug, so a slug names at most one category.
pub open spec fn distinct_slugs(cats: Seq<Category>) -> bool {
    forall|i: int, j: int| 0 <= i < j < cats.len() ==> #[trigger] cats[i].slug@ != #[trigger] cats[j].slug@
}

/// How many bindings the categories hold together.
pub open spec fn total_bindings(cats: Seq<Category>) -> nat
    decreases cats.len(),
{
    if cats.len() == 0 {
        0
    } else {
        total_bindings(cats.drop_last()) + cats.last().bindings@.len()
    }
}

/// The clipboard bindings, in the order they are applied.
pub open spec fn clipboard_catalog() -> Seq<Binding> {
    seq![
        Binding { key: "ctrl-c", action: Action::Simple("editor::Copy"), context: "Editor" },
        Binding { key: "ctrl-x", action: Action::Simple("editor::Cut"), context: "Editor" },
        Binding { key: "ctrl-v", action: Action::Simple("editor::Paste"), context: "Editor" },
        Binding { key: "ctrl-shift-v", action: Action::Simple("editor::Paste"), context: "Editor" },
    ]
}

fn clipboard_bindings() -> (r: Vec<Binding>)
    ensures
        r@ == clipboard_catalog(),
{
    let mut v: Vec<Binding> = Vec::new();
    v.push(Binding { key: "ctrl-c", action: Action::Simple("editor::Copy"), context: "Editor" });
    v.push(Binding { key: "ctrl-x", action: Action::Simple("editor::Cut"), context: "Editor" });
    v.push(Binding { key: "ctrl-v", action: Action::Simple("editor::Paste"), context: "Editor" });
    v.push(Binding { key: "ctrl-shift-v", action: Action::Simple("editor::Paste"), context: "Editor" });
    v
}

/// The undo redo bindings, in the order they are applied.
pub open spec fn undo_redo_catalog() -> Seq<Binding> {
    seq![
        Binding { key: "ctrl-z", action: Action::Simple("editor::Undo"), context: "Editor" },
        Binding { key: "ctrl-y", action: Action::Simple("editor::Redo"), context: "Editor" },
        Binding { key: "ctrl-shift-z", action: Action::Simple("editor::Redo"), context: "Editor" },
    ]
}

fn undo_redo_bindings() -> (r: Vec<Binding>)
    ensures
        r@ == undo_redo_catalog(),
{
    let mut v: Vec<Binding> = Vec::new();
    v.push(Binding { key: "ctrl-z", action: Action::Simple("editor::Undo"), context: "Editor" });
    v.push(Binding { key: "ctrl-y", action: Action::Simple("editor::Redo"), context: "Editor" });
    v.push(Binding { key: "ctrl-shift-z", action: Action::Simple("editor::Redo"), context: "Editor" });
    v
}

/// The selection bindings, in the order they are applied.
pub open spec fn selection_catalog() -> Seq<Binding> {
    seq![
        Binding { key: "ctrl-a", action: Action::Simple("editor::SelectAll"), context: "Editor" },
        Binding { key: "ctrl-d", action: Action::Simple("editor::SelectNext"), context: "Editor && mode == full" },
        Binding { key: "ctrl-shift-l", action: Action::Simple("editor::SelectAllMatches"), context: "Editor && mode == full" },
        Binding { key: "ctrl-l", action: Action::Simple("editor::SelectLine"), context: "Editor && mode == full" },
        Binding { key: "ctrl-shift-k", action: Action::Simple("editor::DeleteLine"), context: "Editor && mode == full" },
        Binding { key: "ctrl-alt-up", action: Action::Simple("editor::AddSelectionAbove"), context: "Editor && mode == full" },
        Binding { key: "ctrl-alt-down", action: Action::Simple("editor::AddSelectionBelow"), context: "Editor && mode == full" },
        Binding { key: "shift-alt-down", action: Action::Simple("editor::DuplicateLineDown"), context: "Editor && mode == full" },
        Binding { key: "shift-alt-up", action: Action::Simple("editor::DuplicateLineUp"), context: "Editor && mode == full" },
        Binding { key: "ctrl-shift-d", action: Action::Simple("editor::DuplicateLineDown"), context: "Editor && mode == full" },
    ]
}

fn selection_bindings() -> (r: Vec<Binding>)
    ensures
        r@ == selection_catalog(),
{
    let mut v: Vec<Binding> = Vec::new();
    v.push(Binding { key: "ctrl-a", action: Action::Simple("editor::SelectAll"), context: "Editor" });
    v.push(Binding { key: "ctrl-d", action: Action::Simple("editor::SelectNext"), context: "Editor && mode == full" });
    v.push(Binding { key: "ctrl-shift-l", action: Action::Simple("editor::SelectAllMatches"), context: "Editor && mode == full" });
    v.push(Binding { key: "ctrl-l", action: Action::Simple("editor::SelectLine"), context: "Editor && mode == full" });
    v.push(Binding { key: "ctrl-shift-k", action: Action::Simple("editor::DeleteLine"), context: "Editor && mode == full" });
    v.push(Binding { key: "ctrl-alt-up", action: Action::Simple("editor::AddSelectionAbove"), context: "Editor && mode == full" });
    v.push(Binding { key: "ctrl-alt-down", action: Action::Simple("editor::AddSelectionBelow"), context: "Editor && mode == full" });
    v.push(Binding { key: "shift-alt-down", action: Action::Simple("editor::DuplicateLineDown"), context: "Editor && mode == full" });
    v.push(Binding { key: "shift-alt-up", action: Action::Simple("editor::DuplicateLineUp"), context: "Editor && mode == full" });
    v.push(Binding { key: "ctrl-shift-d", action: Action::Simple("editor::DuplicateLineDown"), context: "Editor && mode == full" });
    v
}

/// The cursor movement bindings, in the order they are applied.
pub open spec fn cursor_movement_catalog() -> Seq<Binding> {
    seq![
        Binding { key: "ctrl-right", action: Action::Simple("editor::MoveToNextWordEnd"), context: "Editor" },
        Binding { key: "ctrl-left", action: Action::Simple("editor::MoveToPreviousWordStart"), context: "Editor" },
        Binding { key: "ctrl-shift-right", action: Action::Simple("editor::SelectToNextWordEnd"), context: "Editor" },
        Binding { key: "ctrl-shift-left", action: Action::Simple("editor::SelectToPreviousWordStart"), context: "Editor" },
        Binding { key: "home", action: Action::Simple("editor::MoveToBeginningOfLine"), context: "Editor" },
        Binding { key: "end", action: Action::Simple("editor::MoveToEndOfLine"), context: "Editor" },
        Binding { key: "shift-home", action: Action::Simple("editor::SelectToBeginningOfLine"), context: "Editor" },
        Binding { key: "shift-end", action: Action::Simple("editor::SelectToEndOfLine"), context: "Editor" },
        Binding { key: "ctrl-home", action: Action::Simple("editor::MoveToBeginning"), context: "Editor" },
        Binding { key: "ctrl-end", action: Action::Simple("editor::MoveToEnd"), context: "Editor" },
        Binding { key: "ctrl-shift-home", action: Action::Simple("editor::SelectToBeginning"), context: "Editor" },
        Binding { key: "ctrl-shift-end", action: Action::Simple("editor::SelectToEnd"), context: "Editor" },
        Binding { key: "ctrl-backspace", action: Action::Simple("editor::DeleteToPreviousWordStart"), context: "Editor" },
        Binding { key: "ctrl-delete", action: Action::Simple("editor::DeleteToNextWordEnd"), context: "Editor" },
    ]
}

fn cursor_movement_bindings() -> (r: Vec<Binding>)
    ensures
        r@ == cursor_movement_catalog(),
{
    let mut v: Vec<Binding> = Vec::new();
    v.push(Binding { key: "ctrl-right", action: Action::Simple("editor::MoveToNextWordEnd"), context: "Editor" });
    v.push(Binding { key: "ctrl-left", action: Action::Simple("editor::MoveToPreviousWordStart"), context: "Editor" });
    v.push(Binding { key: "ctrl-shift-right", action: Action::Simple("editor::SelectToNextWordEnd"), context: "Editor" });
    v.push(Binding { key: "ctrl-shift-left", action: Action::Simple("editor::SelectToPreviousWordStart"), context: "Editor" });
    v.push(Binding { key: "home", action: Action::Simple("editor::MoveToBeginningOfLine"), context: "Editor" });
    v.push(Binding { key: "end", action: Action::Simple("editor::MoveToEndOfLine"), context: "Editor" });
    v.push(Binding { key: "shift-home", action: Action::Simple("editor::SelectToBeginningOfLine"), context: "Editor" });
    v.push(Binding { key: "shift-end", action: Action::Simple("editor::SelectToEndOfLine"), context: "Editor" });
    v.push(Binding { key: "ctrl-home", action: Action::Simple("editor::MoveToBeginning"), context: "Editor" });
    v.push(Binding { key: "ctrl-end", action: Action::Simple("editor::MoveToEnd"), context: "Editor" });
    v.push(Binding { key: "ctrl-shift-home", action: Action::Simple("editor::SelectToBeginning"), context: "Editor" });
    v.push(Binding { key: "ctrl-shift-end", action: Action::Simple("editor::SelectToEnd"), context: "Editor" });
    v.push(Binding { key: "ctrl-backspace", action: Action::Simple("editor::DeleteToPreviousWordStart"), context: "Editor" });
    v.push(Binding { key: "ctrl-delete", action: Action::Simple("editor::DeleteToNextWordEnd"), context: "Editor" });
    v
}

/// The find replace bindings, in the order they are applied.
pub open spec fn find_replace_catalog() -> Seq<Binding> {
    seq![
        Binding { key: "ctrl-f", action: Action::Simple("buffer_search::Deploy"), context: "Editor && mode == full" },
        Binding { key: "ctrl-h", action: Action::Simple("buffer_search::DeployReplace"), context: "Editor && mode == full" },
        Binding { key: "ctrl-shift-f", action: Action::Simple("pane::DeploySearch"), context: "Workspace" },
        Binding { key: "ctrl-shift-h", action: Action::Simple("search::ToggleReplace"), context: "ProjectSearchBar > Editor" },
        Binding { key: "f3", action: Action::Simple("search::SelectNextMatch"), context: "Editor" },
        Binding { key: "shift-f3", action: Action::Simple("search::SelectPreviousMatch"), context: "Editor" },
        Binding { key: "escape", action: Action::Simple("buffer_search::Dismiss"), context: "BufferSearchBar > Editor" },
    ]
}

fn find_replace_bindings() -> (r: Vec<Binding>)
    ensures
        r@ == find_replace_catalog(),
{
    let mut v: Vec<Binding> = Vec::new();
    v.push(Binding { key: "ctrl-f", action: Action::Simple("buffer_search::Deploy"), context: "Editor && mode == full" });
    v.push(Binding { key: "ctrl-h", action: Action::Simple("buffer_search::DeployReplace"), context: "Editor && mode == full" });
    v.push(Binding { key: "ctrl-shift-f", action: Action::Simple("pane::DeploySearch"), context: "Workspace" });
    v.push(Binding { key: "ctrl-shift-h", action: Action::Simple("search::ToggleReplace"), context: "ProjectSearchBar > Editor" });
    v.push(Binding { key: "f3", action: Action::Simple("search::SelectNextMatch"), context: "Editor" });
    v.push(Binding { key: "shift-f3", action: Action::Simple("search::SelectPreviousMatch"), context: "Editor" });
    v.push(Binding { key: "escape", action: Action::Simple("buffer_search::Dismiss"), context: "BufferSearchBar > Editor" });
    v
}

/// The file operations bindings, in the order they are applied.
pub open spec fn file_operations_catalog() -> Seq<Binding> {
    seq![
        Binding { key: "ctrl-s", action: Action::Simple("workspace::Save"), context: "" },
        Binding { key: "ctrl-shift-s", action: Action::Simple("workspace::SaveAs"), context: "" },
        Binding { key: "ctrl-k s", action: Action::Simple("workspace::SaveAll"), context: "" },
        Binding { key: "ctrl-n", action: Action::Simple("workspace::NewFile"), context: "" },
        Binding { key: "ctrl-o", action: Action::Simple("workspace::Open"), context: "" },
        Binding { key: "ctrl-shift-n", action: Action::Simple("workspace::NewWindow"), context: "" },
        Binding { key: "ctrl-w", action: Action::Simple("pane::CloseActiveItem"), context: "Pane" },
        Binding { key: "ctrl-shift-t", action: Action::Simple("pane::ReopenClosedItem"), context: "Pane" },
    ]
}

fn file_operations_bindings() -> (r: Vec<Binding>)
    ensures
        r@ == file_operations_catalog(),
{
    let mut v: Vec<Binding> = Vec::new();
    v.push(Binding { key: "ctrl-s", action: Action::Simple("workspace::Save"), context: "" });
    v.push(Binding { key: "ctrl-shift-s", action: Action::Simple("workspace::SaveAs"), context: "" });
    v.push(Binding { key: "ctrl-k s", action: Action::Simple("workspace::SaveAll"), context: "" });
    v.push(Binding { key: "ctrl-n", action: Action::Simple("workspace::NewFile"), context: "" });
    v.push(Binding { key: "ctrl-o", action: Action::Simple("workspace::Open"), context: "" });
    v.push(Binding { key: "ctrl-shift-n", action: Action::Simple("workspace::NewWindow"), context: "" });
    v.push(Binding { key: "ctrl-w", action: Action::Simple("pane::CloseActiveItem"), context: "Pane" });
    v.push(Binding { key: "ctrl-shift-t", action: Action::Simple("pane::ReopenClosedItem"), context: "Pane" });
    v
}

/// The navigation bindings, in the order they are applied.
pub open spec fn navigation_catalog() -> Seq<Binding> {
    seq![
        Binding { key: "ctrl-p", action: Action::Simple("file_finder::Toggle"), context: "" },
        Binding { key: "ctrl-shift-p", action: Action::Simple("command_palette::Toggle"), context: "" },
        Binding { key: "ctrl-g", action: Action::Simple("go_to_line::Toggle"), context: "Editor && mode == full" },
        Binding { key: "ctrl-shift-o", action: Action::Simple("outline::Toggle"), context: "Editor && mode == full" },
        Binding { key: "ctrl-tab", action: Action::Simple("pane::ActivateNextItem"), context: "Pane" },
        Binding { key: "ctrl-shift-tab", action: Action::Simple("pane::ActivatePreviousItem"), context: "Pane" },
        Binding { key: "alt-left", action: Action::Simple("pane::GoBack"), context: "Pane" },
        Binding { key: "alt-right", action: Action::Simple("pane::GoForward"), context: "Pane" },
        Binding { key: "ctrl-1", action: Action::WithArg("pane::ActivateItem", "{\"index\": 0}"), context: "Pane" },
        Binding { key: "ctrl-2", action: Action::WithArg("pane::ActivateItem", "{\"index\": 1}"), context: "Pane" },
        Binding { key: "ctrl-3", action: Action::WithArg("pane::ActivateItem", "{\"index\": 2}"), context: "Pane" },
        Binding { key: "ctrl-4", action: Action::WithArg("pane::ActivateItem", "{\"index\": 3}"), context: "Pane" },
        Binding { key: "ctrl-5", action: Action::WithArg("pane::ActivateItem", "{\"index\": 4}"), context: "Pane" },
        Binding { key: "ctrl-6", action: Action::WithArg("pane::ActivateItem", "{\"index\": 5}"), context: "Pane" },
        Binding { key: "ctrl-7", action: Action::WithArg("pane::ActivateItem", "{\"index\": 6}"), context: "Pane" },
        Binding { key: "ctrl-8", action: Action::WithArg("pane::ActivateItem", "{\"index\": 7}"), context: "Pane" },
        Binding { key: "ctrl-9", action: Action::WithArg("pane::ActivateItem", "{\"index\": 8}"), context: "Pane" },
    ]
}

fn navigation_bindings() -> (r: Vec<Binding>)
    ensures
        r@ == navigation_catalog(),
{
    let mut v: Vec<Binding> = Vec::new();
    v.push(Binding { key: "ctrl-p", action: Action::Simple("file_finder::Toggle"), context: "" });
    v.push(Binding { key: "ctrl-shift-p", action: Action::Simple("command_palette::Toggle"), context: "" });
    v.push(Binding { key: "ctrl-g", action: Action::Simple("go_to_line::Toggle"), context: "Editor && mode == full" });
    v.push(Binding { key: "ctrl-shift-o", action: Action::Simple("outline::Toggle"), context: "Editor && mode == full" });
    v.push(Binding { key: "ctrl-tab", action: Action::Simple("pane::ActivateNextItem"), context: "Pane" });
    v.push(Binding { key: "ctrl-shift-tab", action: Action::Simple("pane::ActivatePreviousItem"), context: "Pane" });
    v.push(Binding { key: "alt-left", action: Action::Simple("pane::GoBack"), context: "Pane" });
    v.push(Binding { key: "alt-right", action: Action::Simple("pane::GoForward"), context: "Pane" });
    v.push(Binding { key: "ctrl-1", action: Action::WithArg("pane::ActivateItem", "{\"index\": 0}"), context: "Pane" });
    v.push(Binding { key: "ctrl-2", action: Action::WithArg("pane::ActivateItem", "{\"index\": 1}"), context: "Pane" });
    v.push(Binding { key: "ctrl-3", action: Action::WithArg("pane::ActivateItem", "{\"index\": 2}"), context: "Pane" });
    v.push(Binding { key: "ctrl-4", action: Action::WithArg("pane::ActivateItem", "{\"index\": 3}"), context: "Pane" });
    v.push(Binding { key: "ctrl-5", action: Action::WithArg("pane::ActivateItem", "{\"index\": 4}"), context: "Pane" });
    v.push(Binding { key: "ctrl-6", action: Action::WithArg("pane::ActivateItem", "{\"index\": 5}"), context: "Pane" });
    v.push(Binding { key: "ctrl-7", action: Action::WithArg("pane::ActivateItem", "{\"index\": 6}"), context: "Pane" });
    v.push(Binding { key: "ctrl-8", action: Action::WithArg("pane::ActivateItem", "{\"index\": 7}"), context: "Pane" });
    v.push(Binding { key: "ctrl-9", action: Action::WithArg("pane::ActivateItem", "{\"index\": 8}"), context: "Pane" });
    v
}

/// The code editing bindings, in the order they are applied.
pub open spec fn code_editing_catalog() -> Seq<Binding> {
    seq![
        Binding { key: "ctrl-/", action: Action::Simple("editor::ToggleComments"), context: "Editor && mode == full" },
        Binding { key: "shift-alt-a", action: Action::Simple("editor::ToggleBlockComments"), context: "Editor && mode == full" },
        Binding { key: "ctrl-]", action: Action::Simple("editor::Indent"), context: "Editor && mode == full" },
        Binding { key: "ctrl-[", action: Action::Simple("editor::Outdent"), context: "Editor && mode == full" },
        Binding { key: "alt-up", action: Action::Simple("editor::MoveLineUp"), context: "Editor && mode == full" },
        Binding { key: "alt-down", action: Action::Simple("editor::MoveLineDown"), context: "Editor && mode == full" },
        Binding { key: "ctrl-shift-[", action: Action::Simple("editor::Fold"), context: "Editor && mode == full" },
        Binding { key: "ctrl-shift-]", action: Action::Simple("editor::UnfoldLines"), context: "Editor && mode == full" },
        Binding { key: "ctrl-enter", action: Action::Simple("editor::NewlineBelow"), context: "Editor && mode == full" },
        Binding { key: "ctrl-shift-enter", action: Action::Simple("editor::NewlineAbove"), context: "Editor && mode == full" },
        Binding { key: "shift-alt-f", action: Action::Simple("editor::Format"), context: "Editor && mode == full" },
        Binding { key: "shift-alt-o", action: Action::Simple("editor::OrganizeImports"), context: "Editor && mode == full" },
        Binding { key: "ctrl-j", action: Action::Simple("editor::JoinLines"), context: "Editor && mode == full" },
    ]
}

fn code_editing_bindings() -> (r: Vec<Binding>)
    ensures
        r@ == code_editing_catalog(),
{
    let mut v: Vec<Binding> = Vec::new();
    v.push(Binding { key: "ctrl-/", action: Action::Simple("editor::ToggleComments"), context: "Editor && mode == full" });
    v.push(Binding { key: "shift-alt-a", action: Action::Simple("editor::ToggleBlockComments"), context: "Editor && mode == full" });
    v.push(Binding { key: "ctrl-]", action: Action::Simple("editor::Indent"), context: "Editor && mode == full" });
    v.push(Binding { key: "ctrl-[", action: Action::Simple("editor::Outdent"), context: "Editor && mode == full" });
    v.push(Binding { key: "alt-up", action: Action::Simple("editor::MoveLineUp"), context: "Editor && mode == full" });
    v.push(Binding { key: "alt-down", action: Action::Simple("editor::MoveLineDown"), context: "Editor && mode == full" });
    v.push(Binding { key: "ctrl-shift-[", action: Action::Simple("editor::Fold"), context: "Editor && mode == full" });
    v.push(Binding { key: "ctrl-shift-]", action: Action::Simple("editor::UnfoldLines"), context: "Editor && mode == full" });
    v.push(Binding { key: "ctrl-enter", action: Action::Simple("editor::NewlineBelow"), context: "Editor && mode == full" });
    v.push(Binding { key: "ctrl-shift-enter", action: Action::Simple("editor::NewlineAbove"), context: "Editor && mode == full" });
    v.push(Binding { key: "shift-alt-f", action: Action::Simple("editor::Format"), context: "Editor && mode == full" });
    v.push(Binding { key: "shift-alt-o", action: Action::Simple("editor::OrganizeImports"), context: "Editor && mode == full" });
    v.push(Binding { key: "ctrl-j", action: Action::Simple("editor::JoinLines"), context: "Editor && mode == full" });
    v
}

/// The code intelligence bindings, in the order they are applied.
pub open spec fn code_intelligence_catalog() -> Seq<Binding> {
    seq![
        Binding { key: "f12", action: Action::Simple("editor::GoToDefinition"), context: "Editor && mode == full" },
        Binding { key: "alt-f12", action: Action::Simple("editor::GoToDefinitionSplit"), context: "Editor && mode == full" },
        Binding { key: "shift-f12", action: Action::Simple("editor::FindAllReferences"), context: "Editor && mode == full" },
        Binding { key: "f2", action: Action::Simple("editor::Rename"), context: "Editor && mode == full" },
        Binding { key: "ctrl-.", action: Action::Simple("editor::ToggleCodeActions"), context: "Editor && mode == full" },
        Binding { key: "ctrl-shift-space", action: Action::Simple("editor::ShowSignatureHelp"), context: "Editor && mode == full" },
        Binding { key: "ctrl-space", action: Action::Simple("editor::ShowCompletions"), context: "Editor && mode == full" },
        Binding { key: "ctrl-k ctrl-i", action: Action::Simple("editor::Hover"), context: "Editor && mode == full" },
    ]
}

fn code_intelligence_bindings() -> (r: Vec<Binding>)
    ensures
        r@ == code_intelligence_catalog(),
{
    let mut v: Vec<Binding> = Vec::new();
    v.push(Binding { key: "f12", action: Action::Simple("editor::GoToDefinition"), context: "Editor && mode == full" });
    v.push(Binding { key: "alt-f12", action: Action::Simple("editor::GoToDefinitionSplit"), context: "Editor && mode == full" });
    v.push(Binding { key: "shift-f12", action: Action::Simple("editor::FindAllReferences"), context: "Editor && mode == full" });
    v.push(Binding { key: "f2", action: Action::Simple("editor::Rename"), context: "Editor && mode == full" });
    v.push(Binding { key: "ctrl-.", action: Action::Simple("editor::ToggleCodeActions"), context: "Editor && mode == full" });
    v.push(Binding { key: "ctrl-shift-space", action: Action::Simple("editor::ShowSignatureHelp"), context: "Editor && mode == full" });
    v.push(Binding { key: "ctrl-space", action: Action::Simple("editor::ShowCompletions"), context: "Editor && mode == full" });
    v.push(Binding { key: "ctrl-k ctrl-i", action: Action::Simple("editor::Hover"), context: "Editor && mode == full" });
    v
}

/// The panels bindings, in the order they are applied.
pub open spec fn panels_catalog() -> Seq<Binding> {
    seq![
        Binding { key: "ctrl-b", action: Action::Simple("workspace::ToggleLeftDock"), context: "" },
        Binding { key: "ctrl-shift-e", action: Action::Simple("project_panel::ToggleFocus"), context: "" },
        Binding { key: "ctrl-shift-m", action: Action::Simple("diagnostics::Deploy"), context: "" },
        Binding { key: "ctrl-`", action: Action::Simple("terminal_panel::ToggleFocus"), context: "" },
        Binding { key: "ctrl-shift-`", action: Action::Simple("workspace::NewTerminal"), context: "" },
        Binding { key: "ctrl-shift-y", action: Action::Simple("workspace::ToggleBottomDock"), context: "" },
        Binding { key: "ctrl-shift-j", action: Action::Simple("workspace::ToggleRightDock"), context: "" },
    ]
}

fn panels_bindings() -> (r: Vec<Binding>)
    ensures
        r@ == panels_catalog(),
{
    let mut v: Vec<Binding> = Vec::new();
    v.push(Binding { key: "ctrl-b", action: Action::Simple("workspace::ToggleLeftDock"), context: "" });
    v.push(Binding { key: "ctrl-shift-e", action: Action::Simple("project_panel::ToggleFocus"), context: "" });
    v.push(Binding { key: "ctrl-shift-m", action: Action::Simple("diagnostics::Deploy"), context: "" });
    v.push(Binding { key: "ctrl-`", action: Action::Simple("terminal_panel::ToggleFocus"), context: "" });
    v.push(Binding { key: "ctrl-shift-`", action: Action::Simple("workspace::NewTerminal"), context: "" });
    v.push(Binding { key: "ctrl-shift-y", action: Action::Simple("workspace::ToggleBottomDock"), context: "" });
    v.push(Binding { key: "ctrl-shift-j", action: Action::Simple("workspace::ToggleRightDock"), context: "" });
    v
}

/// The zoom layout bindings, in the order they are applied.
pub open spec fn zoom_layout_catalog() -> Seq<Binding> {
    seq![
        Binding { key: "ctrl-=", action: Action::Simple("zed::IncreaseBufferFontSize"), context: "" },
        Binding { key: "ctrl--", action: Action::Simple("zed::DecreaseBufferFontSize"), context: "" },
        Binding { key: "ctrl-0", action: Action::Simple("zed::ResetBufferFontSize"), context: "" },
        Binding { key: "ctrl-\\", action: Action::Simple("pane::SplitRight"), context: "Pane" },
        Binding { key: "ctrl-shift-\\", action: Action::Simple("pane::SplitDown"), context: "Pane" },
        Binding { key: "f11", action: Action::Simple("zed::ToggleFullScreen"), context: "" },
    ]
}

fn zoom_layout_bindings() -> (r: Vec<Binding>)
    ensures
        r@ == zoom_layout_catalog(),
{
    let mut v: Vec<Binding> = Vec::new();
    v.push(Binding { key: "ctrl-=", action: Action::Simple("zed::IncreaseBufferFontSize"), context: "" });
    v.push(Binding { key: "ctrl--", action: Action::Simple("zed::DecreaseBufferFontSize"), context: "" });
    v.push(Binding { key: "ctrl-0", action: Action::Simple("zed::ResetBufferFontSize"), context: "" });
    v.push(Binding { key: "ctrl-\\", action: Action::Simple("pane::SplitRight"), context: "Pane" });
    v.push(Binding { key: "ctrl-shift-\\", action: Action::Simple("pane::SplitDown"), context: "Pane" });
    v.push(Binding { key: "f11", action: Action::Simple("zed::ToggleFullScreen"), context: "" });
    v
}

/// The terminal bindings, in the order they are applied.
pub open spec fn terminal_catalog() -> Seq<Binding> {
    seq![
        Binding { key: "ctrl-c", action: Action::Simple("terminal::Copy"), context: "Terminal" },
        Binding { key: "ctrl-v", action: Action::Simple("terminal::Paste"), context: "Terminal" },
        Binding { key: "ctrl-shift-`", action: Action::Simple("workspace::NewTerminal"), context: "Terminal" },
        Binding { key: "ctrl-a", action: Action::Simple("terminal::SelectAll"), context: "Terminal" },
    ]
}

fn terminal_bindings() -> (r: Vec<Binding>)
    ensures
        r@ == terminal_catalog(),
{
    let mut v: Vec<Binding> = Vec::new();
    v.push(Binding { key: "ctrl-c", action: Action::Simple("terminal::Copy"), context: "Terminal" });
    v.push(Binding { key: "ctrl-v", action: Action::Simple("terminal::Paste"), context: "Terminal" });
    v.push(Binding { key: "ctrl-shift-`", action: Action::Simple("workspace::NewTerminal"), context: "Terminal" });
    v.push(Binding { key: "ctrl-a", action: Action::Simple("terminal::SelectAll"), context: "Terminal" });
    v
}

/// The completions bindings, in the order they are applied.
pub open spec fn completions_catalog() -> Seq<Binding> {
    seq![
        Binding { key: "enter", action: Action::Simple("editor::ConfirmCompletion"), context: "Editor && showing_completions" },
        Binding { key: "tab", action: Action::Simple("editor::ConfirmCompletion"), context: "Editor && showing_completions" },
        Binding { key: "escape", action: Action::Simple("editor::Cancel"), context: "Editor && showing_completions" },
    ]
}

fn completions_bindings() -> (r: Vec<Binding>)
    ensures
        r@ == completions_catalog(),
{
    let mut v: Vec<Binding> = Vec::new();
    v.push(Binding { key: "enter", action: Action::Simple("editor::ConfirmCompletion"), context: "Editor && showing_completions" });
    v.push(Binding { key: "tab", action: Action::Simple("editor::ConfirmCompletion"), context: "Editor && showing_completions" });
    v.push(Binding { key: "escape", action: Action::Simple("editor::Cancel"), context: "Editor && showing_completions" });
    v
}

/// The git bindings, in the order they are applied.
pub open spec fn git_catalog() -> Seq<Binding> {
    seq![
        Binding { key: "ctrl-shift-g", action: Action::Simple("git_panel::ToggleFocus"), context: "" },
    ]
}

fn git_bindings() -> (r: Vec<Binding>)
    ensures
        r@ == git_catalog(),
{
    let mut v: Vec<Binding> = Vec::new();
    v.push(Binding { key: "ctrl-shift-g", action: Action::Simple("git_panel::ToggleFocus"), context: "" });
    v
}

/// The catalog: every binding, category by category, in the order the
/// documents list them.
pub fn categories() -> (r: Vec<Category>)
    ensures
        r@.len() == 14,
        distinct_slugs(r@),
        total_bindings(r@) == 105,
        r@[0].name@ == "Clipboard"@ && r@[0].slug@ == "clipboard"@
            && r@[0].description@ == "Copy, cut, paste"@
            && r@[0].bindings@ == clipboard_catalog(),
        r@[1].name@ == "Undo / Redo"@ && r@[1].slug@ == "undo-redo"@
            && r@[1].description@ == "Undo and redo"@
            && r@[1].bindings@ == undo_redo_catalog(),
        r@[2].name@ == "Selection"@ && r@[2].slug@ == "selection"@
            && r@[2].description@ == "Select all, select next match, multi-cursor, duplicate line"@
            && r@[2].bindings@ == selection_catalog(),
        r@[3].name@ == "Cursor Movement"@ && r@[3].slug@ == "cursor"@
            && r@[3].description@ == "Word-level movement, Home/End, delete word"@
            && r@[3].bindings@ == cursor_movement_catalog(),
        r@[4].name@ == "Find & Replace"@ && r@[4].slug@ == "find-replace"@
            && r@[4].description@ == "Buffer search, project search, find next/previous"@
            && r@[4].bindings@ == find_replace_catalog(),
        r@[5].name@ == "File Operations"@ && r@[5].slug@ == "files"@
            && r@[5].description@ == "Save, save as, open, new file, close tab, reopen tab"@
            && r@[5].bindings@ == file_operations_catalog(),
        r@[6].name@ == "Navigation"@ && r@[6].slug@ == "navigation"@
            && r@[6].description@ == "File finder, command palette, go to line, tab switching"@
            && r@[6].bindings@ == navigation_catalog(),
        r@[7].name@ == "Code Editing"@ && r@[7].slug@ == "code-editing"@
            && r@[7].description@ == "Comments, indent/outdent, move lines, fold, format, join"@
            && r@[7].bindings@ == code_editing_catalog(),
        r@[8].name@ == "Code Intelligence"@ && r@[8].slug@ == "code-intel"@
            && r@[8].description@ == "Go to definition, references, rename, code actions"@
            && r@[8].bindings@ == code_intelligence_catalog(),
        r@[9].name@ == "Panels"@ && r@[9].slug@ == "panels"@
            && r@[9].description@ == "Toggle sidebar, explorer, terminal, diagnostics"@
            && r@[9].bindings@ == panels_catalog(),
        r@[10].name@ == "Zoom & Layout"@ && r@[10].slug@ == "zoom-layout"@
            && r@[10].description@ == "Font size, split panes, fullscreen"@
            && r@[10].bindings@ == zoom_layout_catalog(),
        r@[11].name@ == "Terminal"@ && r@[11].slug@ == "terminal"@
            && r@[11].description@ == "Terminal-specific copy, paste, select all"@
            && r@[11].bindings@ == terminal_catalog(),
        r@[12].name@ == "Completions"@ && r@[12].slug@ == "completions"@
            && r@[12].description@ == "Accept or dismiss autocomplete suggestions"@
            && r@[12].bindings@ == completions_catalog(),
        r@[13].name@ == "Git"@ && r@[13].slug@ == "git"@
            && r@[13].description@ == "Git panel toggle"@
            && r@[13].bindings@ == git_catalog(),
{
    let mut v: Vec<Category> = Vec::new();
    v.push(Category {
        name: "Clipboard",
        slug: "clipboard",
        description: "Copy, cut, paste",
        bindings: clipboard_bindings(),
    });
    v.push(Category {
        name: "Undo / Redo",
        slug: "undo-redo",
        description: "Undo and redo",
        bindings: undo_redo_bindings(),
    });
    v.push(Category {
        name: "Selection",
        slug: "selection",
        description: "Select all, select next match, multi-cursor, duplicate line",
        bindings: selection_bindings(),
    });
    v.push(Category {
        name: "Cursor Movement",
        slug: "cursor",
        description: "Word-level movement, Home/End, delete word",
        bindings: cursor_movement_bindings(),
    });
    v.push(Category {
        name: "Find & Replace",
        slug: "find-replace",
        description: "Buffer search, project search, find next/previous",
        bindings: find_replace_bindings(),
    });
    v.push(Category {
        name: "File Operations",
        slug: "files",
        description: "Save, save as, open, new file, close tab, reopen tab",
        bindings: file_operations_bindings(),
    });
    v.push(Category {
        name: "Navigation",
        slug: "navigation",
        description: "File finder, command palette, go to line, tab switching",
        bindings: navigation_bindings(),
    });
    v.push(Category {
        name: "Code Editing",
        slug: "code-editing",
        description: "Comments, indent/outdent, move lines, fold, format, join",
        bindings: code_editing_bindings(),
    });
    v.push(Category {
        name: "Code Intelligence",
        slug: "code-intel",
        description: "Go to definition, references, rename, code actions",
        bindings: code_intelligence_bindings(),
    });
    v.push(Category {
        name: "Panels",
        slug: "panels",
        description: "Toggle sidebar, explorer, terminal, diagnostics",
        bindings: panels_bindings(),
    });
    v.push(Category {
        name: "Zoom & Layout",
        slug: "zoom-layout",
        description: "Font size, split panes, fullscreen",
        bindings: zoom_layout_bindings(),
    });
    v.push(Category {
        name: "Terminal",
        slug: "terminal",
        description: "Terminal-specific copy, paste, select all",
        bindings: terminal_bindings(),
    });
    v.push(Category {
        name: "Completions",
        slug: "completions",
        description: "Accept or dismiss autocomplete suggestions",
        bindings: completions_bindings(),
    });
    v.push(Category {
        name: "Git",
        slug: "git",
        description: "Git panel toggle",
        bindings: git_bindings(),
    });
    proof {
        reveal_strlit("clipboard");
        reveal_strlit("undo-redo");
        reveal_strlit("selection");
        reveal_strlit("cursor");
        reveal_strlit("find-replace");
        reveal_strlit("files");
        reveal_strlit("navigation");
        reveal_strlit("code-editing");
        reveal_strlit("code-intel");
        reveal_strlit("panels");
        reveal_strlit("zoom-layout");
        reveal_strlit("terminal");
        reveal_strlit("completions");
        reveal_strlit("git");
        assert(v@[0].slug@.len() == 9 && v@[0].slug@[0] == 'c' && v@[0].slug@[1] == 'l' && v@[0].slug@[2] == 'i');
        assert(v@[1].slug@.len() == 9 && v@[1].slug@[0] == 'u' && v@[1].slug@[1] == 'n' && v@[1].slug@[2] == 'd');
        assert(v@[2].slug@.len() == 9 && v@[2].slug@[0] == 's' && v@[2].slug@[1] == 'e' && v@[2].slug@[2] == 'l');
        assert(v@[3].slug@.len() == 6 && v@[3].slug@[0] == 'c' && v@[3].slug@[1] == 'u' && v@[3].slug@[2] == 'r');
        assert(v@[4].slug@.len() == 12 && v@[4].slug@[0] == 'f' && v@[4].slug@[1] == 'i' && v@[4].slug@[2] == 'n');
        assert(v@[5].slug@.len() == 5 && v@[5].slug@[0] == 'f' && v@[5].slug@[1] == 'i' && v@[5].slug@[2] == 'l');
        assert(v@[6].slug@.len() == 10 && v@[6].slug@[0] == 'n' && v@[6].slug@[1] == 'a' && v@[6].slug@[2] == 'v');
        assert(v@[7].slug@.len() == 12 && v@[7].slug@[0] == 'c' && v@[7].slug@[1] == 'o' && v@[7].slug@[2] == 'd');
        assert(v@[8].slug@.len() == 10 && v@[8].slug@[0] == 'c' && v@[8].slug@[1] == 'o' && v@[8].slug@[2] == 'd');
        assert(v@[9].slug@.len() == 6 && v@[9].slug@[0] == 'p' && v@[9].slug@[1] == 'a' && v@[9].slug@[2] == 'n');
        assert(v@[10].slug@.len() == 11 && v@[10].slug@[0] == 'z' && v@[10].slug@[1] == 'o' && v@[10].slug@[2] == 'o');
        assert(v@[11].slug@.len() == 8 && v@[11].slug@[0] == 't' && v@[11].slug@[1] == 'e' && v@[11].slug@[2] == 'r');
        assert(v@[12].slug@.len() == 11 && v@[12].slug@[0] == 'c' && v@[12].slug@[1] == 'o' && v@[12].slug@[2] == 'm');
        assert(v@[13].slug@.len() == 3 && v@[13].slug@[0] == 'g' && v@[13].slug@[1] == 'i' && v@[13].slug@[2] == 't');
        assert(v@.take(14) =~= v@);
        reveal_with_fuel(total_bindings, 15);
    }
    v
}

/// Whether the bindings hold this binding.
pub open spec fn holds_binding(bs: Seq<Binding>, b: Binding) -> bool {
    exists|i: int| 0 <= i < bs.len() && bs[i] == b
}

/// The catalog by value: each category's number of bindings and every
/// binding it holds, key, action and context (for example, Undo / Redo binds
/// `ctrl-y` to `editor::Redo` in `Editor`). With the counts, this fixes each
/// category's bindings up to their order.
pub proof fn lemma_catalog_table()
    ensures
        clipboard_catalog().len() == 4,
        holds_binding(clipboard_catalog(), (Binding { key: "ctrl-c", action: Action::Simple("editor::Copy"), context: "Editor" })),
        holds_binding(clipboard_catalog(), (Binding { key: "ctrl-x", action: Action::Simple("editor::Cut"), context: "Editor" })),
        holds_binding(clipboard_catalog(), (Binding { key: "ctrl-v", action: Action::Simple("editor::Paste"), context: "Editor" })),
        holds_binding(clipboard_catalog(), (Binding { key: "ctrl-shift-v", action: Action::Simple("editor::Paste"), context: "Editor" })),
        undo_redo_catalog().len() == 3,
        holds_binding(undo_redo_catalog(), (Binding { key: "ctrl-z", action: Action::Simple("editor::Undo"), context: "Editor" })),
        holds_binding(undo_redo_catalog(), (Binding { key: "ctrl-y", action: Action::Simple("editor::Redo"), context: "Editor" })),
        holds_binding(undo_redo_catalog(), (Binding { key: "ctrl-shift-z", action: Action::Simple("editor::Redo"), context: "Editor" })),
        selection_catalog().len() == 10,
        holds_binding(selection_catalog(), (Binding { key: "ctrl-a", action: Action::Simple("editor::SelectAll"), context: "Editor" })),
        holds_binding(selection_catalog(), (Binding { key: "ctrl-d", action: Action::Simple("editor::SelectNext"), context: "Editor && mode == full" })),
        holds_binding(selection_catalog(), (Binding { key: "ctrl-shift-l", action: Action::Simple("editor::SelectAllMatches"), context: "Editor && mode == full" })),
        holds_binding(selection_catalog(), (Binding { key: "ctrl-l", action: Action::Simple("editor::SelectLine"), context: "Editor && mode == full" })),
        holds_binding(selection_catalog(), (Binding { key: "ctrl-shift-k", action: Action::Simple("editor::DeleteLine"), context: "Editor && mode == full" })),
        holds_binding(selection_catalog(), (Binding { key: "ctrl-alt-up", action: Action::Simple("editor::AddSelectionAbove"), context: "Editor && mode == full" })),
        holds_binding(selection_catalog(), (Binding { key: "ctrl-alt-down", action: Action::Simple("editor::AddSelectionBelow"), context: "Editor && mode == full" })),
        holds_binding(selection_catalog(), (Binding { key: "shift-alt-down", action: Action::Simple("editor::DuplicateLineDown"), context: "Editor && mode == full" })),
        holds_binding(selection_catalog(), (Binding { key: "shift-alt-up", action: Action::Simple("editor::DuplicateLineUp"), context: "Editor && mode == full" })),
        holds_binding(selection_catalog(), (Binding { key: "ctrl-shift-d", action: Action::Simple("editor::DuplicateLineDown"), context: "Editor && mode == full" })),
        cursor_movement_catalog().len() == 14,
        holds_binding(cursor_movement_catalog(), (Binding { key: "ctrl-right", action: Action::Simple("editor::MoveToNextWordEnd"), context: "Editor" })),
        holds_binding(cursor_movement_catalog(), (Binding { key: "ctrl-left", action: Action::Simple("editor::MoveToPreviousWordStart"), context: "Editor" })),
        holds_binding(cursor_movement_catalog(), (Binding { key: "ctrl-shift-right", action: Action::Simple("editor::SelectToNextWordEnd"), context: "Editor" })),
        holds_binding(cursor_movement_catalog(), (Binding { key: "ctrl-shift-left", action: Action::Simple("editor::SelectToPreviousWordStart"), context: "Editor" })),
        holds_binding(cursor_movement_catalog(), (Binding { key: "home", action: Action::Simple("editor::MoveToBeginningOfLine"), context: "Editor" })),
        holds_binding(cursor_movement_catalog(), (Binding { key: "end", action: Action::Simple("editor::MoveToEndOfLine"), context: "Editor" })),
        holds_binding(cursor_movement_catalog(), (Binding { key: "shift-home", action: Action::Simple("editor::SelectToBeginningOfLine"), context: "Editor" })),
        holds_binding(cursor_movement_catalog(), (Binding { key: "shift-end", action: Action::Simple("editor::SelectToEndOfLine"), context: "Editor" })),
        holds_binding(cursor_movement_catalog(), (Binding { key: "ctrl-home", action: Action::Simple("editor::MoveToBeginning"), context: "Editor" })),
        holds_binding(cursor_movement_catalog(), (Binding { key: "ctrl-end", action: Action::Simple("editor::MoveToEnd"), context: "Editor" })),
        holds_binding(cursor_movement_catalog(), (Binding { key: "ctrl-shift-home", action: Action::Simple("editor::SelectToBeginning"), context: "Editor" })),
        holds_binding(cursor_movement_catalog(), (Binding { key: "ctrl-shift-end", action: Action::Simple("editor::SelectToEnd"), context: "Editor" })),
        holds_binding(cursor_movement_catalog(), (Binding { key: "ctrl-backspace", action: Action::Simple("editor::DeleteToPreviousWordStart"), context: "Editor" })),
        holds_binding(cursor_movement_catalog(), (Binding { key: "ctrl-delete", action: Action::Simple("editor::DeleteToNextWordEnd"), context: "Editor" })),
        find_replace_catalog().len() == 7,
        holds_binding(find_replace_catalog(), (Binding { key: "ctrl-f", action: Action::Simple("buffer_search::Deploy"), context: "Editor && mode == full" })),
        holds_binding(find_replace_catalog(), (Binding { key: "ctrl-h", action: Action::Simple("buffer_search::DeployReplace"), context: "Editor && mode == full" })),
        holds_binding(find_replace_catalog(), (Binding { key: "ctrl-shift-f", action: Action::Simple("pane::DeploySearch"), context: "Workspace" })),
        holds_binding(find_replace_catalog(), (Binding { key: "ctrl-shift-h", action: Action::Simple("search::ToggleReplace"), context: "ProjectSearchBar > Editor" })),
        holds_binding(find_replace_catalog(), (Binding { key: "f3", action: Action::Simple("search::SelectNextMatch"), context: "Editor" })),
        holds_binding(find_replace_catalog(), (Binding { key: "shift-f3", action: Action::Simple("search::SelectPreviousMatch"), context: "Editor" })),
        holds_binding(find_replace_catalog(), (Binding { key: "escape", action: Action::Simple("buffer_search::Dismiss"), context: "BufferSearchBar > Editor" })),
        file_operations_catalog().len() == 8,
        holds_binding(file_operations_catalog(), (Binding { key: "ctrl-s", action: Action::Simple("workspace::Save"), context: "" })),
        holds_binding(file_operations_catalog(), (Binding { key: "ctrl-shift-s", action: Action::Simple("workspace::SaveAs"), context: "" })),
        holds_binding(file_operations_catalog(), (Binding { key: "ctrl-k s", action: Action::Simple("workspace::SaveAll"), context: "" })),
        holds_binding(file_operations_catalog(), (Binding { key: "ctrl-n", action: Action::Simple("workspace::NewFile"), context: "" })),
        holds_binding(file_operations_catalog(), (Binding { key: "ctrl-o", action: Action::Simple("workspace::Open"), context: "" })),
        holds_binding(file_operations_catalog(), (Binding { key: "ctrl-shift-n", action: Action::Simple("workspace::NewWindow"), context: "" })),
        holds_binding(file_operations_catalog(), (Binding { key: "ctrl-w", action: Action::Simple("pane::CloseActiveItem"), context: "Pane" })),
        holds_binding(file_operations_catalog(), (Binding { key: "ctrl-shift-t", action: Action::Simple("pane::ReopenClosedItem"), context: "Pane" })),
        navigation_catalog().len() == 17,
        holds_binding(navigation_catalog(), (Binding { key: "ctrl-p", action: Action::Simple("file_finder::Toggle"), context: "" })),
        holds_binding(navigation_catalog(), (Binding { key: "ctrl-shift-p", action: Action::Simple("command_palette::Toggle"), context: "" })),
        holds_binding(navigation_catalog(), (Binding { key: "ctrl-g", action: Action::Simple("go_to_line::Toggle"), context: "Editor && mode == full" })),
        holds_binding(navigation_catalog(), (Binding { key: "ctrl-shift-o", action: Action::Simple("outline::Toggle"), context: "Editor && mode == full" })),
        holds_binding(navigation_catalog(), (Binding { key: "ctrl-tab", action: Action::Simple("pane::ActivateNextItem"), context: "Pane" })),
        holds_binding(navigation_catalog(), (Binding { key: "ctrl-shift-tab", action: Action::Simple("pane::ActivatePreviousItem"), context: "Pane" })),
        holds_binding(navigation_catalog(), (Binding { key: "alt-left", action: Action::Simple("pane::GoBack"), context: "Pane" })),
        holds_binding(navigation_catalog(), (Binding { key: "alt-right", action: Action::Simple("pane::GoForward"), context: "Pane" })),
        holds_binding(navigation_catalog(), (Binding { key: "ctrl-1", action: Action::WithArg("pane::ActivateItem", "{\"index\": 0}"), context: "Pane" })),
        holds_binding(navigation_catalog(), (Binding { key: "ctrl-2", action: Action::WithArg("pane::ActivateItem", "{\"index\": 1}"), context: "Pane" })),
        holds_binding(navigation_catalog(), (Binding { key: "ctrl-3", action: Action::WithArg("pane::ActivateItem", "{\"index\": 2}"), context: "Pane" })),
        holds_binding(navigation_catalog(), (Binding { key: "ctrl-4", action: Action::WithArg("pane::ActivateItem", "{\"index\": 3}"), context: "Pane" })),
        holds_binding(navigation_catalog(), (Binding { key: "ctrl-5", action: Action::WithArg("pane::ActivateItem", "{\"index\": 4}"), context: "Pane" })),
        holds_binding(navigation_catalog(), (Binding { key: "ctrl-6", action: Action::WithArg("pane::ActivateItem", "{\"index\": 5}"), context: "Pane" })),
        holds_binding(navigation_catalog(), (Binding { key: "ctrl-7", action: Action::WithArg("pane::ActivateItem", "{\"index\": 6}"), context: "Pane" })),
        holds_binding(navigation_catalog(), (Binding { key: "ctrl-8", action: Action::WithArg("pane::ActivateItem", "{\"index\": 7}"), context: "Pane" })),
        holds_binding(navigation_catalog(), (Binding { key: "ctrl-9", action: Action::WithArg("pane::ActivateItem", "{\"index\": 8}"), context: "Pane" })),
        code_editing_catalog().len() == 13,
        holds_binding(code_editing_catalog(), (Binding { key: "ctrl-/", action: Action::Simple("editor::ToggleComments"), context: "Editor && mode == full" })),
        holds_binding(code_editing_catalog(), (Binding { key: "shift-alt-a", action: Action::Simple("editor::ToggleBlockComments"), context: "Editor && mode == full" })),
        holds_binding(code_editing_catalog(), (Binding { key: "ctrl-]", action: Action::Simple("editor::Indent"), context: "Editor && mode == full" })),
        holds_binding(code_editing_catalog(), (Binding { key: "ctrl-[", action: Action::Simple("editor::Outdent"), context: "Editor && mode == full" })),
        holds_binding(code_editing_catalog(), (Binding { key: "alt-up", action: Action::Simple("editor::MoveLineUp"), context: "Editor && mode == full" })),
        holds_binding(code_editing_catalog(), (Binding { key: "alt-down", action: Action::Simple("editor::MoveLineDown"), context: "Editor && mode == full" })),
        holds_binding(code_editing_catalog(), (Binding { key: "ctrl-shift-[", action: Action::Simple("editor::Fold"), context: "Editor && mode == full" })),
        holds_binding(code_editing_catalog(), (Binding { key: "ctrl-shift-]", action: Action::Simple("editor::UnfoldLines"), context: "Editor && mode == full" })),
        holds_binding(code_editing_catalog(), (Binding { key: "ctrl-enter", action: Action::Simple("editor::NewlineBelow"), context: "Editor && mode == full" })),
        holds_binding(code_editing_catalog(), (Binding { key: "ctrl-shift-enter", action: Action::Simple("editor::NewlineAbove"), context: "Editor && mode == full" })),
        holds_binding(code_editing_catalog(), (Binding { key: "shift-alt-f", action: Action::Simple("editor::Format"), context: "Editor && mode == full" })),
        holds_binding(code_editing_catalog(), (Binding { key: "shift-alt-o", action: Action::Simple("editor::OrganizeImports"), context: "Editor && mode == full" })),
        holds_binding(code_editing_catalog(), (Binding { key: "ctrl-j", action: Action::Simple("editor::JoinLines"), context: "Editor && mode == full" })),
        code_intelligence_catalog().len() == 8,
        holds_binding(code_intelligence_catalog(), (Binding { key: "f12", action: Action::Simple("editor::GoToDefinition"), context: "Editor && mode == full" })),
        holds_binding(code_intelligence_catalog(), (Binding { key: "alt-f12", action: Action::Simple("editor::GoToDefinitionSplit"), context: "Editor && mode == full" })),
        holds_binding(code_intelligence_catalog(), (Binding { key: "shift-f12", action: Action::Simple("editor::FindAllReferences"), context: "Editor && mode == full" })),
        holds_binding(code_intelligence_catalog(), (Binding { key: "f2", action: Action::Simple("editor::Rename"), context: "Editor && mode == full" })),
        holds_binding(code_intelligence_catalog(), (Binding { key: "ctrl-.", action: Action::Simple("editor::ToggleCodeActions"), context: "Editor && mode == full" })),
        holds_binding(code_intelligence_catalog(), (Binding { key: "ctrl-shift-space", action: Action::Simple("editor::ShowSignatureHelp"), context: "Editor && mode == full" })),
        holds_binding(code_intelligence_catalog(), (Binding { key: "ctrl-space", action: Action::Simple("editor::ShowCompletions"), context: "Editor && mode == full" })),
        holds_binding(code_intelligence_catalog(), (Binding { key: "ctrl-k ctrl-i", action: Action::Simple("editor::Hover"), context: "Editor && mode == full" })),
        panels_catalog().len() == 7,
        holds_binding(panels_catalog(), (Binding { key: "ctrl-b", action: Action::Simple("workspace::ToggleLeftDock"), context: "" })),
        holds_binding(panels_catalog(), (Binding { key: "ctrl-shift-e", action: Action::Simple("project_panel::ToggleFocus"), context: "" })),
        holds_binding(panels_catalog(), (Binding { key: "ctrl-shift-m", action: Action::Simple("diagnostics::Deploy"), context: "" })),
        holds_binding(panels_catalog(), (Binding { key: "ctrl-`", action: Action::Simple("terminal_panel::ToggleFocus"), context: "" })),
        holds_binding(panels_catalog(), (Binding { key: "ctrl-shift-`", action: Action::Simple("workspace::NewTerminal"), context: "" })),
        holds_binding(panels_catalog(), (Binding { key: "ctrl-shift-y", action: Action::Simple("workspace::ToggleBottomDock"), context: "" })),
        holds_binding(panels_catalog(), (Binding { key: "ctrl-shift-j", action: Action::Simple("workspace::ToggleRightDock"), context: "" })),
        zoom_layout_catalog().len() == 6,
        holds_binding(zoom_layout_catalog(), (Binding { key: "ctrl-=", action: Action::Simple("zed::IncreaseBufferFontSize"), context: "" })),
        holds_binding(zoom_layout_catalog(), (Binding { key: "ctrl--", action: Action::Simple("zed::DecreaseBufferFontSize"), context: "" })),
        holds_binding(zoom_layout_catalog(), (Binding { key: "ctrl-0", action: Action::Simple("zed::ResetBufferFontSize"), context: "" })),
        holds_binding(zoom_layout_catalog(), (Binding { key: "ctrl-\\", action: Action::Simple("pane::SplitRight"), context: "Pane" })),
        holds_binding(zoom_layout_catalog(), (Binding { key: "ctrl-shift-\\", action: Action::Simple("pane::SplitDown"), context: "Pane" })),
        holds_binding(zoom_layout_catalog(), (Binding { key: "f11", action: Action::Simple("zed::ToggleFullScreen"), context: "" })),
        terminal_catalog().len() == 4,
        holds_binding(terminal_catalog(), (Binding { key: "ctrl-c", action: Action::Simple("terminal::Copy"), context: "Terminal" })),
        holds_binding(terminal_catalog(), (Binding { key: "ctrl-v", action: Action::Simple("terminal::Paste"), context: "Terminal" })),
        holds_binding(terminal_catalog(), (Binding { key: "ctrl-shift-`", action: Action::Simple("workspace::NewTerminal"), context: "Terminal" })),
        holds_binding(terminal_catalog(), (Binding { key: "ctrl-a", action: Action::Simple("terminal::SelectAll"), context: "Terminal" })),
        completions_catalog().len() == 3,
        holds_binding(completions_catalog(), (Binding { key: "enter", action: Action::Simple("editor::ConfirmCompletion"), context: "Editor && showing_completions" })),
        holds_binding(completions_catalog(), (Binding { key: "tab", action: Action::Simple("editor::ConfirmCompletion"), context: "Editor && showing_completions" })),
        holds_binding(completions_catalog(), (Binding { key: "escape", action: Action::Simple("editor::Cancel"), context: "Editor && showing_completions" })),
        git_catalog().len() == 1,
        holds_binding(git_catalog(), (Binding { key: "ctrl-shift-g", action: Action::Simple("git_panel::ToggleFocus"), context: "" })),
{
    assert(clipboard_catalog()[0] == (Binding { key: "ctrl-c", action: Action::Simple("editor::Copy"), context: "Editor" }));
    assert(clipboard_catalog()[1] == (Binding { key: "ctrl-x", action: Action::Simple("editor::Cut"), context: "Editor" }));
    assert(clipboard_catalog()[2] == (Binding { key: "ctrl-v", action: Action::Simple("editor::Paste"), context: "Editor" }));
    assert(clipboard_catalog()[3] == (Binding { key: "ctrl-shift-v", action: Action::Simple("editor::Paste"), context: "Editor" }));
    assert(undo_redo_catalog()[0] == (Binding { key: "ctrl-z", action: Action::Simple("editor::Undo"), context: "Editor" }));
    assert(undo_redo_catalog()[1] == (Binding { key: "ctrl-y", action: Action::Simple("editor::Redo"), context: "Editor" }));
    assert(undo_redo_catalog()[2] == (Binding { key: "ctrl-shift-z", action: Action::Simple("editor::Redo"), context: "Editor" }));
    assert(selection_catalog()[0] == (Binding { key: "ctrl-a", action: Action::Simple("editor::SelectAll"), context: "Editor" }));
    assert(selection_catalog()[1] == (Binding { key: "ctrl-d", action: Action::Simple("editor::SelectNext"), context: "Editor && mode == full" }));
    assert(selection_catalog()[2] == (Binding { key: "ctrl-shift-l", action: Action::Simple("editor::SelectAllMatches"), context: "Editor && mode == full" }));
    assert(selection_catalog()[3] == (Binding { key: "ctrl-l", action: Action::Simple("editor::SelectLine"), context: "Editor && mode == full" }));
    assert(selection_catalog()[4] == (Binding { key: "ctrl-shift-k", action: Action::Simple("editor::DeleteLine"), context: "Editor && mode == full" }));
    assert(selection_catalog()[5] == (Binding { key: "ctrl-alt-up", action: Action::Simple("editor::AddSelectionAbove"), context: "Editor && mode == full" }));
    assert(selection_catalog()[6] == (Binding { key: "ctrl-alt-down", action: Action::Simple("editor::AddSelectionBelow"), context: "Editor && mode == full" }));
    assert(selection_catalog()[7] == (Binding { key: "shift-alt-down", action: Action::Simple("editor::DuplicateLineDown"), context: "Editor && mode == full" }));
    assert(selection_catalog()[8] == (Binding { key: "shift-alt-up", action: Action::Simple("editor::DuplicateLineUp"), context: "Editor && mode == full" }));
    assert(selection_catalog()[9] == (Binding { key: "ctrl-shift-d", action: Action::Simple("editor::DuplicateLineDown"), context: "Editor && mode == full" }));
    assert(cursor_movement_catalog()[0] == (Binding { key: "ctrl-right", action: Action::Simple("editor::MoveToNextWordEnd"), context: "Editor" }));
    assert(cursor_movement_catalog()[1] == (Binding { key: "ctrl-left", action: Action::Simple("editor::MoveToPreviousWordStart"), context: "Editor" }));
    assert(cursor_movement_catalog()[2] == (Binding { key: "ctrl-shift-right", action: Action::Simple("editor::SelectToNextWordEnd"), context: "Editor" }));
    assert(cursor_movement_catalog()[3] == (Binding { key: "ctrl-shift-left", action: Action::Simple("editor::SelectToPreviousWordStart"), context: "Editor" }));
    assert(cursor_movement_catalog()[4] == (Binding { key: "home", action: Action::Simple("editor::MoveToBeginningOfLine"), context: "Editor" }));
    assert(cursor_movement_catalog()[5] == (Binding { key: "end", action: Action::Simple("editor::MoveToEndOfLine"), context: "Editor" }));
    assert(cursor_movement_catalog()[6] == (Binding { key: "shift-home", action: Action::Simple("editor::SelectToBeginningOfLine"), context: "Editor" }));
    assert(cursor_movement_catalog()[7] == (Binding { key: "shift-end", action: Action::Simple("editor::SelectToEndOfLine"), context: "Editor" }));
    assert(cursor_movement_catalog()[8] == (Binding { key: "ctrl-home", action: Action::Simple("editor::MoveToBeginning"), context: "Editor" }));
    assert(cursor_movement_catalog()[9] == (Binding { key: "ctrl-end", action: Action::Simple("editor::MoveToEnd"), context: "Editor" }));
    assert(cursor_movement_catalog()[10] == (Binding { key: "ctrl-shift-home", action: Action::Simple("editor::SelectToBeginning"), context: "Editor" }));
    assert(cursor_movement_catalog()[11] == (Binding { key: "ctrl-shift-end", action: Action::Simple("editor::SelectToEnd"), context: "Editor" }));
    assert(cursor_movement_catalog()[12] == (Binding { key: "ctrl-backspace", action: Action::Simple("editor::DeleteToPreviousWordStart"), context: "Editor" }));
    assert(cursor_movement_catalog()[13] == (Binding { key: "ctrl-delete", action: Action::Simple("editor::DeleteToNextWordEnd"), context: "Editor" }));
    assert(find_replace_catalog()[0] == (Binding { key: "ctrl-f", action: Action::Simple("buffer_search::Deploy"), context: "Editor && mode == full" }));
    assert(find_replace_catalog()[1] == (Binding { key: "ctrl-h", action: Action::Simple("buffer_search::DeployReplace"), context: "Editor && mode == full" }));
    assert(find_replace_catalog()[2] == (Binding { key: "ctrl-shift-f", action: Action::Simple("pane::DeploySearch"), context: "Workspace" }));
    assert(find_replace_catalog()[3] == (Binding { key: "ctrl-shift-h", action: Action::Simple("search::ToggleReplace"), context: "ProjectSearchBar > Editor" }));
    assert(find_replace_catalog()[4] == (Binding { key: "f3", action: Action::Simple("search::SelectNextMatch"), context: "Editor" }));
    assert(find_replace_catalog()[5] == (Binding { key: "shift-f3", action: Action::Simple("search::SelectPreviousMatch"), context: "Editor" }));
    assert(find_replace_catalog()[6] == (Binding { key: "escape", action: Action::Simple("buffer_search::Dismiss"), context: "BufferSearchBar > Editor" }));
    assert(file_operations_catalog()[0] == (Binding { key: "ctrl-s", action: Action::Simple("workspace::Save"), context: "" }));
    assert(file_operations_catalog()[1] == (Binding { key: "ctrl-shift-s", action: Action::Simple("workspace::SaveAs"), context: "" }));
    assert(file_operations_catalog()[2] == (Binding { key: "ctrl-k s", action: Action::Simple("workspace::SaveAll"), context: "" }));
    assert(file_operations_catalog()[3] == (Binding { key: "ctrl-n", action: Action::Simple("workspace::NewFile"), context: "" }));
    assert(file_operations_catalog()[4] == (Binding { key: "ctrl-o", action: Action::Simple("workspace::Open"), context: "" }));
    assert(file_operations_catalog()[5] == (Binding { key: "ctrl-shift-n", action: Action::Simple("workspace::NewWindow"), context: "" }));
    assert(file_operations_catalog()[6] == (Binding { key: "ctrl-w", action: Action::Simple("pane::CloseActiveItem"), context: "Pane" }));
    assert(file_operations_catalog()[7] == (Binding { key: "ctrl-shift-t", action: Action::Simple("pane::ReopenClosedItem"), context: "Pane" }));
    assert(navigation_catalog()[0] == (Binding { key: "ctrl-p", action: Action::Simple("file_finder::Toggle"), context: "" }));
    assert(navigation_catalog()[1] == (Binding { key: "ctrl-shift-p", action: Action::Simple("command_palette::Toggle"), context: "" }));
    assert(navigation_catalog()[2] == (Binding { key: "ctrl-g", action: Action::Simple("go_to_line::Toggle"), context: "Editor && mode == full" }));
    assert(navigation_catalog()[3] == (Binding { key: "ctrl-shift-o", action: Action::Simple("outline::Toggle"), context: "Editor && mode == full" }));
    assert(navigation_catalog()[4] == (Binding { key: "ctrl-tab", action: Action::Simple("pane::ActivateNextItem"), context: "Pane" }));
    assert(navigation_catalog()[5] == (Binding { key: "ctrl-shift-tab", action: Action::Simple("pane::ActivatePreviousItem"), context: "Pane" }));
    assert(navigation_catalog()[6] == (Binding { key: "alt-left", action: Action::Simple("pane::GoBack"), context: "Pane" }));
    assert(navigation_catalog()[7] == (Binding { key: "alt-right", action: Action::Simple("pane::GoForward"), context: "Pane" }));
    assert(navigation_catalog()[8] == (Binding { key: "ctrl-1", action: Action::WithArg("pane::ActivateItem", "{\"index\": 0}"), context: "Pane" }));
    assert(navigation_catalog()[9] == (Binding { key: "ctrl-2", action: Action::WithArg("pane::ActivateItem", "{\"index\": 1}"), context: "Pane" }));
    assert(navigation_catalog()[10] == (Binding { key: "ctrl-3", action: Action::WithArg("pane::ActivateItem", "{\"index\": 2}"), context: "Pane" }));
    assert(navigation_catalog()[11] == (Binding { key: "ctrl-4", action: Action::WithArg("pane::ActivateItem", "{\"index\": 3}"), context: "Pane" }));
    assert(navigation_catalog()[12] == (Binding { key: "ctrl-5", action: Action::WithArg("pane::ActivateItem", "{\"index\": 4}"), context: "Pane" }));
    assert(navigation_catalog()[13] == (Binding { key: "ctrl-6", action: Action::WithArg("pane::ActivateItem", "{\"index\": 5}"), context: "Pane" }));
    assert(navigation_catalog()[14] == (Binding { key: "ctrl-7", action: Action::WithArg("pane::ActivateItem", "{\"index\": 6}"), context: "Pane" }));
    assert(navigation_catalog()[15] == (Binding { key: "ctrl-8", action: Action::WithArg("pane::ActivateItem", "{\"index\": 7}"), context: "Pane" }));
    assert(navigation_catalog()[16] == (Binding { key: "ctrl-9", action: Action::WithArg("pane::ActivateItem", "{\"index\": 8}"), context: "Pane" }));
    assert(code_editing_catalog()[0] == (Binding { key: "ctrl-/", action: Action::Simple("editor::ToggleComments"), context: "Editor && mode == full" }));
    assert(code_editing_catalog()[1] == (Binding { key: "shift-alt-a", action: Action::Simple("editor::ToggleBlockComments"), context: "Editor && mode == full" }));
    assert(code_editing_catalog()[2] == (Binding { key: "ctrl-]", action: Action::Simple("editor::Indent"), context: "Editor && mode == full" }));
    assert(code_editing_catalog()[3] == (Binding { key: "ctrl-[", action: Action::Simple("editor::Outdent"), context: "Editor && mode == full" }));
    assert(code_editing_catalog()[4] == (Binding { key: "alt-up", action: Action::Simple("editor::MoveLineUp"), context: "Editor && mode == full" }));
    assert(code_editing_catalog()[5] == (Binding { key: "alt-down", action: Action::Simple("editor::MoveLineDown"), context: "Editor && mode == full" }));
    assert(code_editing_catalog()[6] == (Binding { key: "ctrl-shift-[", action: Action::Simple("editor::Fold"), context: "Editor && mode == full" }));
    assert(code_editing_catalog()[7] == (Binding { key: "ctrl-shift-]", action: Action::Simple("editor::UnfoldLines"), context: "Editor && mode == full" }));
    assert(code_editing_catalog()[8] == (Binding { key: "ctrl-enter", action: Action::Simple("editor::NewlineBelow"), context: "Editor && mode == full" }));
    assert(code_editing_catalog()[9] == (Binding { key: "ctrl-shift-enter", action: Action::Simple("editor::NewlineAbove"), context: "Editor && mode == full" }));
    assert(code_editing_catalog()[10] == (Binding { key: "shift-alt-f", action: Action::Simple("editor::Format"), context: "Editor && mode == full" }));
    assert(code_editing_catalog()[11] == (Binding { key: "shift-alt-o", action: Action::Simple("editor::OrganizeImports"), context: "Editor && mode == full" }));
    assert(code_editing_catalog()[12] == (Binding { key: "ctrl-j", action: Action::Simple("editor::JoinLines"), context: "Editor && mode == full" }));
    assert(code_intelligence_catalog()[0] == (Binding { key: "f12", action: Action::Simple("editor::GoToDefinition"), context: "Editor && mode == full" }));
    assert(code_intelligence_catalog()[1] == (Binding { key: "alt-f12", action: Action::Simple("editor::GoToDefinitionSplit"), context: "Editor && mode == full" }));
    assert(code_intelligence_catalog()[2] == (Binding { key: "shift-f12", action: Action::Simple("editor::FindAllReferences"), context: "Editor && mode == full" }));
    assert(code_intelligence_catalog()[3] == (Binding { key: "f2", action: Action::Simple("editor::Rename"), context: "Editor && mode == full" }));
    assert(code_intelligence_catalog()[4] == (Binding { key: "ctrl-.", action: Action::Simple("editor::ToggleCodeActions"), context: "Editor && mode == full" }));
    assert(code_intelligence_catalog()[5] == (Binding { key: "ctrl-shift-space", action: Action::Simple("editor::ShowSignatureHelp"), context: "Editor && mode == full" }));
    assert(code_intelligence_catalog()[6] == (Binding { key: "ctrl-space", action: Action::Simple("editor::ShowCompletions"), context: "Editor && mode == full" }));
    assert(code_intelligence_catalog()[7] == (Binding { key: "ctrl-k ctrl-i", action: Action::Simple("editor::Hover"), context: "Editor && mode == full" }));
    assert(panels_catalog()[0] == (Binding { key: "ctrl-b", action: Action::Simple("workspace::ToggleLeftDock"), context: "" }));
    assert(panels_catalog()[1] == (Binding { key: "ctrl-shift-e", action: Action::Simple("project_panel::ToggleFocus"), context: "" }));
    assert(panels_catalog()[2] == (Binding { key: "ctrl-shift-m", action: Action::Simple("diagnostics::Deploy"), context: "" }));
    assert(panels_catalog()[3] == (Binding { key: "ctrl-`", action: Action::Simple("terminal_panel::ToggleFocus"), context: "" }));
    assert(panels_catalog()[4] == (Binding { key: "ctrl-shift-`", action: Action::Simple("workspace::NewTerminal"), context: "" }));
    assert(panels_catalog()[5] == (Binding { key: "ctrl-shift-y", action: Action::Simple("workspace::ToggleBottomDock"), context: "" }));
    assert(panels_catalog()[6] == (Binding { key: "ctrl-shift-j", action: Action::Simple("workspace::ToggleRightDock"), context: "" }));
    assert(zoom_layout_catalog()[0] == (Binding { key: "ctrl-=", action: Action::Simple("zed::IncreaseBufferFontSize"), context: "" }));
    assert(zoom_layout_catalog()[1] == (Binding { key: "ctrl--", action: Action::Simple("zed::DecreaseBufferFontSize"), context: "" }));
    assert(zoom_layout_catalog()[2] == (Binding { key: "ctrl-0", action: Action::Simple("zed::ResetBufferFontSize"), context: "" }));
    assert(zoom_layout_catalog()[3] == (Binding { key: "ctrl-\\", action: Action::Simple("pane::SplitRight"), context: "Pane" }));
    assert(zoom_layout_catalog()[4] == (Binding { key: "ctrl-shift-\\", action: Action::Simple("pane::SplitDown"), context: "Pane" }));
    assert(zoom_layout_catalog()[5] == (Binding { key: "f11", action: Action::Simple("zed::ToggleFullScreen"), context: "" }));
    assert(terminal_catalog()[0] == (Binding { key: "ctrl-c", action: Action::Simple("terminal::Copy"), context: "Terminal" }));
    assert(terminal_catalog()[1] == (Binding { key: "ctrl-v", action: Action::Simple("terminal::Paste"), context: "Terminal" }));
    assert(terminal_catalog()[2] == (Binding { key: "ctrl-shift-`", action: Action::Simple("workspace::NewTerminal"), context: "Terminal" }));
    assert(terminal_catalog()[3] == (Binding { key: "ctrl-a", action: Action::Simple("terminal::SelectAll"), context: "Terminal" }));
    assert(completions_catalog()[0] == (Binding { key: "enter", action: Action::Simple("editor::ConfirmCompletion"), context: "Editor && showing_completions" }));
    assert(completions_catalog()[1] == (Binding { key: "tab", action: Action::Simple("editor::ConfirmCompletion"), context: "Editor && showing_completions" }));
    assert(completions_catalog()[2] == (Binding { key: "escape", action: Action::Simple("editor::Cancel"), context: "Editor && showing_completions" }));
    assert(git_catalog()[0] == (Binding { key: "ctrl-shift-g", action: Action::Simple("git_panel::ToggleFocus"), context: "" }));
}

} // verus!
