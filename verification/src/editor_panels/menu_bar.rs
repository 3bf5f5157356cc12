//! Menu bar panel: its state and what each menu item does.

use vstd::prelude::*;

use crate::editor_panels::{ConsoleLogLevel, EditorState};
use crate::editor_panels::welcome::{shown_name, shown_template};
use crate::project::{describes_project_error, no_project_text, ProjectError, ProjectManager, ProjectTemplate};
use crate::text::string_from;

verus! {

/// The items of the File, Edit, View and Help menus.
#[derive(Debug, Clone, Copy, PartialEq, Eq, Structural)]
pub enum MenuCommand {
    NewProject,
    OpenProject,
    Save,
    SaveAs,
    Quit,
    Undo,
    Redo,
    SelectAll,
    Deselect,
    Delete,
    Duplicate,
    Fullscreen,
    ResetLayout,
    KeyboardShortcuts,
    Documentation,
    About,
}

/// The fixed console message an item logs, if any (Save logs its outcome).
pub open spec fn menu_message(c: MenuCommand) -> Option<Seq<char>> {
    match c {
        MenuCommand::NewProject => Some("New project wizard opened"@),
        MenuCommand::OpenProject => Some("Open project dialog opened"@),
        MenuCommand::SaveAs => Some("Save As requested"@),
        MenuCommand::Deselect => Some("Deselected all"@),
        MenuCommand::Fullscreen => Some("Toggle fullscreen requested"@),
        MenuCommand::ResetLayout => Some("Reset layout requested"@),
        MenuCommand::Documentation => Some("Open docs requested"@),
        _ => None,
    }
}

/// Top menu bar of the editor.
pub struct MenuBarPanel {
    /// Whether the keyboard-shortcuts dialog is open.
    pub show_shortcuts_dialog: bool,
}

/// The Save item: prepare the loaded project for writing and log the outcome.
fn save_and_log(state: &mut EditorState)
    ensures
        final(state).world == old(state).world,
        final(state).selected_entities == old(state).selected_entities,
        final(state).project_manager.show_new_wizard == old(state).project_manager.show_new_wizard,
        final(state).project_manager.show_open_dialog == old(state).project_manager.show_open_dialog,
        final(state).project_manager.project_dir == old(state).project_manager.project_dir,
        final(state).project_manager.recent_projects == old(state).project_manager.recent_projects,
        final(state).save_as_requested == old(state).save_as_requested,
        final(state).should_quit == old(state).should_quit,
        final(state).undo_requested == old(state).undo_requested,
        final(state).redo_requested == old(state).redo_requested,
        final(state).select_all_requested == old(state).select_all_requested,
        final(state).delete_selected_requested == old(state).delete_selected_requested,
        final(state).duplicate_selected_requested == old(state).duplicate_selected_requested,
        final(state).fullscreen_requested == old(state).fullscreen_requested,
        final(state).reset_layout_requested == old(state).reset_layout_requested,
        final(state).show_about == old(state).show_about,
        final(state).console_log@.len() == old(state).console_log@.len() + 1,
        old(state).project_manager.current_project is None ==> final(state).console_log@.last().level
            == ConsoleLogLevel::Warn && final(state).console_log@.last().message@
            == "No project loaded to save"@,
        old(state).project_manager.current_project is Some && old(state).project_manager.project_dir
            is Some ==> final(state).console_log@.last().level == ConsoleLogLevel::Info
            && final(state).console_log@.last().message@ == "Project saved"@,
        old(state).project_manager.current_project is Some && old(state).project_manager.project_dir
            is None ==> final(state).console_log@.last().level == ConsoleLogLevel::Error
            && final(state).console_log@.last().message@ == "Save failed: "@ + "project not found: "@
            + no_project_text(),
{
    if state.project_manager.is_loaded() {
        match state.project_manager.save_current() {
            Ok(()) => state.log(ConsoleLogLevel::Info, string_from("Project saved")),
            Err(e) => {
                let mut msg = string_from("Save failed: ");
                msg.append(e.to_string().as_str());
                state.log(ConsoleLogLevel::Error, msg);
            },
        }
    } else {
        state.log(ConsoleLogLevel::Warn, string_from("No project loaded to save"));
    }
}

impl MenuBarPanel {
    /// A menu bar with the shortcuts dialog closed.
    pub fn new() -> (p: Self)
        ensures
            !p.show_shortcuts_dialog,
    {
        Self { show_shortcuts_dialog: false }
    }

    /// Panel title.
    pub fn title(&self) -> (s: &'static str)
        ensures
            s@ == "Menu Bar"@,
    {
        "Menu Bar"
    }

    /// Carry out a menu item: raise the flag or open the dialog it stands
    /// for and log its message; Save prepares the current project for
    /// writing and logs the outcome.
    #[verifier::spinoff_prover]
    #[verifier::rlimit(60)]
    pub fn execute(&mut self, state: &mut EditorState, cmd: MenuCommand)
        ensures
            final(state).world == old(state).world,
            cmd != MenuCommand::Deselect ==> final(state).selected_entities == old(state).selected_entities,
            cmd == MenuCommand::Deselect ==> final(state).selected_entities@.len() == 0,
            final(self).show_shortcuts_dialog == (old(self).show_shortcuts_dialog || cmd
                == MenuCommand::KeyboardShortcuts),
            menu_flags(*final(state), *old(state), cmd),
            cmd != MenuCommand::Save ==> final(state).project_manager.current_project == old(
                state,
            ).project_manager.current_project,
            final(state).project_manager.project_dir == old(state).project_manager.project_dir,
            final(state).project_manager.recent_projects == old(state).project_manager.recent_projects,
            menu_message(cmd) matches Some(m) ==> final(state).console_log@.len() == old(
                state,
            ).console_log@.len() + 1 && final(state).console_log@.last().level == ConsoleLogLevel::Info
                && final(state).console_log@.last().message@ == m,
            menu_message(cmd) is None && cmd != MenuCommand::Save ==> final(state).console_log
                == old(state).console_log,
            cmd == MenuCommand::Save ==> saved_and_logged(*final(state), *old(state)),
    {
        match cmd {
            MenuCommand::Save => save_and_log(state),
            MenuCommand::Deselect => {
                state.clear_selection();
                state.log(ConsoleLogLevel::Info, string_from("Deselected all"));
            },
            MenuCommand::KeyboardShortcuts => {
                self.show_shortcuts_dialog = true;
            },
            _ => {
                raise_flag(state, cmd);
                match message_text(cmd) {
                    Some(m) => state.log(ConsoleLogLevel::Info, m),
                    None => {},
                }
            },
        }
    }
}

/// How Save leaves the console: one entry more, which reports the outcome.
pub open spec fn saved_and_logged(new: EditorState, old: EditorState) -> bool {
    &&& new.console_log@.len() == old.console_log@.len() + 1
    &&& old.project_manager.current_project is None ==> new.console_log@.last().level
        == ConsoleLogLevel::Warn && new.console_log@.last().message@ == "No project loaded to save"@
    &&& old.project_manager.current_project is Some && old.project_manager.project_dir is Some
        ==> new.console_log@.last().level == ConsoleLogLevel::Info
        && new.console_log@.last().message@ == "Project saved"@
    &&& old.project_manager.current_project is Some && old.project_manager.project_dir is None
        ==> new.console_log@.last().level == ConsoleLogLevel::Error
        && new.console_log@.last().message@ == "Save failed: "@ + "project not found: "@
        + no_project_text()
}

/// The request flags after a menu item: the one the item stands for is
/// raised, every other keeps its value.
pub open spec fn menu_flags(new: EditorState, old: EditorState, cmd: MenuCommand) -> bool {
    &&& new.project_manager.show_new_wizard == (old.project_manager.show_new_wizard || cmd
        == MenuCommand::NewProject)
    &&& new.project_manager.show_open_dialog == (old.project_manager.show_open_dialog || cmd
        == MenuCommand::OpenProject)
    &&& new.save_as_requested == (old.save_as_requested || cmd == MenuCommand::SaveAs)
    &&& new.should_quit == (old.should_quit || cmd == MenuCommand::Quit)
    &&& new.undo_requested == (old.undo_requested || cmd == MenuCommand::Undo)
    &&& new.redo_requested == (old.redo_requested || cmd == MenuCommand::Redo)
    &&& new.select_all_requested == (old.select_all_requested || cmd == MenuCommand::SelectAll)
    &&& new.delete_selected_requested == (old.delete_selected_requested || cmd
        == MenuCommand::Delete)
    &&& new.duplicate_selected_requested == (old.duplicate_selected_requested || cmd
        == MenuCommand::Duplicate)
    &&& new.fullscreen_requested == (old.fullscreen_requested || cmd == MenuCommand::Fullscreen)
    &&& new.reset_layout_requested == (old.reset_layout_requested || cmd
        == MenuCommand::ResetLayout)
    &&& new.show_about == (old.show_about || cmd == MenuCommand::About)
}

/// The fixed message of an item, as a string.
fn message_text(cmd: MenuCommand) -> (r: Option<String>)
    ensures
        match menu_message(cmd) {
            Some(m) => r matches Some(t) && t@ == m,
            None => r is None,
        },
{
    match cmd {
        MenuCommand::NewProject => Some(string_from("New project wizard opened")),
        MenuCommand::OpenProject => Some(string_from("Open project dialog opened")),
        MenuCommand::SaveAs => Some(string_from("Save As requested")),
        MenuCommand::Deselect => Some(string_from("Deselected all")),
        MenuCommand::Fullscreen => Some(string_from("Toggle fullscreen requested")),
        MenuCommand::ResetLayout => Some(string_from("Reset layout requested")),
        MenuCommand::Documentation => Some(string_from("Open docs requested")),
        _ => None,
    }
}

/// Raise the flag an item stands for; nothing else changes.
#[verifier::spinoff_prover]
#[verifier::rlimit(60)]
fn raise_flag(state: &mut EditorState, cmd: MenuCommand)
    ensures
        final(state).project_manager.show_new_wizard == (old(state).project_manager.show_new_wizard || cmd == MenuCommand::NewProject),
        final(state).project_manager.show_open_dialog == (old(state).project_manager.show_open_dialog || cmd == MenuCommand::OpenProject),
        final(state).save_as_requested == (old(state).save_as_requested || cmd == MenuCommand::SaveAs),
        final(state).should_quit == (old(state).should_quit || cmd == MenuCommand::Quit),
        final(state).undo_requested == (old(state).undo_requested || cmd == MenuCommand::Undo),
        final(state).redo_requested == (old(state).redo_requested || cmd == MenuCommand::Redo),
        final(state).select_all_requested == (old(state).select_all_requested || cmd == MenuCommand::SelectAll),
        final(state).delete_selected_requested == (old(state).delete_selected_requested || cmd == MenuCommand::Delete),
        final(state).duplicate_selected_requested == (old(state).duplicate_selected_requested || cmd == MenuCommand::Duplicate),
        final(state).fullscreen_requested == (old(state).fullscreen_requested || cmd == MenuCommand::Fullscreen),
        final(state).reset_layout_requested == (old(state).reset_layout_requested || cmd == MenuCommand::ResetLayout),
        final(state).show_about == (old(state).show_about || cmd == MenuCommand::About),
        final(state).world == old(state).world,
        final(state).selected_entities == old(state).selected_entities,
        final(state).console_log == old(state).console_log,
        final(state).project_manager.current_project == old(state).project_manager.current_project,
        final(state).project_manager.project_dir == old(state).project_manager.project_dir,
        final(state).project_manager.recent_projects == old(state).project_manager.recent_projects,
{
    let new_wizard = state.project_manager.show_new_wizard || cmd == MenuCommand::NewProject;
    let open_dialog = state.project_manager.show_open_dialog || cmd == MenuCommand::OpenProject;
    let save_as = state.save_as_requested || cmd == MenuCommand::SaveAs;
    let quit = state.should_quit || cmd == MenuCommand::Quit;
    let undo = state.undo_requested || cmd == MenuCommand::Undo;
    let redo = state.redo_requested || cmd == MenuCommand::Redo;
    let select_all = state.select_all_requested || cmd == MenuCommand::SelectAll;
    let delete = state.delete_selected_requested || cmd == MenuCommand::Delete;
    let duplicate = state.duplicate_selected_requested || cmd == MenuCommand::Duplicate;
    let fullscreen = state.fullscreen_requested || cmd == MenuCommand::Fullscreen;
    let reset_layout = state.reset_layout_requested || cmd == MenuCommand::ResetLayout;
    let about = state.show_about || cmd == MenuCommand::About;
    state.project_manager.show_new_wizard = new_wizard;
    state.project_manager.show_open_dialog = open_dialog;
    state.save_as_requested = save_as;
    state.should_quit = quit;
    state.undo_requested = undo;
    state.redo_requested = redo;
    state.select_all_requested = select_all;
    state.delete_selected_requested = delete;
    state.duplicate_selected_requested = duplicate;
    state.fullscreen_requested = fullscreen;
    state.reset_layout_requested = reset_layout;
    state.show_about = about;
}

impl MenuBarPanel {
    /// Finish a click on a recent project once it was (or could not be)
    /// opened from `path`: on success it is adopted and the opening logged,
    /// on failure the error is logged under the entry's name.
    pub fn complete_recent_open(
        &mut self,
        state: &mut EditorState,
        recent_name: &str,
        path: &str,
        recent_template: ProjectTemplate,
        outcome: Result<ProjectManager, ProjectError>,
    )
        ensures
            final(state).world == old(state).world,
            final(state).console_log@.drop_last() == old(state).console_log@,
            final(state).console_log@.len() == old(state).console_log@.len() + 1,
            final(self).show_shortcuts_dialog == old(self).show_shortcuts_dialog,
            match outcome {
                Ok(mgr) => {
                    &&& final(state).project_manager.current_project == mgr.current_project
                    &&& final(state).project_path matches Some(p) && p@ == path@
                    &&& final(state).recent_dirty
                    &&& mgr.max_recent > 0 ==> final(state).project_manager.recent_projects@[0].template
                        == shown_template(mgr, recent_template)
                    &&& final(state).console_log@.last().level == ConsoleLogLevel::Info
                    &&& final(state).console_log@.last().message@ == "Opened recent project: "@
                        + shown_name(mgr)
                },
                Err(e) => {
                    &&& final(state).project_manager == old(state).project_manager
                    &&& final(state).console_log@.last().level == ConsoleLogLevel::Error
                    &&& {
                        let prefix = "Failed to open recent project '"@ + recent_name@ + "': "@;
                        let msg = final(state).console_log@.last().message@;
                        &&& msg.len() >= prefix.len()
                        &&& msg.take(prefix.len() as int) == prefix
                        &&& describes_project_error(e, msg.skip(prefix.len() as int))
                    }
                },
            },
    {
        match outcome {
            Ok(mgr) => {
                let name = string_from(mgr.project_name());
                state.adopt_project(mgr, path, recent_template);
                let mut msg = string_from("Opened recent project: ");
                msg.append(name.as_str());
                state.log(ConsoleLogLevel::Info, msg);
            },
            Err(e) => {
                let text = e.to_string();
                let mut msg = string_from("Failed to open recent project '");
                msg.append(recent_name);
                msg.append("': ");
                msg.append(text.as_str());
                state.log(ConsoleLogLevel::Error, msg);
                proof {
                    let prefix = "Failed to open recent project '"@ + recent_name@ + "': "@;
                    assert(state.console_log@.last().message@ == prefix + text@);
                    assert((prefix + text@).take(prefix.len() as int) =~= prefix);
                    assert((prefix + text@).skip(prefix.len() as int) =~= text@);
                }
            },
        }
    }
}

impl Default for MenuBarPanel {
    fn default() -> (p: Self)
        ensures
            !p.show_shortcuts_dialog,
    {
        Self::new()
    }
}

} // verus!
