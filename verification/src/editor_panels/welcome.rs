//! Welcome screen shown when no project is loaded: the new-project form,
//! the open-project form, and what their buttons decide.

use vstd::prelude::*;

use crate::editor_panels::{ConsoleLogLevel, EditorState};
use crate::project::{ProjectError, ProjectManager, ProjectTemplate, describes_project_error, list_after_add};
use crate::text::{chars_of, string_from, string_from_chars, trim_chars, trim_seq};

verus! {

/// `"Project name cannot be empty."`.
pub open spec fn empty_name_text() -> Seq<char> {
    "Project name cannot be empty."@
}

/// `"Project path cannot be empty."`.
pub open spec fn empty_path_text() -> Seq<char> {
    "Project path cannot be empty."@
}

/// Welcome screen panel displayed when no project is loaded.
pub struct WelcomeScreen {
    /// Selected template for new project.
    pub selected_template: ProjectTemplate,
    /// Project name input buffer.
    pub project_name: String,
    /// Show new project wizard section.
    pub show_new_project: bool,
    /// Path input for opening an existing project.
    pub open_project_path: String,
    /// Show open-project path input.
    pub show_open_project: bool,
    /// Error message to display inline.
    pub last_error: Option<String>,
}

impl WelcomeScreen {
    /// The state of a fresh welcome screen.
    pub open spec fn is_fresh(&self) -> bool {
        &&& self.selected_template == ProjectTemplate::Empty
        &&& self.project_name@.len() == 0
        &&& !self.show_new_project
        &&& self.open_project_path@.len() == 0
        &&& !self.show_open_project
        &&& self.last_error is None
    }

    /// Create a new welcome screen with default state.
    pub fn new() -> (w: Self)
        ensures
            w.is_fresh(),
    {
        Self {
            selected_template: ProjectTemplate::Empty,
            project_name: String::new(),
            show_new_project: false,
            open_project_path: String::new(),
            show_open_project: false,
            last_error: None,
        }
    }

    /// Panel title.
    pub fn title(&self) -> (s: &'static str)
        ensures
            s@ == "Welcome"@,
    {
        "Welcome"
    }

    /// Clear any transient error message.
    pub fn clear_error(&mut self)
        ensures
            final(self).last_error is None,
            final(self).selected_template == old(self).selected_template,
            final(self).project_name == old(self).project_name,
            final(self).show_new_project == old(self).show_new_project,
            final(self).open_project_path == old(self).open_project_path,
            final(self).show_open_project == old(self).show_open_project,
    {
        self.last_error = None;
    }

    /// Open the forms that the new-project / open-project shortcuts asked
    /// for, and lower those requests.
    pub fn take_requests(&mut self, pm: &mut ProjectManager)
        ensures
            final(self).show_new_project == (old(self).show_new_project || old(pm).show_new_wizard),
            final(self).show_open_project == (old(self).show_open_project || old(pm).show_open_dialog),
            !final(pm).show_new_wizard,
            !final(pm).show_open_dialog,
            final(pm).current_project == old(pm).current_project,
            final(pm).project_dir == old(pm).project_dir,
            final(pm).recent_projects == old(pm).recent_projects,
            final(pm).max_recent == old(pm).max_recent,
            final(pm).show_welcome == old(pm).show_welcome,
            final(self).project_name == old(self).project_name,
            final(self).last_error == old(self).last_error,
    {
        if pm.show_new_wizard {
            self.show_new_project = true;
            pm.show_new_wizard = false;
        }
        if pm.show_open_dialog {
            self.show_open_project = true;
            pm.show_open_dialog = false;
        }
    }

    /// The "Open Project" button: toggles the open form and closes the
    /// new-project form.
    pub fn toggle_open_project(&mut self)
        ensures
            final(self).show_open_project == !old(self).show_open_project,
            !final(self).show_new_project,
            final(self).project_name == old(self).project_name,
            final(self).open_project_path == old(self).open_project_path,
    {
        self.show_open_project = !self.show_open_project;
        self.show_new_project = false;
    }

    /// The "New Project" button: toggles the new-project form and closes
    /// the open form.
    pub fn toggle_new_project(&mut self)
        ensures
            final(self).show_new_project == !old(self).show_new_project,
            !final(self).show_open_project,
            final(self).project_name == old(self).project_name,
            final(self).open_project_path == old(self).open_project_path,
    {
        self.show_new_project = !self.show_new_project;
        self.show_open_project = false;
    }

    /// The name a project is created under: the typed name without
    /// surrounding white space. An empty name is refused, and the refusal is
    /// shown as the error.
    pub fn requested_project_name(&mut self) -> (r: Option<String>)
        ensures
            trim_seq(old(self).project_name@).len() == 0 ==> (r is None && (final(self).last_error matches Some(e)
                && e@ == empty_name_text())),
            trim_seq(old(self).project_name@).len() > 0 ==> ((r matches Some(n) && n@ == trim_seq(
                old(self).project_name@,
            )) && final(self).last_error == old(self).last_error),
            final(self).project_name == old(self).project_name,
            final(self).selected_template == old(self).selected_template,
            final(self).show_new_project == old(self).show_new_project,
    {
        let t = trim_chars(&chars_of(self.project_name.as_str()));
        if t.len() == 0 {
            self.last_error = Some(string_from("Project name cannot be empty."));
            None
        } else {
            Some(string_from_chars(&t))
        }
    }

    /// The directory a project is opened from: the typed path without
    /// surrounding white space. An empty path is refused, and the refusal is
    /// shown as the error.
    pub fn requested_open_path(&mut self) -> (r: Option<String>)
        ensures
            trim_seq(old(self).open_project_path@).len() == 0 ==> (r is None && (final(self).last_error matches Some(e)
                && e@ == empty_path_text())),
            trim_seq(old(self).open_project_path@).len() > 0 ==> ((r matches Some(n) && n@ == trim_seq(
                old(self).open_project_path@,
            )) && final(self).last_error == old(self).last_error),
            final(self).open_project_path == old(self).open_project_path,
            final(self).show_open_project == old(self).show_open_project,
    {
        let t = trim_chars(&chars_of(self.open_project_path.as_str()));
        if t.len() == 0 {
            self.last_error = Some(string_from("Project path cannot be empty."));
            None
        } else {
            Some(string_from_chars(&t))
        }
    }

    /// After a project was created: close the form, empty the name and
    /// clear the error.
    pub fn finish_create(&mut self)
        ensures
            !final(self).show_new_project,
            final(self).project_name@.len() == 0,
            final(self).last_error is None,
            final(self).selected_template == old(self).selected_template,
    {
        self.show_new_project = false;
        self.project_name = String::new();
        self.clear_error();
    }

    /// After a project was opened: close the form, empty the path and clear
    /// the error.
    pub fn finish_open(&mut self)
        ensures
            !final(self).show_open_project,
            final(self).open_project_path@.len() == 0,
            final(self).last_error is None,
    {
        self.show_open_project = false;
        self.open_project_path = String::new();
        self.clear_error();
    }

    /// Show `message` as the error.
    pub fn fail(&mut self, message: String)
        ensures
            final(self).last_error == Some(message),
            final(self).project_name == old(self).project_name,
            final(self).open_project_path == old(self).open_project_path,
            final(self).show_new_project == old(self).show_new_project,
            final(self).show_open_project == old(self).show_open_project,
    {
        self.last_error = Some(message);
    }
}

impl Default for WelcomeScreen {
    fn default() -> (w: Self)
        ensures
            w.is_fresh(),
    {
        Self::new()
    }
}

/// The name a manager shows for its project.
pub open spec fn shown_name(m: ProjectManager) -> Seq<char> {
    match m.current_project {
        Some(p) => p.name@,
        None => "No Project"@,
    }
}

/// The template of a manager's project, or `fallback` without one.
pub open spec fn shown_template(m: ProjectManager, fallback: ProjectTemplate) -> ProjectTemplate {
    match m.current_project {
        Some(p) => p.template,
        None => fallback,
    }
}

impl EditorState {
    /// Install a newly created or opened project manager for the project in
    /// `dir`: the recent list of the session survives and the project joins
    /// its head, the path is remembered and the list is marked for saving.
    pub fn adopt_project(&mut self, mgr: ProjectManager, dir: &str, fallback: ProjectTemplate)
        ensures
            final(self).project_manager.current_project == mgr.current_project,
            final(self).project_manager.project_dir == mgr.project_dir,
            final(self).project_manager.max_recent == mgr.max_recent,
            final(self).project_path matches Some(p) && p@ == dir@,
            final(self).recent_dirty,
            mgr.max_recent > 0 ==> {
                let e = final(self).project_manager.recent_projects@[0];
                &&& final(self).project_manager.recent_projects@.len() > 0
                &&& e.name@ == shown_name(mgr)
                &&& e.path@ == dir@
                &&& e.template == shown_template(mgr, fallback)
                &&& final(self).project_manager.recent_projects@ == list_after_add(
                    old(self).project_manager.recent_projects@,
                    e,
                    mgr.max_recent as nat,
                )
            },
            final(self).world == old(self).world,
            final(self).selected_entities == old(self).selected_entities,
            final(self).console_log == old(self).console_log,
    {
        let name = string_from(mgr.project_name());
        let template = match &mgr.current_project {
            Some(m) => m.template,
            None => fallback,
        };
        self.adopt_project_as(mgr, name.as_str(), dir, template);
    }

    /// [`adopt_project`](Self::adopt_project) with the recent entry's name
    /// and template given.
    pub fn adopt_project_as(&mut self, mgr: ProjectManager, name: &str, dir: &str, template: ProjectTemplate)
        ensures
            final(self).project_manager.current_project == mgr.current_project,
            final(self).project_manager.project_dir == mgr.project_dir,
            final(self).project_manager.max_recent == mgr.max_recent,
            final(self).project_path matches Some(p) && p@ == dir@,
            final(self).recent_dirty,
            mgr.max_recent > 0 ==> {
                let e = final(self).project_manager.recent_projects@[0];
                &&& final(self).project_manager.recent_projects@.len() > 0
                &&& e.name@ == name@
                &&& e.path@ == dir@
                &&& e.template == template
                &&& final(self).project_manager.recent_projects@ == list_after_add(
                    old(self).project_manager.recent_projects@,
                    e,
                    mgr.max_recent as nat,
                )
            },
            final(self).world == old(self).world,
            final(self).selected_entities == old(self).selected_entities,
            final(self).console_log == old(self).console_log,
    {
        let mut incoming = mgr;
        std::mem::swap(&mut incoming.recent_projects, &mut self.project_manager.recent_projects);
        self.project_manager = incoming;
        self.project_manager.add_recent(name, dir, template);
        self.project_path = Some(string_from(dir));
        self.recent_dirty = true;
    }
}

impl WelcomeScreen {
    /// Finish the Create button once the project in `dir` was (or could not
    /// be) created under `name`: on success the project is adopted, the
    /// creation logged and the form reset; on failure the error is shown
    /// and logged.
    pub fn complete_create(
        &mut self,
        state: &mut EditorState,
        name: &str,
        dir: &str,
        outcome: Result<ProjectManager, ProjectError>,
    )
        ensures
            final(state).world == old(state).world,
            final(state).console_log@.drop_last() == old(state).console_log@,
            final(state).console_log@.len() == old(state).console_log@.len() + 1,
            match outcome {
                Ok(mgr) => {
                    &&& final(state).project_manager.current_project == mgr.current_project
                    &&& final(state).project_path matches Some(p) && p@ == dir@
                    &&& final(state).recent_dirty
                    &&& final(state).console_log@.last().level == ConsoleLogLevel::Info
                    &&& final(state).console_log@.last().message@ == "Created project '"@ + name@
                        + "' at "@ + shown_name(mgr)
                    &&& !final(self).show_new_project
                    &&& final(self).project_name@.len() == 0
                    &&& final(self).last_error is None
                },
                Err(e) => {
                    &&& final(state).project_manager == old(state).project_manager
                    &&& final(state).console_log@.last().level == ConsoleLogLevel::Error
                    &&& final(self).last_error matches Some(m) && final(state).console_log@.last().message@
                        == "Create project failed: "@ + m@ && describes_project_error(e, m@)
                    &&& final(self).show_new_project == old(self).show_new_project
                },
            },
    {
        match outcome {
            Ok(mgr) => {
                let created = string_from(mgr.project_name());
                let fallback = self.selected_template;
                state.adopt_project(mgr, dir, fallback);
                let mut msg = string_from("Created project '");
                msg.append(name);
                msg.append("' at ");
                msg.append(created.as_str());
                state.log(ConsoleLogLevel::Info, msg);
                self.finish_create();
            },
            Err(e) => {
                let text = e.to_string();
                let mut msg = string_from("Create project failed: ");
                msg.append(text.as_str());
                state.log(ConsoleLogLevel::Error, msg);
                self.fail(text);
            },
        }
    }

    /// Finish a click on a recent project in the list once it was (or could
    /// not be) opened from `path`: on success it is adopted under the
    /// entry's name and the opening logged, on failure the error is logged.
    pub fn complete_recent_open(
        &mut self,
        state: &mut EditorState,
        recent_name: &str,
        path: &str,
        recent_template: ProjectTemplate,
        outcome: Result<ProjectManager, ProjectError>,
    )
        ensures
            final(state).world == old(state).world,
            final(state).console_log@.drop_last() == old(state).console_log@,
            final(state).console_log@.len() == old(state).console_log@.len() + 1,
            match outcome {
                Ok(mgr) => {
                    &&& final(state).project_manager.current_project == mgr.current_project
                    &&& final(state).project_path matches Some(p) && p@ == path@
                    &&& final(state).recent_dirty
                    &&& mgr.max_recent > 0 ==> final(state).project_manager.recent_projects@[0].name@
                        == recent_name@ && final(state).project_manager.recent_projects@[0].template
                        == shown_template(mgr, recent_template)
                    &&& final(state).console_log@.last().level == ConsoleLogLevel::Info
                    &&& final(state).console_log@.last().message@ == "Opened recent project: "@
                        + recent_name@
                },
                Err(e) => {
                    &&& final(state).project_manager == old(state).project_manager
                    &&& final(state).console_log@.last().level == ConsoleLogLevel::Error
                    &&& {
                        let prefix = "Failed to open recent project '"@ + recent_name@ + "': "@;
                        let msg = final(state).console_log@.last().message@;
                        &&& msg.len() >= prefix.len()
                        &&& msg.take(prefix.len() as int) == prefix
                        &&& describes_project_error(e, msg.skip(prefix.len() as int))
                    }
                },
            },
            final(self).show_new_project == old(self).show_new_project,
            final(self).show_open_project == old(self).show_open_project,
    {
        match outcome {
            Ok(mgr) => {
                let template = match &mgr.current_project {
                    Some(m) => m.template,
                    None => recent_template,
                };
                state.adopt_project_as(mgr, recent_name, path, template);
                let mut msg = string_from("Opened recent project: ");
                msg.append(recent_name);
                state.log(ConsoleLogLevel::Info, msg);
            },
            Err(e) => {
                let text = e.to_string();
                let mut msg = string_from("Failed to open recent project '");
                msg.append(recent_name);
                msg.append("': ");
                msg.append(text.as_str());
                state.log(ConsoleLogLevel::Error, msg);
                proof {
                    let prefix = "Failed to open recent project '"@ + recent_name@ + "': "@;
                    assert(state.console_log@.last().message@ == prefix + text@);
                    assert((prefix + text@).take(prefix.len() as int) =~= prefix);
                    assert((prefix + text@).skip(prefix.len() as int) =~= text@);
                }
            },
        }
    }

    /// Finish the Open button once the project at `path` was (or could not
    /// be) opened: on success the project is adopted, the opening logged
    /// and the form reset; on failure the error is shown and logged.
    pub fn complete_open(
        &mut self,
        state: &mut EditorState,
        path: &str,
        outcome: Result<ProjectManager, ProjectError>,
    )
        ensures
            final(state).world == old(state).world,
            final(state).console_log@.drop_last() == old(state).console_log@,
            final(state).console_log@.len() == old(state).console_log@.len() + 1,
            match outcome {
                Ok(mgr) => {
                    &&& final(state).project_manager.current_project == mgr.current_project
                    &&& final(state).project_path matches Some(p) && p@ == path@
                    &&& final(state).recent_dirty
                    &&& final(state).console_log@.last().level == ConsoleLogLevel::Info
                    &&& final(state).console_log@.last().message@ == "Opened project '"@ + shown_name(mgr)
                        + "'"@
                    &&& !final(self).show_open_project
                    &&& final(self).open_project_path@.len() == 0
                    &&& final(self).last_error is None
                },
                Err(e) => {
                    &&& final(state).project_manager == old(state).project_manager
                    &&& final(state).console_log@.last().level == ConsoleLogLevel::Error
                    &&& final(self).last_error matches Some(m) && final(state).console_log@.last().message@
                        == "Open project failed: "@ + m@ && describes_project_error(e, m@)
                    &&& final(self).show_open_project == old(self).show_open_project
                },
            },
    {
        match outcome {
            Ok(mgr) => {
                let opened = string_from(mgr.project_name());
                state.adopt_project(mgr, path, ProjectTemplate::Empty);
                let mut msg = string_from("Opened project '");
                msg.append(opened.as_str());
                msg.append("'");
                state.log(ConsoleLogLevel::Info, msg);
                self.finish_open();
            },
            Err(e) => {
                let text = e.to_string();
                let mut msg = string_from("Open project failed: ");
                msg.append(text.as_str());
                state.log(ConsoleLogLevel::Error, msg);
                self.fail(text);
            },
        }
    }
}

} // verus!
