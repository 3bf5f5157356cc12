//! The editor's window-level requests carried out once per frame: Save As,
//! fullscreen, layout reset and engine launch. The world-level requests are
//! [`EditorState::process_world_requests`].

use vstd::prelude::*;

use crate::editor_panels::{ConsoleLogLevel, EditorState};
use crate::project::{describes_project_error, exists_text, string_views, ProjectError, ProjectManifest};
use crate::text::string_from;

verus! {

impl EditorState {
    /// Carry out a pending Save As into `copy_dir` (the directory beside
    /// the project named `<project>_copy`, when one can be formed);
    /// `dest_manifest_exists` says whether that directory already holds a
    /// manifest. The flag is lowered and the project manager is left as it
    /// is. When a copy can be made it is returned for the caller to write
    /// into `copy_dir`, then to hand to [`EditorState::finish_save_as`];
    /// every other outcome is logged.
    pub fn handle_save_as_request(&mut self, copy_dir: Option<&str>, dest_manifest_exists: bool) -> (copy:
        Option<ProjectManifest>)
        ensures
            !final(self).save_as_requested,
            final(self).world == old(self).world,
            final(self).selected_entities == old(self).selected_entities,
            final(self).project_manager == old(self).project_manager,
            final(self).recent_dirty == old(self).recent_dirty,
            copy is Some ==> old(self).save_as_requested,
            !old(self).save_as_requested ==> final(self).console_log == old(self).console_log,
            old(self).save_as_requested && copy is None ==> final(self).console_log@.len()
                == old(self).console_log@.len() + 1 && final(self).console_log@.drop_last()
                == old(self).console_log@,
            old(self).save_as_requested && old(self).project_manager.current_project is None ==> {
                &&& copy is None
                &&& final(self).console_log@.last().level == ConsoleLogLevel::Warn
                &&& final(self).console_log@.last().message@ == "No project loaded to save as"@
            },
            old(self).save_as_requested && old(self).project_manager.current_project is Some
                && copy_dir is None ==> {
                &&& copy is None
                &&& final(self).console_log@.last().level == ConsoleLogLevel::Warn
                &&& final(self).console_log@.last().message@ == "Could not determine copy destination"@
            },
            old(self).save_as_requested && old(self).project_manager.current_project is Some
                && copy_dir is Some && dest_manifest_exists ==> {
                &&& copy is None
                &&& final(self).console_log@.last().level == ConsoleLogLevel::Error
                &&& final(self).console_log@.last().message@ == "Save As failed: "@
                    + "project already exists: "@ + exists_text(copy_dir.unwrap()@)
            },
            old(self).save_as_requested && old(self).project_manager.current_project is Some
                && copy_dir is Some && !dest_manifest_exists ==> {
                let o = old(self).project_manager.current_project.unwrap();
                &&& final(self).console_log == old(self).console_log
                &&& copy matches Some(p) && p.name@ == o.name@ && p.template == o.template
                    && p.created_at == o.created_at
                    && string_views(p.scenes@) == string_views(o.scenes@)
            },
    {
        if !self.save_as_requested {
            return None;
        }
        self.save_as_requested = false;
        if !self.project_manager.is_loaded() {
            self.log(ConsoleLogLevel::Warn, string_from("No project loaded to save as"));
            return None;
        }
        let dir = match copy_dir {
            Some(d) => d,
            None => {
                self.log(ConsoleLogLevel::Warn, string_from("Could not determine copy destination"));
                return None;
            },
        };
        let name = string_from(self.project_manager.project_name());
        match self.project_manager.save_as_copy(name.as_str(), dir, dest_manifest_exists) {
            Ok(copy) => Some(copy),
            Err(e) => {
                let mut msg = string_from("Save As failed: ");
                msg.append(e.to_string().as_str());
                self.log(ConsoleLogLevel::Error, msg);
                None
            },
        }
    }

    /// Finish a Save As given the outcome of writing `copy` into `dir`: on
    /// success the project is re-targeted to the copy, the copy joins the
    /// head of the recent list, the list is marked for saving and
    /// `"Saved project copy to <dir>"` is logged; on failure only
    /// `"Save As failed: <error>"` is logged.
    pub fn finish_save_as(&mut self, copy: ProjectManifest, dir: &str, written: Result<(), ProjectError>)
        ensures
            final(self).world == old(self).world,
            final(self).selected_entities == old(self).selected_entities,
            final(self).console_log@.len() == old(self).console_log@.len() + 1,
            final(self).console_log@.drop_last() == old(self).console_log@,
            match written {
                Ok(()) => {
                    &&& final(self).console_log@.last().level == ConsoleLogLevel::Info
                    &&& final(self).console_log@.last().message@ == "Saved project copy to "@ + dir@
                    &&& final(self).recent_dirty
                    &&& final(self).project_manager.current_project == Some(copy)
                    &&& final(self).project_manager.project_dir matches Some(pd) && pd@ == dir@
                    &&& old(self).project_manager.max_recent > 0 ==> {
                        &&& final(self).project_manager.recent_projects@.len() > 0
                        &&& final(self).project_manager.recent_projects@[0].name@ == copy.name@
                        &&& final(self).project_manager.recent_projects@[0].path@ == dir@
                        &&& final(self).project_manager.recent_projects@[0].template == copy.template
                    }
                },
                Err(e) => {
                    &&& final(self).console_log@.last().level == ConsoleLogLevel::Error
                    &&& exists|t: Seq<char>| final(self).console_log@.last().message@ == "Save As failed: "@ + t
                        && describes_project_error(e, t)
                    &&& final(self).project_manager == old(self).project_manager
                    &&& final(self).recent_dirty == old(self).recent_dirty
                },
            },
    {
        let name = string_from(copy.name.as_str());
        let template = copy.template;
        match self.project_manager.save_as(copy, dir, written) {
            Ok(()) => {
                self.project_manager.add_recent(name.as_str(), dir, template);
                let mut msg = string_from("Saved project copy to ");
                msg.append(dir);
                self.log(ConsoleLogLevel::Info, msg);
                self.recent_dirty = true;
            },
            Err(e) => {
                let t = e.to_string();
                let mut msg = string_from("Save As failed: ");
                msg.append(t.as_str());
                self.log(ConsoleLogLevel::Error, msg);
                proof {
                    assert(describes_project_error(e, t@));
                }
            },
        }
    }

    /// Carry out a pending fullscreen toggle given whether the window is
    /// fullscreen now: the flag is lowered, the change is logged, and the
    /// fullscreen state the window must take is returned. Nothing happens
    /// without a request.
    pub fn handle_fullscreen_request(&mut self, is_fullscreen: bool) -> (set_to: Option<bool>)
        ensures
            !final(self).fullscreen_requested,
            final(self).world == old(self).world,
            final(self).selected_entities == old(self).selected_entities,
            final(self).project_manager == old(self).project_manager,
            !old(self).fullscreen_requested ==> set_to is None && final(self).console_log == old(self).console_log,
            old(self).fullscreen_requested ==> {
                &&& set_to == Some(!is_fullscreen)
                &&& final(self).console_log@.drop_last() == old(self).console_log@
                &&& final(self).console_log@.len() == old(self).console_log@.len() + 1
                &&& final(self).console_log@.last().level == ConsoleLogLevel::Info
                &&& final(self).console_log@.last().message@ == (if is_fullscreen {
                    "Exited fullscreen"@
                } else {
                    "Entered fullscreen"@
                })
            },
    {
        if !self.fullscreen_requested {
            return None;
        }
        self.fullscreen_requested = false;
        if is_fullscreen {
            self.log(ConsoleLogLevel::Info, string_from("Exited fullscreen"));
        } else {
            self.log(ConsoleLogLevel::Info, string_from("Entered fullscreen"));
        }
        Some(!is_fullscreen)
    }

    /// Carry out a pending layout reset: the flag is lowered, the reset is
    /// logged, and `true` tells the caller to reset the panel areas.
    pub fn handle_reset_layout_request(&mut self) -> (reset: bool)
        ensures
            reset == old(self).reset_layout_requested,
            !final(self).reset_layout_requested,
            final(self).world == old(self).world,
            final(self).selected_entities == old(self).selected_entities,
            final(self).project_manager == old(self).project_manager,
            !reset ==> final(self).console_log == old(self).console_log,
            reset ==> final(self).console_log@.drop_last() == old(self).console_log@
                && final(self).console_log@.len() == old(self).console_log@.len() + 1
                && final(self).console_log@.last().level == ConsoleLogLevel::Info
                && final(self).console_log@.last().message@ == "Layout reset to defaults"@,
    {
        if !self.reset_layout_requested {
            return false;
        }
        self.reset_layout_requested = false;
        self.log(ConsoleLogLevel::Info, string_from("Layout reset to defaults"));
        true
    }

    /// Carry out a pending engine launch: the flag is lowered; without a
    /// project directory a warning is logged, otherwise the launch is
    /// logged and the directory to run the engine in is returned.
    pub fn handle_launch_request(&mut self) -> (dir: Option<String>)
        ensures
            !final(self).launch_engine_requested,
            final(self).world == old(self).world,
            final(self).selected_entities == old(self).selected_entities,
            final(self).project_manager == old(self).project_manager,
            !old(self).launch_engine_requested ==> dir is None && final(self).console_log == old(self).console_log,
            old(self).launch_engine_requested ==> {
                &&& final(self).console_log@.drop_last() == old(self).console_log@
                &&& final(self).console_log@.len() == old(self).console_log@.len() + 1
                &&& match old(self).project_manager.project_dir {
                    None => dir is None && final(self).console_log@.last().level == ConsoleLogLevel::Warn
                        && final(self).console_log@.last().message@
                        == "No project loaded — cannot launch engine"@,
                    Some(p) => dir matches Some(d) && d@ == p@ && final(self).console_log@.last().level
                        == ConsoleLogLevel::Info && final(self).console_log@.last().message@
                        == "Launching engine in "@ + p@,
                }
            },
    {
        if !self.launch_engine_requested {
            return None;
        }
        self.launch_engine_requested = false;
        match &self.project_manager.project_dir {
            None => {
                self.log(ConsoleLogLevel::Warn, string_from("No project loaded — cannot launch engine"));
                None
            },
            Some(p) => {
                let dir = string_from(p.as_str());
                let mut msg = string_from("Launching engine in ");
                msg.append(p.as_str());
                self.log(ConsoleLogLevel::Info, msg);
                Some(dir)
            },
        }
    }

    /// Log how the engine launch went: the process id, or the error text.
    pub fn report_engine_launch(&mut self, outcome: Result<u32, String>)
        ensures
            final(self).world == old(self).world,
            final(self).console_log@.drop_last() == old(self).console_log@,
            final(self).console_log@.len() == old(self).console_log@.len() + 1,
            match outcome {
                Ok(pid) => final(self).console_log@.last().level == ConsoleLogLevel::Info
                    && final(self).console_log@.last().message@ == "Engine started (PID: "@
                    + crate::text::decimal(pid as nat) + ")"@,
                Err(e) => final(self).console_log@.last().level == ConsoleLogLevel::Error
                    && final(self).console_log@.last().message@ == "Failed to launch engine: "@ + e@,
            },
    {
        match outcome {
            Ok(pid) => {
                let mut msg = string_from("Engine started (PID: ");
                crate::text::push_decimal(&mut msg, pid as u128);
                msg.append(")");
                self.log(ConsoleLogLevel::Info, msg);
            },
            Err(e) => {
                let mut msg = string_from("Failed to launch engine: ");
                msg.append(e.as_str());
                self.log(ConsoleLogLevel::Error, msg);
            },
        }
    }
}

} // verus!
