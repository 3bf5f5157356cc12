//! Core project management for the editor.
//!
//! Handles the `.chronos` project model: manifest, templates, the
//! [`ProjectManager`] state machine, and recent-project tracking. Reading
//! and writing project files is done by the application around these
//! values: every operation here decides and updates state, and the caller
//! persists the result.

use std::io;

use vstd::prelude::*;

use crate::io_support::{io_error_text, unix_now_secs};
use crate::text::{str_equal, string_from};

verus! {

// ──────────────────────────────────────────────
// Errors
// ──────────────────────────────────────────────

/// Errors that can occur during project operations.
#[derive(Debug)]
pub enum ProjectError {
    /// An I/O error reading or writing project files.
    IoError(io::Error),
    /// A serialization or deserialization failure.
    SerializationError(String),
    /// The manifest is present but malformed or missing required fields.
    InvalidManifest(String),
    /// No project found at the given path.
    ProjectNotFound(String),
    /// A project or resource already exists at the given path.
    AlreadyExists(String),
}

/// Whether `s` is the message of `e`: its kind's prefix, then the detail
/// (for an I/O error, the operating system's text, which is not stated).
pub open spec fn describes_project_error(e: ProjectError, s: Seq<char>) -> bool {
    match e {
        ProjectError::IoError(_) => s.len() >= 19 && s.subrange(0, 19) == "project I/O error: "@,
        ProjectError::SerializationError(m) => s == "project serialization error: "@ + m@,
        ProjectError::InvalidManifest(m) => s == "invalid project manifest: "@ + m@,
        ProjectError::ProjectNotFound(m) => s == "project not found: "@ + m@,
        ProjectError::AlreadyExists(m) => s == "project already exists: "@ + m@,
    }
}

impl ProjectError {
    /// Human-readable message for this error.
    pub fn to_string(&self) -> (s: String)
        ensures
            describes_project_error(*self, s@),
    {
        let mut s = String::new();
        match self {
            ProjectError::IoError(e) => {
                s.append("project I/O error: ");
                let t = io_error_text(e);
                let ghost prefix = s@;
                s.append(t.as_str());
                proof {
                    reveal_strlit("project I/O error: ");
                    assert(prefix.len() == 19);
                    assert(s@.subrange(0, 19) =~= prefix);
                }
            },
            ProjectError::SerializationError(m) => {
                s.append("project serialization error: ");
                s.append(m.as_str());
            },
            ProjectError::InvalidManifest(m) => {
                s.append("invalid project manifest: ");
                s.append(m.as_str());
            },
            ProjectError::ProjectNotFound(m) => {
                s.append("project not found: ");
                s.append(m.as_str());
            },
            ProjectError::AlreadyExists(m) => {
                s.append("project already exists: ");
                s.append(m.as_str());
            },
        }
        s
    }
}

impl From<io::Error> for ProjectError {
    fn from(e: io::Error) -> (r: Self) {
        ProjectError::IoError(e)
    }
}

impl vstd::std_specs::convert::FromSpecImpl<io::Error> for ProjectError {
    open spec fn obeys_from_spec() -> bool {
        true
    }

    open spec fn from_spec(v: io::Error) -> Self {
        ProjectError::IoError(v)
    }
}

// ──────────────────────────────────────────────
// ProjectTemplate
// ──────────────────────────────────────────────

/// Built-in project templates that pre-populate scenes and settings.
#[derive(Debug, Clone, Copy, PartialEq, Eq, Structural)]
pub enum ProjectTemplate {
    /// A blank project with a single empty scene.
    Empty,
    /// A 2D side-scrolling platformer starter.
    Platformer2D,
    /// A 3D arena shooter starter.
    Shooter3D,
    /// A top-down RPG starter with multiple maps.
    RPG,
}

/// Display label of a template.
pub open spec fn template_label(t: ProjectTemplate) -> Seq<char> {
    match t {
        ProjectTemplate::Empty => "Empty Project"@,
        ProjectTemplate::Platformer2D => "2D Platformer"@,
        ProjectTemplate::Shooter3D => "3D Shooter"@,
        ProjectTemplate::RPG => "RPG"@,
    }
}

/// Short description of a template.
pub open spec fn template_description(t: ProjectTemplate) -> Seq<char> {
    match t {
        ProjectTemplate::Empty => "A blank canvas — one empty scene, no extras."@,
        ProjectTemplate::Platformer2D => "2D side-scrolling setup with a main scene and a sample level."@,
        ProjectTemplate::Shooter3D => "3D arena starter with a main scene and an arena map."@,
        ProjectTemplate::RPG => "Top-down RPG starter with main, overworld, and town scenes."@,
    }
}

/// Icon of a template.
pub open spec fn template_icon(t: ProjectTemplate) -> Seq<char> {
    match t {
        ProjectTemplate::Empty => "📄"@,
        ProjectTemplate::Platformer2D => "🏃"@,
        ProjectTemplate::Shooter3D => "🎯"@,
        ProjectTemplate::RPG => "⚔️"@,
    }
}

/// Scene files a template starts with (relative to `scenes/`).
pub open spec fn template_scenes(t: ProjectTemplate) -> Seq<Seq<char>> {
    match t {
        ProjectTemplate::Empty => seq!["main.scene"@],
        ProjectTemplate::Platformer2D => seq!["main.scene"@, "level_1.scene"@],
        ProjectTemplate::Shooter3D => seq!["main.scene"@, "arena.scene"@],
        ProjectTemplate::RPG => seq!["main.scene"@, "overworld.scene"@, "town.scene"@],
    }
}

/// The views of a sequence of strings.
pub open spec fn string_views(v: Seq<String>) -> Seq<Seq<char>> {
    v.map_values(|s: String| s@)
}

impl ProjectTemplate {
    /// Human-readable label for display in template pickers.
    pub fn label(&self) -> (s: &'static str)
        ensures
            s@ == template_label(*self),
    {
        match self {
            ProjectTemplate::Empty => "Empty Project",
            ProjectTemplate::Platformer2D => "2D Platformer",
            ProjectTemplate::Shooter3D => "3D Shooter",
            ProjectTemplate::RPG => "RPG",
        }
    }

    /// Short description of what the template provides.
    pub fn description(&self) -> (s: &'static str)
        ensures
            s@ == template_description(*self),
    {
        match self {
            ProjectTemplate::Empty => "A blank canvas — one empty scene, no extras.",
            ProjectTemplate::Platformer2D => "2D side-scrolling setup with a main scene and a sample level.",
            ProjectTemplate::Shooter3D => "3D arena starter with a main scene and an arena map.",
            ProjectTemplate::RPG => "Top-down RPG starter with main, overworld, and town scenes.",
        }
    }

    /// Emoji or short icon for UI display.
    pub fn icon(&self) -> (s: &'static str)
        ensures
            s@ == template_icon(*self),
    {
        match self {
            ProjectTemplate::Empty => "📄",
            ProjectTemplate::Platformer2D => "🏃",
            ProjectTemplate::Shooter3D => "🎯",
            ProjectTemplate::RPG => "⚔️",
        }
    }

    /// Template-specific default scene file names (relative to `scenes/`).
    pub fn default_scenes(&self) -> (v: Vec<String>)
        ensures
            string_views(v@) == template_scenes(*self),
    {
        let mut v: Vec<String> = Vec::new();
        v.push(string_from("main.scene"));
        match self {
            ProjectTemplate::Empty => {},
            ProjectTemplate::Platformer2D => {
                v.push(string_from("level_1.scene"));
            },
            ProjectTemplate::Shooter3D => {
                v.push(string_from("arena.scene"));
            },
            ProjectTemplate::RPG => {
                v.push(string_from("overworld.scene"));
                v.push(string_from("town.scene"));
            },
        }
        proof {
            assert(string_views(v@) =~= template_scenes(*self));
        }
        v
    }

    /// All available template variants.
    pub fn all() -> (a: [ProjectTemplate; 4])
        ensures
            a@ == seq![
                ProjectTemplate::Empty,
                ProjectTemplate::Platformer2D,
                ProjectTemplate::Shooter3D,
                ProjectTemplate::RPG,
            ],
    {
        let a = [
            ProjectTemplate::Empty,
            ProjectTemplate::Platformer2D,
            ProjectTemplate::Shooter3D,
            ProjectTemplate::RPG,
        ];
        proof {
            assert(a@ =~= seq![
                ProjectTemplate::Empty,
                ProjectTemplate::Platformer2D,
                ProjectTemplate::Shooter3D,
                ProjectTemplate::RPG,
            ]);
        }
        a
    }
}

/// Distinct templates have distinct labels, and every label, description
/// and icon is non-empty.
pub proof fn template_texts_distinct(a: ProjectTemplate, b: ProjectTemplate)
    ensures
        a != b ==> template_label(a) != template_label(b),
        template_label(a).len() > 0,
        template_description(a).len() > 0,
        template_icon(a).len() > 0,
{
    reveal_strlit("Empty Project");
    reveal_strlit("2D Platformer");
    reveal_strlit("3D Shooter");
    reveal_strlit("RPG");
    reveal_strlit("A blank canvas — one empty scene, no extras.");
    reveal_strlit("2D side-scrolling setup with a main scene and a sample level.");
    reveal_strlit("3D arena starter with a main scene and an arena map.");
    reveal_strlit("Top-down RPG starter with main, overworld, and town scenes.");
    reveal_strlit("📄");
    reveal_strlit("🏃");
    reveal_strlit("🎯");
    reveal_strlit("⚔️");
    if a != b {
        if template_label(a).len() == template_label(b).len() {
            assert(template_label(a)[0] != template_label(b)[0] || template_label(a)[1]
                != template_label(b)[1]);
        }
    }
}

// ──────────────────────────────────────────────
// ProjectConfig
// ──────────────────────────────────────────────

/// Per-project editor and runtime configuration.
#[derive(Debug)]
pub struct ProjectConfig {
    /// Default game window width in pixels.
    pub window_width: u32,
    /// Default game window height in pixels.
    pub window_height: u32,
    /// Whether vertical sync is enabled.
    pub vsync: bool,
    /// Target frames per second for the game loop.
    pub target_fps: u32,
    /// File path (relative to project dir) of the last scene open in the editor.
    pub last_opened_scene: Option<String>,
    /// Opaque JSON string carrying future layout configuration.
    pub editor_layout: String,
}

impl ProjectConfig {
    /// The default settings.
    pub open spec fn is_default(&self) -> bool {
        &&& self.window_width == 1280
        &&& self.window_height == 720
        &&& self.vsync
        &&& self.target_fps == 60
        &&& self.last_opened_scene is None
        &&& self.editor_layout@ == Seq::<char>::empty()
    }

    /// Create a config with sensible defaults.
    pub fn new() -> (c: Self)
        ensures
            c.is_default(),
    {
        Self {
            window_width: 1280,
            window_height: 720,
            vsync: true,
            target_fps: 60,
            last_opened_scene: None,
            editor_layout: String::new(),
        }
    }

    /// A copy with the same settings.
    pub fn duplicate(&self) -> (c: Self)
        ensures
            c.window_width == self.window_width,
            c.window_height == self.window_height,
            c.vsync == self.vsync,
            c.target_fps == self.target_fps,
            c.last_opened_scene is Some == self.last_opened_scene is Some,
            c.last_opened_scene matches Some(s) ==> s@ == self.last_opened_scene.unwrap()@,
            c.editor_layout@ == self.editor_layout@,
    {
        let last = match &self.last_opened_scene {
            Some(s) => Some(s.clone()),
            None => None,
        };
        ProjectConfig {
            window_width: self.window_width,
            window_height: self.window_height,
            vsync: self.vsync,
            target_fps: self.target_fps,
            last_opened_scene: last,
            editor_layout: self.editor_layout.clone(),
        }
    }
}

impl Default for ProjectConfig {
    fn default() -> (c: Self)
        ensures
            c.is_default(),
    {
        Self::new()
    }
}

// ──────────────────────────────────────────────
// ProjectManifest
// ──────────────────────────────────────────────

/// The project description file at the root of every `.chronos` project directory.
///
/// Stores project metadata, scene list, template origin, and editor config.
#[derive(Debug)]
pub struct ProjectManifest {
    /// Human-readable project name.
    pub name: String,
    /// Project format version (semver).
    pub version: String,
    /// Minimum engine version required.
    pub engine_version: String,
    /// One-line project description.
    pub description: String,
    /// Unix timestamp (seconds) when the project was created.
    pub created_at: u64,
    /// Unix timestamp (seconds) when the project was last modified.
    pub modified_at: u64,
    /// Scene file paths relative to the project directory.
    pub scenes: Vec<String>,
    /// Template this project was created from.
    pub template: ProjectTemplate,
    /// Per-project editor/runtime settings.
    pub settings: ProjectConfig,
}

impl ProjectManifest {
    /// A fresh manifest named `name` from `template`, timestamps 0.
    pub open spec fn is_fresh(&self, name: Seq<char>, template: ProjectTemplate) -> bool {
        &&& self.name@ == name
        &&& self.version@ == "1.0.0"@
        &&& self.engine_version@ == "0.3.0"@
        &&& self.description@ == Seq::<char>::empty()
        &&& self.created_at == 0
        &&& self.modified_at == 0
        &&& string_views(self.scenes@) == template_scenes(template)
        &&& self.template == template
        &&& self.settings.is_default()
    }

    /// Create a new manifest with the given name and template.
    ///
    /// Timestamps are initialised to `0` — call [`touch`](Self::touch) or set
    /// them manually before saving.
    pub fn new(name: &str, template: ProjectTemplate) -> (m: Self)
        ensures
            m.is_fresh(name@, template),
    {
        Self {
            name: string_from(name),
            version: string_from("1.0.0"),
            engine_version: string_from("0.3.0"),
            description: String::new(),
            created_at: 0,
            modified_at: 0,
            scenes: template.default_scenes(),
            template,
            settings: ProjectConfig::new(),
        }
    }

    /// Every field except `modified_at` agrees with `other`.
    pub open spec fn same_except_modified(&self, other: &ProjectManifest) -> bool {
        &&& self.name@ == other.name@
        &&& self.version@ == other.version@
        &&& self.engine_version@ == other.engine_version@
        &&& self.description@ == other.description@
        &&& self.created_at == other.created_at
        &&& string_views(self.scenes@) == string_views(other.scenes@)
        &&& self.template == other.template
        &&& self.settings.window_width == other.settings.window_width
        &&& self.settings.window_height == other.settings.window_height
        &&& self.settings.vsync == other.settings.vsync
        &&& self.settings.target_fps == other.settings.target_fps
        &&& (self.settings.last_opened_scene is Some == other.settings.last_opened_scene is Some)
        &&& (self.settings.last_opened_scene matches Some(s)
            ==> s@ == other.settings.last_opened_scene.unwrap()@)
        &&& self.settings.editor_layout@ == other.settings.editor_layout@
    }

    /// Set `modified_at` to the given time; nothing else changes.
    pub fn touch_at(&mut self, now: u64)
        ensures
            final(self).modified_at == now,
            final(self).name == old(self).name,
            final(self).version == old(self).version,
            final(self).engine_version == old(self).engine_version,
            final(self).description == old(self).description,
            final(self).created_at == old(self).created_at,
            final(self).scenes == old(self).scenes,
            final(self).template == old(self).template,
            final(self).settings == old(self).settings,
    {
        self.modified_at = now;
    }

    /// Update `modified_at` to the current wall-clock time.
    pub fn touch(&mut self)
        ensures
            final(self).name == old(self).name,
            final(self).version == old(self).version,
            final(self).engine_version == old(self).engine_version,
            final(self).description == old(self).description,
            final(self).created_at == old(self).created_at,
            final(self).scenes == old(self).scenes,
            final(self).template == old(self).template,
            final(self).settings == old(self).settings,
    {
        let now = unix_now_secs();
        self.touch_at(now);
    }

    /// A copy with the same contents.
    pub fn duplicate(&self) -> (m: Self)
        ensures
            m.same_except_modified(self),
            m.modified_at == self.modified_at,
    {
        let mut scenes: Vec<String> = Vec::new();
        let mut i: usize = 0;
        while i < self.scenes.len()
            invariant
                i <= self.scenes@.len(),
                scenes@.len() == i,
                forall|j: int| 0 <= j < i ==> scenes@[j]@ == self.scenes@[j]@,
            decreases self.scenes@.len() - i,
        {
            scenes.push(self.scenes[i].clone());
            i = i + 1;
        }
        proof {
            assert(string_views(scenes@) =~= string_views(self.scenes@));
        }
        ProjectManifest {
            name: self.name.clone(),
            version: self.version.clone(),
            engine_version: self.engine_version.clone(),
            description: self.description.clone(),
            created_at: self.created_at,
            modified_at: self.modified_at,
            scenes,
            template: self.template,
            settings: self.settings.duplicate(),
        }
    }
}

// ──────────────────────────────────────────────
// RecentProject
// ──────────────────────────────────────────────

/// A lightweight entry in the recent-projects list.
#[derive(Debug)]
pub struct RecentProject {
    /// Project display name.
    pub name: String,
    /// Absolute path to the project directory.
    pub path: String,
    /// Unix timestamp of the last time the project was opened.
    pub last_opened: u64,
    /// Template the project was created from.
    pub template: ProjectTemplate,
}

impl RecentProject {
    /// Create a new recent-project entry with `last_opened` set to `0`.
    pub fn new(name: &str, path: &str, template: ProjectTemplate) -> (r: Self)
        ensures
            r.name@ == name@,
            r.path@ == path@,
            r.last_opened == 0,
            r.template == template,
    {
        Self { name: string_from(name), path: string_from(path), last_opened: 0, template }
    }
}

/// Whether an entry's path differs from `path`.
pub open spec fn path_differs(path: Seq<char>) -> spec_fn(RecentProject) -> bool {
    |r: RecentProject| r.path@ != path
}

/// The recent list after adding `entry`: the entry first, then every older
/// entry with a different path in its previous order, cut to `max` entries.
pub open spec fn list_after_add(
    list: Seq<RecentProject>,
    entry: RecentProject,
    max: nat,
) -> Seq<RecentProject> {
    let full = seq![entry] + list.filter(path_differs(entry.path@));
    if full.len() > max {
        full.take(max as int)
    } else {
        full
    }
}

/// No two entries share a path.
pub open spec fn paths_distinct(list: Seq<RecentProject>) -> bool {
    forall|i: int, j: int| 0 <= i < j < list.len() ==> list[i].path@ != list[j].path@
}

// ──────────────────────────────────────────────
// ProjectManager
// ──────────────────────────────────────────────

/// Owns the current editor session state: the loaded project, recent list,
/// and UI toggle flags for the welcome / new-project / open-project dialogs.
#[derive(Debug)]
pub struct ProjectManager {
    /// The currently loaded project manifest, if any.
    pub current_project: Option<ProjectManifest>,
    /// Path to the current project directory.
    pub project_dir: Option<String>,
    /// Recently opened projects (most recent first).
    pub recent_projects: Vec<RecentProject>,
    /// Maximum number of recent-project entries kept.
    pub max_recent: usize,
    /// Whether the welcome screen should be shown.
    pub show_welcome: bool,
    /// Whether the new-project wizard dialog should be shown.
    pub show_new_wizard: bool,
    /// Whether the open-project dialog should be shown.
    pub show_open_dialog: bool,
}

/// `"no project is currently loaded"`.
pub open spec fn no_project_text() -> Seq<char> {
    "no project is currently loaded"@
}

/// `"a project already exists at <dir>"`.
pub open spec fn exists_text(dir: Seq<char>) -> Seq<char> {
    "a project already exists at "@ + dir
}

fn exists_message(dir: &str) -> (s: String)
    ensures
        s@ == exists_text(dir@),
{
    let mut s = string_from("a project already exists at ");
    s.append(dir);
    s
}

impl ProjectManager {
    /// The state of a manager with no project loaded and an empty recent list.
    pub open spec fn is_initial(&self) -> bool {
        &&& self.current_project is None
        &&& self.project_dir is None
        &&& self.recent_projects@.len() == 0
        &&& self.max_recent == 10
        &&& self.show_welcome
        &&& !self.show_new_wizard
        &&& !self.show_open_dialog
    }

    /// Create an empty manager (no project loaded).
    pub fn new() -> (m: Self)
        ensures
            m.is_initial(),
    {
        Self {
            current_project: None,
            project_dir: None,
            recent_projects: Vec::new(),
            max_recent: 10,
            show_welcome: true,
            show_new_wizard: false,
            show_open_dialog: false,
        }
    }

    /// A manager that has just created a project named `name` in `dir`.
    ///
    /// Fails with `AlreadyExists` when `dir` already holds a manifest
    /// (`manifest_exists`). Otherwise the manifest is stamped with the
    /// current time as creation and modification time, the project is
    /// loaded, the welcome screen is hidden and the project is put first in
    /// the recent list. The caller writes the directory tree and manifest.
    pub fn create_project(
        name: &str,
        dir: &str,
        template: ProjectTemplate,
        manifest_exists: bool,
    ) -> (r: Result<Self, ProjectError>)
        ensures
            manifest_exists ==> (r matches Err(ProjectError::AlreadyExists(m)) && m@ == exists_text(
                dir@,
            )),
            !manifest_exists ==> (r matches Ok(mgr) && {
                &&& mgr.current_project matches Some(p) && p.name@ == name@ && p.template
                    == template && string_views(p.scenes@) == template_scenes(template)
                    && p.created_at == p.modified_at && p.version@ == "1.0.0"@
                    && p.engine_version@ == "0.3.0"@ && p.settings.is_default()
                &&& mgr.project_dir matches Some(d) && d@ == dir@
                &&& !mgr.show_welcome
                &&& !mgr.show_new_wizard
                &&& !mgr.show_open_dialog
                &&& mgr.max_recent == 10
                &&& mgr.recent_projects@.len() == 1
                &&& mgr.recent_projects@[0].name@ == name@
                &&& mgr.recent_projects@[0].path@ == dir@
                &&& mgr.recent_projects@[0].template == template
            }),
    {
        if manifest_exists {
            return Err(ProjectError::AlreadyExists(exists_message(dir)));
        }
        let now = unix_now_secs();
        let mut manifest = ProjectManifest::new(name, template);
        manifest.created_at = now;
        manifest.modified_at = now;
        let mut manager = Self::new();
        manager.current_project = Some(manifest);
        manager.project_dir = Some(string_from(dir));
        manager.show_welcome = false;
        manager.add_recent(name, dir, template);
        Ok(manager)
    }

    /// A manager with `manifest`, read from `dir`, loaded; the project is put
    /// first in the recent list.
    pub fn open_project(manifest: ProjectManifest, dir: &str) -> (mgr: Self)
        ensures
            mgr.current_project matches Some(p) && p.same_except_modified(&manifest)
                && p.modified_at == manifest.modified_at,
            mgr.project_dir matches Some(d) && d@ == dir@,
            !mgr.show_welcome,
            !mgr.show_new_wizard,
            !mgr.show_open_dialog,
            mgr.max_recent == 10,
            mgr.recent_projects@.len() == 1,
            mgr.recent_projects@[0].name@ == manifest.name@,
            mgr.recent_projects@[0].path@ == dir@,
            mgr.recent_projects@[0].template == manifest.template,
    {
        let mut manager = Self::new();
        let name = manifest.name.clone();
        let template = manifest.template;
        manager.current_project = Some(manifest.duplicate());
        manager.project_dir = Some(string_from(dir));
        manager.show_welcome = false;
        manager.add_recent(name.as_str(), dir, template);
        manager
    }

    /// Prepare the current project for saving: its `modified_at` is set to
    /// the current time. Fails with `ProjectNotFound` when no project
    /// directory or no project is loaded. The caller writes the manifest.
    pub fn save_current(&mut self) -> (r: Result<(), ProjectError>)
        ensures
            (old(self).project_dir is None || old(self).current_project is None) ==> (r matches Err(
                ProjectError::ProjectNotFound(m),
            ) && m@ == no_project_text()),
            (old(self).project_dir is Some && old(self).current_project is Some) ==> r is Ok,
            r is Err ==> *final(self) == *old(self),
            final(self).project_dir == old(self).project_dir,
            final(self).recent_projects == old(self).recent_projects,
            final(self).max_recent == old(self).max_recent,
            final(self).show_welcome == old(self).show_welcome,
            final(self).show_new_wizard == old(self).show_new_wizard,
            final(self).show_open_dialog == old(self).show_open_dialog,
            final(self).current_project is Some == old(self).current_project is Some,
            final(self).current_project matches Some(p) ==> p.same_except_modified(
                &old(self).current_project.unwrap(),
            ),
    {
        if self.project_dir.is_none() {
            return Err(ProjectError::ProjectNotFound(string_from("no project is currently loaded")));
        }
        match &mut self.current_project {
            Some(manifest) => {
                manifest.touch();
                Ok(())
            },
            None => Err(ProjectError::ProjectNotFound(string_from("no project is currently loaded"))),
        }
    }

    /// The copy a Save As writes into `dir`: the current manifest renamed
    /// `name` and stamped with the current time. Fails with
    /// `ProjectNotFound` when no project is loaded and with `AlreadyExists`
    /// when `dir` already holds a manifest (`dest_manifest_exists`). The
    /// manager itself does not change; the caller writes the copy and then
    /// hands the outcome to [`ProjectManager::save_as`].
    pub fn save_as_copy(&self, name: &str, dir: &str, dest_manifest_exists: bool) -> (r: Result<
        ProjectManifest,
        ProjectError,
    >)
        ensures
            self.current_project is None ==> (r matches Err(ProjectError::ProjectNotFound(m))
                && m@ == no_project_text()),
            self.current_project is Some && dest_manifest_exists ==> (r matches Err(
                ProjectError::AlreadyExists(m),
            ) && m@ == exists_text(dir@)),
            self.current_project is Some && !dest_manifest_exists ==> r is Ok,
            r matches Ok(p) ==> {
                let o = self.current_project.unwrap();
                &&& self.current_project is Some
                &&& p.name@ == name@
                &&& p.version@ == o.version@
                &&& p.engine_version@ == o.engine_version@
                &&& p.description@ == o.description@
                &&& p.created_at == o.created_at
                &&& string_views(p.scenes@) == string_views(o.scenes@)
                &&& p.template == o.template
            },
    {
        let mut manifest = match &self.current_project {
            Some(m) => m.duplicate(),
            None => {
                return Err(ProjectError::ProjectNotFound(string_from("no project is currently loaded")));
            },
        };
        if dest_manifest_exists {
            return Err(ProjectError::AlreadyExists(exists_message(dir)));
        }
        manifest.name = string_from(name);
        manifest.touch();
        Ok(manifest)
    }

    /// Finish a Save As once the copy was written: when writing succeeded,
    /// `copy` becomes the current project and `dir` its directory; when it
    /// failed, nothing changes and the write's error is returned.
    pub fn save_as(&mut self, copy: ProjectManifest, dir: &str, written: Result<(), ProjectError>) -> (r:
        Result<(), ProjectError>)
        ensures
            match written {
                Ok(()) => {
                    &&& r is Ok
                    &&& final(self).current_project == Some(copy)
                    &&& final(self).project_dir matches Some(d) && d@ == dir@
                    &&& final(self).recent_projects == old(self).recent_projects
                    &&& final(self).max_recent == old(self).max_recent
                    &&& final(self).show_welcome == old(self).show_welcome
                    &&& final(self).show_new_wizard == old(self).show_new_wizard
                    &&& final(self).show_open_dialog == old(self).show_open_dialog
                },
                Err(e) => r == Err::<(), ProjectError>(e) && *final(self) == *old(self),
            },
    {
        match written {
            Ok(()) => {
                self.current_project = Some(copy);
                self.project_dir = Some(string_from(dir));
                Ok(())
            },
            Err(e) => Err(e),
        }
    }

    /// Unload the current project and return to the welcome state.
    pub fn close_project(&mut self)
        ensures
            final(self).current_project is None,
            final(self).project_dir is None,
            final(self).show_welcome,
            !final(self).show_new_wizard,
            !final(self).show_open_dialog,
            final(self).recent_projects == old(self).recent_projects,
            final(self).max_recent == old(self).max_recent,
    {
        self.current_project = None;
        self.project_dir = None;
        self.show_welcome = true;
        self.show_new_wizard = false;
        self.show_open_dialog = false;
    }

    /// Remove every entry whose path equals `path`, keeping the order of the
    /// others.
    fn retain_other_paths(&mut self, path: &str)
        ensures
            final(self).recent_projects@ == old(self).recent_projects@.filter(path_differs(path@)),
            final(self).current_project == old(self).current_project,
            final(self).project_dir == old(self).project_dir,
            final(self).max_recent == old(self).max_recent,
            final(self).show_welcome == old(self).show_welcome,
            final(self).show_new_wizard == old(self).show_new_wizard,
            final(self).show_open_dialog == old(self).show_open_dialog,
    {
        let mut src: Vec<RecentProject> = Vec::new();
        std::mem::swap(&mut src, &mut self.recent_projects);
        let ghost orig = src@;
        let ghost n = orig.len();
        let mut kept: Vec<RecentProject> = Vec::new();
        let n0 = src.len();
        let mut i: usize = 0;
        while src.len() > 0
            invariant
                n0 == n,
                src@ == orig.subrange(i as int, n as int),
                i <= n,
                n == orig.len(),
                kept@ == orig.subrange(0, i as int).filter(path_differs(path@)),
            decreases src@.len(),
        {
            let item = src.remove(0);
            let keep = !str_equal(item.path.as_str(), path);
            proof {
                let pre = orig.subrange(0, i as int);
                let post = orig.subrange(0, i + 1);
                assert(post.drop_last() =~= pre);
                assert(post.last() == item);
                reveal(Seq::filter);
                assert(post.filter(path_differs(path@)) == if keep {
                    pre.filter(path_differs(path@)).push(item)
                } else {
                    pre.filter(path_differs(path@))
                });
            }
            if keep {
                kept.push(item);
            }
            i = i + 1;
            proof {
                assert(src@ =~= orig.subrange(i as int, n as int));
            }
        }
        proof {
            assert(orig.subrange(0, n as int) =~= orig);
        }
        self.recent_projects = kept;
    }

    /// Add an entry stamped `now` to the recent-projects list.
    ///
    /// The new entry is pushed to the front. An entry with the same `path`
    /// is removed first (no duplicates). The list is then trimmed to
    /// `max_recent`.
    pub fn add_recent_at(&mut self, name: &str, path: &str, template: ProjectTemplate, now: u64)
        ensures
            final(self).recent_projects@.len() <= old(self).max_recent,
            final(self).recent_projects@.len() > 0 ==> {
                let e = final(self).recent_projects@[0];
                &&& e.name@ == name@
                &&& e.path@ == path@
                &&& e.last_opened == now
                &&& e.template == template
                &&& final(self).recent_projects@ == list_after_add(
                    old(self).recent_projects@,
                    e,
                    old(self).max_recent as nat,
                )
            },
            old(self).max_recent > 0 ==> final(self).recent_projects@.len() > 0,
            old(self).max_recent == 0 ==> final(self).recent_projects@.len() == 0,
            final(self).current_project == old(self).current_project,
            final(self).project_dir == old(self).project_dir,
            final(self).max_recent == old(self).max_recent,
            final(self).show_welcome == old(self).show_welcome,
            final(self).show_new_wizard == old(self).show_new_wizard,
            final(self).show_open_dialog == old(self).show_open_dialog,
    {
        self.retain_other_paths(path);
        let mut entry = RecentProject::new(name, path, template);
        entry.last_opened = now;
        let ghost e = entry;
        let ghost kept = self.recent_projects@;
        self.recent_projects.insert(0, entry);
        proof {
            assert(self.recent_projects@ =~= seq![e] + kept);
        }
        let max = self.max_recent;
        self.recent_projects.truncate(max);
        proof {
            let full = seq![e] + kept;
            if full.len() > max {
                assert(self.recent_projects@ =~= full.take(max as int));
            } else {
                assert(self.recent_projects@ =~= full);
            }
        }
    }

    /// Add an entry stamped with the current time to the recent-projects
    /// list (see [`add_recent_at`](Self::add_recent_at)).
    pub fn add_recent(&mut self, name: &str, path: &str, template: ProjectTemplate)
        ensures
            final(self).recent_projects@.len() <= old(self).max_recent,
            final(self).recent_projects@.len() > 0 ==> {
                let e = final(self).recent_projects@[0];
                &&& e.name@ == name@
                &&& e.path@ == path@
                &&& e.template == template
                &&& final(self).recent_projects@ == list_after_add(
                    old(self).recent_projects@,
                    e,
                    old(self).max_recent as nat,
                )
            },
            old(self).max_recent > 0 ==> final(self).recent_projects@.len() > 0,
            old(self).max_recent == 0 ==> final(self).recent_projects@.len() == 0,
            final(self).current_project == old(self).current_project,
            final(self).project_dir == old(self).project_dir,
            final(self).max_recent == old(self).max_recent,
            final(self).show_welcome == old(self).show_welcome,
            final(self).show_new_wizard == old(self).show_new_wizard,
            final(self).show_open_dialog == old(self).show_open_dialog,
    {
        let now = unix_now_secs();
        self.add_recent_at(name, path, template, now);
    }

    /// Remove a recent-project entry by its directory path.
    pub fn remove_recent(&mut self, path: &str)
        ensures
            final(self).recent_projects@ == old(self).recent_projects@.filter(path_differs(path@)),
            final(self).current_project == old(self).current_project,
            final(self).project_dir == old(self).project_dir,
            final(self).max_recent == old(self).max_recent,
            final(self).show_welcome == old(self).show_welcome,
            final(self).show_new_wizard == old(self).show_new_wizard,
            final(self).show_open_dialog == old(self).show_open_dialog,
    {
        self.retain_other_paths(path);
    }

    /// Whether a project is currently loaded.
    pub fn is_loaded(&self) -> (b: bool)
        ensures
            b == self.current_project is Some,
    {
        self.current_project.is_some()
    }

    /// The display name of the current project, or `"No Project"`.
    pub fn project_name(&self) -> (s: &str)
        ensures
            self.current_project matches Some(p) ==> s@ == p.name@,
            self.current_project is None ==> s@ == "No Project"@,
    {
        match &self.current_project {
            Some(m) => m.name.as_str(),
            None => "No Project",
        }
    }
}

impl Default for ProjectManager {
    fn default() -> (m: Self)
        ensures
            m.is_initial(),
    {
        Self::new()
    }
}

/// The recent list never holds two entries with the same path once built
/// through `add_recent`: adding keeps paths distinct, the newest entry comes
/// first, and re-adding a path moves it to the front instead of duplicating
/// it.
pub proof fn add_recent_keeps_paths_distinct(list: Seq<RecentProject>, entry: RecentProject, max: nat)
    requires
        paths_distinct(list),
    ensures
        paths_distinct(list_after_add(list, entry, max)),
        max > 0 ==> list_after_add(list, entry, max)[0] == entry,
        forall|i: int|
            1 <= i < list_after_add(list, entry, max).len() ==> list_after_add(list, entry, max)[i].path@
                != entry.path@,
        list_after_add(list, entry, max).len() <= max,
{
    let f = list.filter(path_differs(entry.path@));
    let full = seq![entry] + f;
    broadcast use vstd::seq_lib::group_filter_ensures;
    assert forall|i: int| 0 <= i < f.len() implies f[i].path@ != entry.path@ by {
        assert(path_differs(entry.path@)(f[i]));
    }
    lemma_filter_distinct(list, path_differs(entry.path@));
}

/// Every entry of a filtered sequence is an entry of the original.
proof fn lemma_filter_member(s: Seq<RecentProject>, p: spec_fn(RecentProject) -> bool, i: int)
    requires
        0 <= i < s.filter(p).len(),
    ensures
        exists|k: int| 0 <= k < s.len() && s[k] == s.filter(p)[i],
    decreases s.len(),
{
    reveal(Seq::filter);
    let sub = s.drop_last().filter(p);
    if i < sub.len() {
        lemma_filter_member(s.drop_last(), p, i);
        let k = choose|k: int| 0 <= k < s.drop_last().len() && s.drop_last()[k] == sub[i];
        assert(s[k] == s.filter(p)[i]);
    } else {
        assert(s[s.len() - 1] == s.filter(p)[i]);
    }
}

/// Filtering keeps paths distinct.
proof fn lemma_filter_distinct(s: Seq<RecentProject>, p: spec_fn(RecentProject) -> bool)
    requires
        paths_distinct(s),
    ensures
        paths_distinct(s.filter(p)),
    decreases s.len(),
{
    reveal(Seq::filter);
    if s.len() > 0 {
        let sub = s.drop_last().filter(p);
        assert(paths_distinct(s.drop_last()));
        lemma_filter_distinct(s.drop_last(), p);
        if p(s.last()) {
            assert forall|i: int, j: int| 0 <= i < j < s.filter(p).len() implies s.filter(p)[i].path@
                != s.filter(p)[j].path@ by {
                if j == sub.len() {
                    lemma_filter_member(s.drop_last(), p, i);
                    let k = choose|k: int| 0 <= k < s.drop_last().len() && s.drop_last()[k] == sub[i];
                    assert(s[k] == sub[i]);
                }
            }
        }
    }
}

} // verus!
