//! Editor panels and the state they share.
//!
//! Each panel keeps its own view state; all of them read from and write to
//! the shared [`EditorState`]. Drawing happens in the application; the
//! panels here hold the state and the decisions it drives.

pub mod asset_browser;
pub mod console;
pub mod frame_requests;
pub mod hierarchy;
pub mod inspector;
pub mod menu_bar;
pub mod shortcut_actions;
pub mod toolbar;
pub mod viewport;
pub mod welcome;

use vstd::prelude::*;

use crate::component::{Component, ComponentKind, F32_ONE, Position};
use crate::entity::Entity;
use crate::project::ProjectManager;
use crate::text::{decimal, push_decimal, string_from};
use crate::undo::{redo_step, undo_step, EditorCommand, UndoStack};
use crate::world::World;

verus! {

// ──────────────────────────────────────────────
// Shared types
// ──────────────────────────────────────────────

/// Play mode for the editor toolbar.
#[derive(Debug, Clone, Copy, PartialEq, Eq, Structural)]
pub enum PlayMode {
    /// Editor is stopped — scene is editable.
    Stopped,
    /// Editor is playing — game loop runs.
    Playing,
    /// Editor is paused — game loop frozen.
    Paused,
}

/// Transform gizmo mode.
#[derive(Debug, Clone, Copy, PartialEq, Eq, Structural)]
pub enum GizmoMode {
    Translate,
    Rotate,
    Scale,
}

impl GizmoMode {
    /// The viewport's indicator text for this mode.
    pub fn indicator_label(&self) -> (s: &'static str)
        ensures
            s@ == match *self {
                GizmoMode::Translate => "⬚ Translate"@,
                GizmoMode::Rotate => "↻ Rotate"@,
                GizmoMode::Scale => "⤢ Scale"@,
            },
    {
        match self {
            GizmoMode::Translate => "⬚ Translate",
            GizmoMode::Rotate => "↻ Rotate",
            GizmoMode::Scale => "⤢ Scale",
        }
    }
}

/// Log severity for the console panel.
#[derive(Debug, Clone, Copy, PartialEq, Eq, Structural)]
pub enum ConsoleLogLevel {
    Info,
    Warn,
    Error,
}

/// Single console log entry.
#[derive(Debug, Clone)]
pub struct ConsoleEntry {
    pub level: ConsoleLogLevel,
    pub message: String,
    /// Seconds stamp of the entry; entries logged through
    /// [`EditorState::log`] carry their position in the log.
    pub timestamp_secs: u64,
}

/// Shared state accessible by all panels.
///
/// This is the single source of truth for editor-wide data. Panels read from
/// and write to this struct during each frame; the `*_requested` flags are
/// raised by menus and shortcuts and carried out once per frame.
pub struct EditorState {
    /// The ECS world being edited.
    pub world: World,
    /// Currently selected entities (empty = none selected).
    pub selected_entities: Vec<Entity>,
    /// Current play mode.
    pub play_mode: PlayMode,
    /// Current gizmo mode (translate / rotate / scale).
    pub gizmo_mode: GizmoMode,
    /// Whether snap-to-grid is enabled.
    pub snap_enabled: bool,
    /// Grid size for snapping, as `f32` bits.
    pub snap_size: u32,
    /// Console log entries.
    pub console_log: Vec<ConsoleEntry>,
    /// Console command history (most recent last).
    pub console_history: Vec<String>,
    /// Root directory for asset browsing (None = no project loaded).
    pub project_path: Option<String>,
    /// Whether the editor should quit.
    pub should_quit: bool,
    /// Whether to show the settings dialog.
    pub show_settings: bool,
    /// Whether to show the about dialog.
    pub show_about: bool,
    /// Bottom panel tab: true = Console, false = Asset Browser.
    pub show_console_tab: bool,
    /// Project manager — owns current project, recent list, dialog flags.
    pub project_manager: ProjectManager,
    /// Undo the last command.
    pub undo_requested: bool,
    /// Redo the last undone command.
    pub redo_requested: bool,
    /// Delete every selected entity.
    pub delete_selected_requested: bool,
    /// Duplicate every selected entity.
    pub duplicate_selected_requested: bool,
    /// Select every live entity.
    pub select_all_requested: bool,
    /// Save a copy of the project.
    pub save_as_requested: bool,
    /// Toggle fullscreen.
    pub fullscreen_requested: bool,
    /// Reset the panel layout.
    pub reset_layout_requested: bool,
    /// Launch the engine on the project.
    pub launch_engine_requested: bool,
    /// The recent-projects list changed and should be saved.
    pub recent_dirty: bool,
}

impl EditorState {
    /// The state of a fresh editor.
    pub open spec fn is_fresh(&self) -> bool {
        &&& self.world.wf()
        &&& self.world.live_count() == 0
        &&& self.world.has_room()
        &&& self.selected_entities@.len() == 0
        &&& self.play_mode == PlayMode::Stopped
        &&& self.gizmo_mode == GizmoMode::Translate
        &&& !self.snap_enabled
        &&& self.snap_size == F32_ONE
        &&& self.console_log@.len() == 0
        &&& self.console_history@.len() == 0
        &&& self.project_path is None
        &&& !self.should_quit
        &&& !self.show_settings
        &&& !self.show_about
        &&& self.show_console_tab
        &&& self.project_manager.is_initial()
        &&& !self.undo_requested
        &&& !self.redo_requested
        &&& !self.delete_selected_requested
        &&& !self.duplicate_selected_requested
        &&& !self.select_all_requested
        &&& !self.save_as_requested
        &&& !self.fullscreen_requested
        &&& !self.reset_layout_requested
        &&& !self.launch_engine_requested
        &&& !self.recent_dirty
    }

    /// Create a default editor state with an empty world.
    pub fn new() -> (s: Self)
        ensures
            s.is_fresh(),
            forall|e: Entity| !s.world.is_alive(e),
    {
        Self {
            world: World::new(),
            selected_entities: Vec::new(),
            play_mode: PlayMode::Stopped,
            gizmo_mode: GizmoMode::Translate,
            snap_enabled: false,
            snap_size: F32_ONE,
            console_log: Vec::new(),
            console_history: Vec::new(),
            project_path: None,
            should_quit: false,
            show_settings: false,
            show_about: false,
            show_console_tab: true,
            project_manager: ProjectManager::new(),
            undo_requested: false,
            redo_requested: false,
            delete_selected_requested: false,
            duplicate_selected_requested: false,
            select_all_requested: false,
            save_as_requested: false,
            fullscreen_requested: false,
            reset_layout_requested: false,
            launch_engine_requested: false,
            recent_dirty: false,
        }
    }

    /// Append a console log entry, stamped with its position in the log.
    pub fn log(&mut self, level: ConsoleLogLevel, message: String)
        ensures
            final(self).console_log@.len() == old(self).console_log@.len() + 1,
            final(self).console_log@.drop_last() == old(self).console_log@,
            final(self).console_log@.last().level == level,
            final(self).console_log@.last().message == message,
            final(self).console_log@.last().timestamp_secs == old(self).console_log@.len(),
            final(self).world == old(self).world,
            final(self).selected_entities == old(self).selected_entities,
            flags_kept(*final(self), *old(self)),
    {
        let stamp = self.console_log.len() as u64;
        self.console_log.push(ConsoleEntry { level, message, timestamp_secs: stamp });
        proof {
            assert(self.console_log@.drop_last() =~= old(self).console_log@);
        }
    }

    /// Select a single entity (replaces current selection).
    pub fn select(&mut self, entity: Entity)
        ensures
            final(self).selected_entities@ == seq![entity],
            final(self).world == old(self).world,
            final(self).console_log == old(self).console_log,
            flags_kept(*final(self), *old(self)),
    {
        self.selected_entities.clear();
        self.selected_entities.push(entity);
        proof {
            assert(self.selected_entities@ =~= seq![entity]);
        }
    }

    /// Add an entity to the selection (multi-select); no change when it is
    /// already selected.
    pub fn select_add(&mut self, entity: Entity)
        ensures
            old(self).selected_entities@.contains(entity) ==> final(self).selected_entities@
                == old(self).selected_entities@,
            !old(self).selected_entities@.contains(entity) ==> final(self).selected_entities@
                == old(self).selected_entities@.push(entity),
            final(self).world == old(self).world,
            final(self).console_log == old(self).console_log,
            flags_kept(*final(self), *old(self)),
    {
        if !self.is_selected(entity) {
            self.selected_entities.push(entity);
        }
    }

    /// Deselect an entity: every occurrence leaves the selection, the rest
    /// keeps its order.
    pub fn deselect(&mut self, entity: Entity)
        ensures
            final(self).selected_entities@ == old(self).selected_entities@.filter(|x: Entity| x != entity),
            final(self).world == old(self).world,
            final(self).console_log == old(self).console_log,
            flags_kept(*final(self), *old(self)),
    {
        let mut kept: Vec<Entity> = Vec::new();
        let mut i: usize = 0;
        let ghost src = self.selected_entities@;
        while i < self.selected_entities.len()
            invariant
                src == self.selected_entities@,
                i <= src.len(),
                kept@ == src.subrange(0, i as int).filter(|x: Entity| x != entity),
            decreases src.len() - i,
        {
            let x = self.selected_entities[i];
            proof {
                let post = src.subrange(0, i + 1);
                assert(post.drop_last() =~= src.subrange(0, i as int));
                assert(post.last() == x);
                reveal(Seq::filter);
            }
            if x != entity {
                kept.push(x);
            }
            i = i + 1;
        }
        proof {
            assert(src.subrange(0, src.len() as int) =~= src);
        }
        self.selected_entities = kept;
    }

    /// Clear all selection.
    pub fn clear_selection(&mut self)
        ensures
            final(self).selected_entities@.len() == 0,
            final(self).world == old(self).world,
            final(self).console_log == old(self).console_log,
            flags_kept(*final(self), *old(self)),
    {
        self.selected_entities.clear();
    }

    /// Whether an entity is currently selected.
    pub fn is_selected(&self, entity: Entity) -> (b: bool)
        ensures
            b == self.selected_entities@.contains(entity),
    {
        let mut i: usize = 0;
        while i < self.selected_entities.len()
            invariant
                i <= self.selected_entities@.len(),
                forall|k: int| 0 <= k < i ==> self.selected_entities@[k] != entity,
            decreases self.selected_entities@.len() - i,
        {
            if self.selected_entities[i] == entity {
                return true;
            }
            i = i + 1;
        }
        false
    }
}

/// `b` has the same flags, dialogs, settings and project as `a`: only the
/// world, the selection and the log may differ.
pub open spec fn flags_kept(a: EditorState, b: EditorState) -> bool {
    &&& a.play_mode == b.play_mode
    &&& a.gizmo_mode == b.gizmo_mode
    &&& a.snap_enabled == b.snap_enabled
    &&& a.snap_size == b.snap_size
    &&& a.console_history == b.console_history
    &&& a.project_path == b.project_path
    &&& a.should_quit == b.should_quit
    &&& a.show_settings == b.show_settings
    &&& a.show_about == b.show_about
    &&& a.show_console_tab == b.show_console_tab
    &&& a.project_manager == b.project_manager
    &&& a.undo_requested == b.undo_requested
    &&& a.redo_requested == b.redo_requested
    &&& a.delete_selected_requested == b.delete_selected_requested
    &&& a.duplicate_selected_requested == b.duplicate_selected_requested
    &&& a.select_all_requested == b.select_all_requested
    &&& a.save_as_requested == b.save_as_requested
    &&& a.fullscreen_requested == b.fullscreen_requested
    &&& a.reset_layout_requested == b.reset_layout_requested
    &&& a.launch_engine_requested == b.launch_engine_requested
    &&& a.recent_dirty == b.recent_dirty
}

/// Adding to the selection never selects an entity twice.
pub proof fn select_add_keeps_selection_distinct(sel: Seq<Entity>, e: Entity)
    requires
        sel.no_duplicates(),
    ensures
        (if sel.contains(e) {
            sel
        } else {
            sel.push(e)
        }).no_duplicates(),
{
    if !sel.contains(e) {
        let s = sel.push(e);
        assert forall|i: int, j: int| 0 <= i < s.len() && 0 <= j < s.len() && i != j implies s[i] != s[j] by {
            if i < sel.len() && j < sel.len() {
                assert(s[i] == sel[i] && s[j] == sel[j]);
            } else if i == sel.len() {
                assert(s[j] == sel[j]);
            } else {
                assert(s[i] == sel[i]);
            }
        }
    }
}

/// The entities of `sel` alive in `w`, in order.
pub open spec fn live_selection(w: World, sel: Seq<Entity>) -> Seq<Entity> {
    sel.filter(|x: Entity| w.is_alive(x))
}

/// `copies` are the copies made in `after` of the entities `sources` of
/// `before`, one each and in order: fresh live entities whose position is
/// their source's, and which hold no other component.
pub open spec fn copies_of(before: World, after: World, sources: Seq<Entity>, copies: Seq<Entity>) -> bool {
    &&& copies.len() == sources.len()
    &&& forall|k: int| 0 <= k < copies.len() ==> {
        let c = #[trigger] copies[k];
        &&& after.is_alive(c)
        &&& !before.is_alive(c)
        &&& after.component(c, ComponentKind::Position) == before.component(sources[k], ComponentKind::Position)
        &&& forall|kind: ComponentKind| kind != ComponentKind::Position ==> after.component(c, kind) is None
    }
}

/// The duplication so far: `sel` are copies in `w` of the entities `srcs`
/// of `w0`, all distinct; no other entity came alive, the entities of `w0`
/// are untouched, and each copy took at most one new slot.
pub open spec fn copies_so_far(w0: World, w: World, srcs: Seq<Entity>, sel: Seq<Entity>) -> bool {
    &&& copies_of(w0, w, srcs, sel)
    &&& sel.no_duplicates()
    &&& forall|e: Entity| w.is_alive(e) ==> w0.is_alive(e) || sel.contains(e)
    &&& forall|e: Entity| w0.is_alive(e) ==> w.is_alive(e)
    &&& forall|e: Entity, k: ComponentKind| w0.is_alive(e) ==> w.component(e, k) == w0.component(e, k)
    &&& w.slot_count() <= w0.slot_count() + sel.len()
}

/// Copy each entity of `live` (all alive) into `sel`, in order, while the
/// world has room; with room for all of them, each gets its copy.
#[verifier::rlimit(60)]
#[verifier::spinoff_prover]
fn duplicate_all(world: &mut World, sel: &mut Vec<Entity>, live: &Vec<Entity>)
    requires
        old(world).wf(),
        old(sel)@.len() == 0,
        forall|j: int| 0 <= j < live@.len() ==> old(world).is_alive(#[trigger] live@[j]),
    ensures
        final(world).wf(),
        final(sel)@.len() <= live@.len(),
        forall|k: int| 0 <= k < final(sel)@.len() ==> {
            let c = #[trigger] final(sel)@[k];
            &&& final(world).is_alive(c)
            &&& !old(world).is_alive(c)
            &&& forall|kind: ComponentKind| kind != ComponentKind::Position ==> final(world).component(c, kind) is None
        },
        final(sel)@.no_duplicates(),
        forall|e: Entity| final(world).is_alive(e) ==> old(world).is_alive(e) || final(sel)@.contains(e),
        forall|e: Entity| old(world).is_alive(e) ==> final(world).is_alive(e),
        forall|e: Entity, k: ComponentKind| old(world).is_alive(e) ==> final(world).component(e, k) == old(world).component(e, k),
        old(world).slot_count() + live@.len() <= u32::MAX ==> copies_of(*old(world), *final(world), live@, final(sel)@),
{
    let ghost w0 = *world;
    let ghost lv = live@;
    let ghost room = w0.slot_count() + lv.len() <= u32::MAX;
    let ghost mut srcs: Seq<Entity> = Seq::empty();
    proof {
        w0.lemma_same_entities_refl();
        w0.lemma_same_entities(&w0);
        assert(sel@ =~= Seq::<Entity>::empty());
        assert(copies_so_far(w0, *world, srcs, sel@));
    }
    let mut i: usize = 0;
    while i < live.len()
        invariant
            live@ == lv,
            w0 == *old(world),
            forall|j: int| 0 <= j < lv.len() ==> w0.is_alive(#[trigger] lv[j]),
            room == (w0.slot_count() + lv.len() <= u32::MAX),
            i <= lv.len(),
            world.wf(),
            copies_so_far(w0, *world, srcs, sel@),
            srcs.len() <= i,
            room ==> srcs == lv.subrange(0, i as int),
        decreases lv.len() - i,
    {
        let e = live[i];
        proof {
            assert(w0.is_alive(lv[i as int]));
            if room {
                assert(world.slot_count() <= w0.slot_count() + sel@.len());
                world.lemma_room_below_max_slots();
            }
        }
        if world.has_room_for_entity() {
            duplicate_one(world, sel, e, Ghost(w0), Ghost(srcs));
            proof {
                if room {
                    assert(lv.subrange(0, i + 1) =~= lv.subrange(0, i as int).push(e));
                }
                srcs = srcs.push(e);
            }
        }
        i = i + 1;
    }
    proof {
        if room {
            assert(lv.subrange(0, lv.len() as int) =~= lv);
        }
    }
}

/// The entities of `sel` that are alive in `world`, in order.
fn live_in(world: &World, sel: &Vec<Entity>) -> (live: Vec<Entity>)
    requires
        world.wf(),
    ensures
        live@ == live_selection(*world, sel@),
        live@.len() <= sel@.len(),
        forall|j: int| 0 <= j < live@.len() ==> world.is_alive(#[trigger] live@[j]),
{
    let mut live: Vec<Entity> = Vec::new();
    let mut i: usize = 0;
    let ghost src = sel@;
    let ghost w = *world;
    while i < sel.len()
        invariant
            src == sel@,
            w == *world,
            world.wf(),
            i <= src.len(),
            live@ == src.subrange(0, i as int).filter(|x: Entity| w.is_alive(x)),
            live@.len() <= i,
            forall|j: int| 0 <= j < live@.len() ==> w.is_alive(#[trigger] live@[j]),
        decreases src.len() - i,
    {
        let x = sel[i];
        proof {
            let post = src.subrange(0, i + 1);
            assert(post.drop_last() =~= src.subrange(0, i as int));
            assert(post.last() == x);
            reveal(Seq::filter);
        }
        if world.entity_exists(x) {
            live.push(x);
        }
        i = i + 1;
    }
    proof {
        assert(src.subrange(0, src.len() as int) =~= src);
    }
    live
}

/// Replace the selection `sel` by copies of its live entities made in
/// `world` (see [`duplicate_all`]) and log how many were made.
#[verifier::rlimit(60)]
#[verifier::spinoff_prover]
fn duplicate_and_log(world: &mut World, sel: &mut Vec<Entity>, log: &mut Vec<ConsoleEntry>)
    requires
        old(world).wf(),
    ensures
        final(world).wf(),
        final(sel)@.len() <= old(sel)@.len(),
        forall|k: int| 0 <= k < final(sel)@.len() ==> {
            let c = #[trigger] final(sel)@[k];
            &&& final(world).is_alive(c)
            &&& !old(world).is_alive(c)
            &&& forall|kind: ComponentKind| kind != ComponentKind::Position ==> final(world).component(c, kind) is None
        },
        final(sel)@.no_duplicates(),
        forall|e: Entity| final(world).is_alive(e) ==> old(world).is_alive(e) || final(sel)@.contains(e),
        forall|e: Entity| old(world).is_alive(e) ==> final(world).is_alive(e),
        forall|e: Entity, k: ComponentKind| old(world).is_alive(e) ==> final(world).component(e, k) == old(world).component(e, k),
        old(world).slot_count() + live_selection(*old(world), old(sel)@).len() <= u32::MAX
            ==> copies_of(*old(world), *final(world), live_selection(*old(world), old(sel)@), final(sel)@),
        final(sel)@.len() == 0 ==> *final(log) == *old(log),
        final(sel)@.len() > 0 ==> log_grew(old(log)@, final(log)@, count_text("Duplicated"@, final(sel)@.len())),
{
    let live = live_in(world, sel);
    sel.clear();
    duplicate_all(world, sel, &live);
    let n = sel.len();
    if n > 0 {
        push_info(log, count_message("Duplicated", n));
    }
}

/// Make one more copy: a fresh entity with `e`'s position, appended to `sel`.
#[verifier::rlimit(60)]
#[verifier::spinoff_prover]
fn duplicate_one(
    world: &mut World,
    sel: &mut Vec<Entity>,
    e: Entity,
    Ghost(w0): Ghost<World>,
    Ghost(srcs): Ghost<Seq<Entity>>,
)
    requires
        old(world).wf(),
        old(world).has_room(),
        w0.is_alive(e),
        copies_so_far(w0, *old(world), srcs, old(sel)@),
    ensures
        final(world).wf(),
        copies_so_far(w0, *final(world), srcs.push(e), final(sel)@),
{
    let ghost wb = *world;
    let ghost before = sel@;
    let copy = world.create_entity();
    let ghost wc = *world;
    let pos = world.get_component::<Position>(e);
    proof {
        wb.lemma_stored_kind(e, ComponentKind::Position);
        if let Some(v) = w0.component(e, ComponentKind::Position) {
            Position::lemma_unwrap(v);
        }
        assert(wc.component(e, ComponentKind::Position) == w0.component(e, ComponentKind::Position));
    }
    match pos {
        Some(p) => {
            world.add_component(copy, p);
            proof {
                Position::lemma_wrap_unwrap(p);
                world.lemma_same_entities(&wc);
            }
        },
        None => {
            proof {
                wc.lemma_same_entities_refl();
                wc.lemma_same_entities(&wc);
            }
        },
    }
    sel.push(copy);
    proof {
        let w = *world;
        let srcs2 = srcs.push(e);
        let s2 = sel@;
        assert(w.component(copy, ComponentKind::Position) == w0.component(e, ComponentKind::Position));
        assert(!w0.is_alive(copy)) by {
            if w0.is_alive(copy) {
                assert(wb.is_alive(copy));
            }
        }
        assert(!before.contains(copy)) by {
            if before.contains(copy) {
                let k = choose|k: int| 0 <= k < before.len() && before[k] == copy;
                assert(wb.is_alive(before[k]));
            }
        }
        assert forall|k: int| 0 <= k < s2.len() implies {
            let c = #[trigger] s2[k];
            &&& w.is_alive(c)
            &&& !w0.is_alive(c)
            &&& w.component(c, ComponentKind::Position) == w0.component(srcs2[k], ComponentKind::Position)
            &&& forall|kind: ComponentKind| kind != ComponentKind::Position ==> w.component(c, kind) is None
        } by {
            if k < before.len() {
                assert(s2[k] == before[k]);
                assert(srcs2[k] == srcs[k]);
                assert(wb.is_alive(before[k]));
                assert(before[k] != copy);
            }
        }
        assert forall|a: int, b: int| 0 <= a < s2.len() && 0 <= b < s2.len() && a != b implies s2[a] != s2[b] by {
            if a < before.len() && b < before.len() {
                assert(s2[a] == before[a]);
                assert(s2[b] == before[b]);
            } else if a < before.len() {
                assert(s2[a] == before[a]);
            } else {
                assert(s2[b] == before[b]);
            }
        }
        assert forall|x: Entity| w.is_alive(x) implies w0.is_alive(x) || s2.contains(x) by {
            if x == copy {
                assert(s2[before.len() as int] == copy);
            } else {
                assert(wb.is_alive(x));
                if !w0.is_alive(x) {
                    let k = choose|k: int| 0 <= k < before.len() && before[k] == x;
                    assert(s2[k] == x);
                }
            }
        }
        assert forall|x: Entity| w0.is_alive(x) implies w.is_alive(x) by {
            assert(wb.is_alive(x));
            assert(x != copy);
        }
        assert forall|x: Entity, k: ComponentKind| w0.is_alive(x) implies w.component(x, k) == w0.component(x, k) by {
            assert(wb.is_alive(x));
            assert(x != copy);
            assert(wc.component(x, k) == wb.component(x, k));
        }
    }
}

/// `"<verb> <n> entity/ies"`.
pub open spec fn count_text(verb: Seq<char>, n: nat) -> Seq<char> {
    verb + " "@ + decimal(n) + " entity/ies"@
}

fn count_message(verb: &str, n: usize) -> (s: String)
    ensures
        s@ == count_text(verb@, n as nat),
{
    let mut s = string_from(verb);
    s.append(" ");
    push_decimal(&mut s, n as u128);
    s.append(" entity/ies");
    s
}

impl EditorState {
    /// Destroy every selected entity, clear the selection, and log how many
    /// there were (nothing is logged for an empty selection).
    pub fn delete_selected(&mut self)
        requires
            old(self).world.wf(),
        ensures
            final(self).world.wf(),
            forall|e: Entity| old(self).selected_entities@.contains(e) ==> !final(self).world.is_alive(e),
            forall|e: Entity| !old(self).selected_entities@.contains(e) ==> final(self).world.is_alive(e) == old(self).world.is_alive(e),
            forall|e: Entity, k: ComponentKind| !old(self).selected_entities@.contains(e) ==> final(self).world.component(e, k) == old(self).world.component(e, k),
            final(self).selected_entities@.len() == 0,
            old(self).selected_entities@.len() == 0 ==> final(self).console_log == old(self).console_log,
            old(self).selected_entities@.len() > 0 ==> final(self).console_log@.len() == old(self).console_log@.len() + 1
                && final(self).console_log@.last().level == ConsoleLogLevel::Info
                && final(self).console_log@.last().message@ == count_text("Deleted"@, old(self).selected_entities@.len())
                && final(self).console_log@.drop_last() == old(self).console_log@,
            flags_kept(*final(self), *old(self)),
    {
        let to_delete = self.selected_entities.clone();
        let ghost sel = old(self).selected_entities@;
        assert(to_delete@ == sel);
        let count = to_delete.len();
        if count == 0 {
            return;
        }
        let mut i: usize = 0;
        while i < count
            invariant
                count == sel.len(),
                to_delete@ == sel,
                i <= count,
                self.world.wf(),
                self.selected_entities == old(self).selected_entities,
                self.console_log == old(self).console_log,
                flags_kept(*self, *old(self)),
                forall|k: int| 0 <= k < i ==> !self.world.is_alive(#[trigger] sel[k]),
                forall|e: Entity| !sel.subrange(0, i as int).contains(e) ==> self.world.is_alive(e) == old(self).world.is_alive(e),
                forall|e: Entity, k: ComponentKind| !sel.subrange(0, i as int).contains(e) ==> self.world.component(e, k) == old(self).world.component(e, k),
            decreases count - i,
        {
            let e = to_delete[i];
            let ghost wb = self.world;
            if self.world.entity_exists(e) {
                self.world.destroy_entity(e);
            }
            proof {
                assert(sel.subrange(0, i + 1) =~= sel.subrange(0, i as int).push(e));
                assert forall|x: Entity| !sel.subrange(0, i + 1).contains(x) implies self.world.is_alive(x) == old(self).world.is_alive(x) && forall|k: ComponentKind| self.world.component(x, k) == old(self).world.component(x, k) by {
                    if sel.subrange(0, i as int).contains(x) {
                        let w = choose|w: int| 0 <= w < i && sel.subrange(0, i as int)[w] == x;
                        assert(sel.subrange(0, i + 1)[w] == x);
                    }
                    if x == e {
                        assert(sel.subrange(0, i + 1)[i as int] == e);
                    }
                }
            }
            i = i + 1;
        }
        proof {
            assert(sel.subrange(0, count as int) =~= sel);
            assert forall|e: Entity| sel.contains(e) implies !self.world.is_alive(e) by {
                let w = choose|w: int| 0 <= w < sel.len() && sel[w] == e;
                assert(!self.world.is_alive(sel[w]));
            }
        }
        self.selected_entities.clear();
        self.log(ConsoleLogLevel::Info, count_message("Deleted", count));
    }

    /// Select every live entity and log how many there are.
    pub fn select_all(&mut self)
        requires
            old(self).world.wf(),
        ensures
            final(self).world == old(self).world,
            forall|e: Entity| final(self).selected_entities@.contains(e) <==> old(self).world.is_alive(e),
            final(self).console_log@.len() == old(self).console_log@.len() + 1,
            final(self).console_log@.last().level == ConsoleLogLevel::Info,
            final(self).console_log@.last().message@ == "Selected all "@ + decimal(final(self).selected_entities@.len()) + " entities"@,
            final(self).console_log@.drop_last() == old(self).console_log@,
            flags_kept(*final(self), *old(self)),
    {
        let all = self.world.all_entities();
        proof {
            assert forall|e: Entity| all@.contains(e) implies old(self).world.is_alive(e) by {
                let w = choose|w: int| 0 <= w < all@.len() && all@[w] == e;
                assert(self.world.is_alive(all@[w]));
            }
        }
        self.selected_entities = all;
        let mut msg = string_from("Selected all ");
        push_decimal(&mut msg, self.selected_entities.len() as u128);
        msg.append(" entities");
        self.log(ConsoleLogLevel::Info, msg);
    }

    /// Give every selected live entity a copy (a new entity with the same
    /// position, when it has one, and no other component), select the
    /// copies in the order of their sources, and log how many were made.
    /// Copies stop when the world has no room for more entities; when it has
    /// room for all of them, every live selected entity gets its copy.
    #[verifier::rlimit(100)]
    #[verifier::spinoff_prover]
    pub fn duplicate_selected(&mut self)
        requires
            old(self).world.wf(),
        ensures
            final(self).world.wf(),
            final(self).selected_entities@.len() <= old(self).selected_entities@.len(),
            forall|k: int| 0 <= k < final(self).selected_entities@.len() ==> {
                let c = #[trigger] final(self).selected_entities@[k];
                &&& final(self).world.is_alive(c)
                &&& !old(self).world.is_alive(c)
                &&& forall|kind: ComponentKind| kind != ComponentKind::Position ==> final(self).world.component(c, kind) is None
            },
            final(self).selected_entities@.no_duplicates(),
            forall|e: Entity| final(self).world.is_alive(e) ==> old(self).world.is_alive(e)
                || final(self).selected_entities@.contains(e),
            forall|e: Entity| old(self).world.is_alive(e) ==> final(self).world.is_alive(e),
            forall|e: Entity, k: ComponentKind| old(self).world.is_alive(e) ==> final(self).world.component(e, k) == old(self).world.component(e, k),
            old(self).world.slot_count() + live_selection(old(self).world, old(self).selected_entities@).len() <= u32::MAX
                ==> copies_of(old(self).world, final(self).world, live_selection(old(self).world, old(self).selected_entities@), final(self).selected_entities@),
            final(self).selected_entities@.len() == 0 ==> final(self).console_log == old(self).console_log,
            final(self).selected_entities@.len() > 0 ==> final(self).console_log@.len() == old(self).console_log@.len() + 1
                && final(self).console_log@.last().level == ConsoleLogLevel::Info
                && final(self).console_log@.last().message@ == count_text("Duplicated"@, final(self).selected_entities@.len())
                && final(self).console_log@.drop_last() == old(self).console_log@,
            flags_kept(*final(self), *old(self)),
    {
        duplicate_and_log(&mut self.world, &mut self.selected_entities, &mut self.console_log);
    }


    /// Carry out the undo, redo, delete, duplicate and select-all requests
    /// raised this frame, in that order, and lower their flags. Undo and
    /// redo log the description of the command they moved.
    #[verifier::rlimit(60)]
    #[verifier::spinoff_prover]
    pub fn process_world_requests<C: EditorCommand>(&mut self, undo_stack: &mut UndoStack<C>)
        requires
            old(self).world.wf(),
        ensures
            final(self).world.wf(),
            exists|s1: EditorState, u1: UndoStack<C>, s2: EditorState, s3: EditorState, s4: EditorState|
                #![trigger undo_request_done(*old(self), *old(undo_stack), s1, u1), redo_request_done(s1, u1, s2, *final(undo_stack)), delete_request_done(s2, s3), duplicate_request_done(s3, s4)]
                {
                    &&& undo_request_done(*old(self), *old(undo_stack), s1, u1)
                    &&& redo_request_done(s1, u1, s2, *final(undo_stack))
                    &&& delete_request_done(s2, s3)
                    &&& duplicate_request_done(s3, s4)
                    &&& select_all_request_done(s4, *final(self))
                },
            !final(self).undo_requested,
            !final(self).redo_requested,
            !final(self).delete_selected_requested,
            !final(self).duplicate_selected_requested,
            !final(self).select_all_requested,
            final(self).save_as_requested == old(self).save_as_requested,
            final(self).fullscreen_requested == old(self).fullscreen_requested,
            final(self).reset_layout_requested == old(self).reset_layout_requested,
            final(self).launch_engine_requested == old(self).launch_engine_requested,
            final(self).project_manager == old(self).project_manager,
            !old(self).undo_requested && !old(self).redo_requested && !old(self).delete_selected_requested
                && !old(self).duplicate_selected_requested && !old(self).select_all_requested ==> {
                &&& final(self).world == old(self).world
                &&& final(self).selected_entities == old(self).selected_entities
                &&& final(self).console_log == old(self).console_log
                &&& *final(undo_stack) == *old(undo_stack)
            },
    {
        let ghost s0 = *self;
        let ghost u0 = *undo_stack;
        self.process_undo_request(undo_stack);
        let ghost s1 = *self;
        let ghost u1 = *undo_stack;
        self.process_redo_request(undo_stack);
        let ghost s2 = *self;
        self.process_delete_request();
        let ghost s3 = *self;
        self.process_duplicate_request();
        let ghost s4 = *self;
        self.process_select_all_request();
        proof {
            assert(undo_request_done(s0, u0, s1, u1));
            assert(redo_request_done(s1, u1, s2, *undo_stack));
            assert(delete_request_done(s2, s3));
            assert(duplicate_request_done(s3, s4));
            assert(select_all_request_done(s4, *self));
        }
    }

    /// Carry out a raised undo request and lower its flag: when the world
    /// has room, the newest command is undone and `"Undo: <description>"`
    /// is logged.
    #[verifier::rlimit(100)]
    #[verifier::spinoff_prover]
    pub fn process_undo_request<C: EditorCommand>(&mut self, undo_stack: &mut UndoStack<C>)
        requires
            old(self).world.wf(),
        ensures
            final(self).world.wf(),
            undo_request_done(*old(self), *old(undo_stack), *final(self), *final(undo_stack)),
    {
        if self.undo_requested {
            self.undo_requested = false;
            undo_and_log(&mut self.world, &mut self.console_log, undo_stack);
        }
    }

    /// Carry out a raised redo request and lower its flag: when the world
    /// has room, the newest undone command is redone and
    /// `"Redo: <description>"` is logged.
    #[verifier::rlimit(100)]
    #[verifier::spinoff_prover]
    pub fn process_redo_request<C: EditorCommand>(&mut self, undo_stack: &mut UndoStack<C>)
        requires
            old(self).world.wf(),
        ensures
            final(self).world.wf(),
            redo_request_done(*old(self), *old(undo_stack), *final(self), *final(undo_stack)),
    {
        if self.redo_requested {
            self.redo_requested = false;
            redo_and_log(&mut self.world, &mut self.console_log, undo_stack);
        }
    }

    /// Carry out a raised delete request and lower its flag.
    #[verifier::rlimit(60)]
    #[verifier::spinoff_prover]
    pub fn process_delete_request(&mut self)
        requires
            old(self).world.wf(),
        ensures
            final(self).world.wf(),
            delete_request_done(*old(self), *final(self)),
    {
        if self.delete_selected_requested {
            self.delete_selected_requested = false;
            self.delete_selected();
        }
    }

    /// Carry out a raised duplicate request and lower its flag.
    #[verifier::rlimit(60)]
    #[verifier::spinoff_prover]
    pub fn process_duplicate_request(&mut self)
        requires
            old(self).world.wf(),
        ensures
            final(self).world.wf(),
            duplicate_request_done(*old(self), *final(self)),
    {
        if self.duplicate_selected_requested {
            self.duplicate_selected_requested = false;
            self.duplicate_selected();
        }
    }

    /// Carry out a raised select-all request and lower its flag.
    #[verifier::rlimit(60)]
    #[verifier::spinoff_prover]
    pub fn process_select_all_request(&mut self)
        requires
            old(self).world.wf(),
        ensures
            final(self).world.wf(),
            select_all_request_done(*old(self), *final(self)),
    {
        if self.select_all_requested {
            self.select_all_requested = false;
            self.select_all();
        }
    }
}

/// When the world has room and there is a command to undo, undo it and log
/// `"Undo: <description>"`.
pub(crate) fn undo_and_log<C: EditorCommand>(world: &mut World, log: &mut Vec<ConsoleEntry>, undo_stack: &mut UndoStack<C>)
    requires
        old(world).wf(),
    ensures
        final(world).wf(),
        undo_applied(*old(world), old(log)@, *old(undo_stack), *final(world), final(log)@, *final(undo_stack)),
{
    if !world.has_room_for_entity() {
        return;
    }
    match undo_stack.undo(world) {
        Some(desc) => {
            let mut msg = string_from("Undo: ");
            msg.append(desc.as_str());
            push_info(log, msg);
        },
        None => {},
    }
}

/// When the world has room and there is a command to redo, redo it and log
/// `"Redo: <description>"`.
pub(crate) fn redo_and_log<C: EditorCommand>(world: &mut World, log: &mut Vec<ConsoleEntry>, undo_stack: &mut UndoStack<C>)
    requires
        old(world).wf(),
    ensures
        final(world).wf(),
        redo_applied(*old(world), old(log)@, *old(undo_stack), *final(world), final(log)@, *final(undo_stack)),
{
    if !world.has_room_for_entity() {
        return;
    }
    match undo_stack.redo(world) {
        Some(desc) => {
            let mut msg = string_from("Redo: ");
            msg.append(desc.as_str());
            push_info(log, msg);
        },
        None => {},
    }
}

/// Append an info entry stamped with its position in the log, as
/// [`EditorState::log`] does.
fn push_info(log: &mut Vec<ConsoleEntry>, message: String)
    ensures
        log_grew(old(log)@, final(log)@, message@),
{
    let stamp = log.len() as u64;
    log.push(ConsoleEntry { level: ConsoleLogLevel::Info, message, timestamp_secs: stamp });
    proof {
        assert(final(log)@.drop_last() =~= old(log)@);
    }
}

/// `after` is `before` with one more info entry whose message is `text`.
pub open spec fn log_grew(before: Seq<ConsoleEntry>, after: Seq<ConsoleEntry>, text: Seq<char>) -> bool {
    &&& after.len() == before.len() + 1
    &&& after.drop_last() == before
    &&& after.last().level == ConsoleLogLevel::Info
    &&& after.last().message@ == text
}

/// What undoing with a log does: when the world has room and there is a
/// command to undo, it is undone and `"Undo: <description>"` logged;
/// otherwise nothing changes.
pub open spec fn undo_applied<C: EditorCommand>(
    w0: World,
    l0: Seq<ConsoleEntry>,
    u0: UndoStack<C>,
    w1: World,
    l1: Seq<ConsoleEntry>,
    u1: UndoStack<C>,
) -> bool {
    if w0.has_room() && u0.undo_seq().len() > 0 {
        &&& undo_step(u0, u1)
        &&& u0.undo_seq().last().undone(&u1.redo_seq().last(), w0, w1)
        &&& log_grew(l0, l1, "Undo: "@ + u0.undo_seq().last().description())
    } else {
        &&& w1 == w0
        &&& u1 == u0
        &&& l1 == l0
    }
}

/// What redoing with a log does: when the world has room and there is a
/// command to redo, it is redone and `"Redo: <description>"` logged;
/// otherwise nothing changes.
pub open spec fn redo_applied<C: EditorCommand>(
    w0: World,
    l0: Seq<ConsoleEntry>,
    u0: UndoStack<C>,
    w1: World,
    l1: Seq<ConsoleEntry>,
    u1: UndoStack<C>,
) -> bool {
    if w0.has_room() && u0.redo_seq().len() > 0 {
        &&& redo_step(u0, u1)
        &&& u0.redo_seq().last().redone(&u1.undo_seq().last(), w0, w1)
        &&& log_grew(l0, l1, "Redo: "@ + u0.redo_seq().last().description())
    } else {
        &&& w1 == w0
        &&& u1 == u0
        &&& l1 == l0
    }
}

/// `after`'s log is `before`'s with one more info entry whose message is
/// `text`.
pub open spec fn logged_one(before: EditorState, after: EditorState, text: Seq<char>) -> bool {
    &&& after.console_log@.len() == before.console_log@.len() + 1
    &&& after.console_log@.drop_last() == before.console_log@
    &&& after.console_log@.last().level == ConsoleLogLevel::Info
    &&& after.console_log@.last().message@ == text
}

/// What carrying out the undo request does: nothing when none is raised;
/// otherwise the flag is lowered and, when the world has room and there is
/// a command to undo, it is undone and its description logged.
pub open spec fn undo_request_done<C: EditorCommand>(
    s0: EditorState,
    u0: UndoStack<C>,
    s1: EditorState,
    u1: UndoStack<C>,
) -> bool {
    if !s0.undo_requested {
        s1 == s0 && u1 == u0
    } else {
        &&& flags_kept(s1, EditorState { undo_requested: false, ..s0 })
        &&& s1.selected_entities == s0.selected_entities
        &&& undo_applied(s0.world, s0.console_log@, u0, s1.world, s1.console_log@, u1)
    }
}

/// What carrying out the redo request does: nothing when none is raised;
/// otherwise the flag is lowered and, when the world has room and there is
/// a command to redo, it is redone and its description logged.
pub open spec fn redo_request_done<C: EditorCommand>(
    s0: EditorState,
    u0: UndoStack<C>,
    s1: EditorState,
    u1: UndoStack<C>,
) -> bool {
    if !s0.redo_requested {
        s1 == s0 && u1 == u0
    } else {
        &&& flags_kept(s1, EditorState { redo_requested: false, ..s0 })
        &&& s1.selected_entities == s0.selected_entities
        &&& redo_applied(s0.world, s0.console_log@, u0, s1.world, s1.console_log@, u1)
    }
}

/// What carrying out the delete request does: nothing when none is raised;
/// otherwise the flag is lowered, every selected entity is destroyed, the
/// selection is cleared and `"Deleted <n> entity/ies"` is logged when `n`
/// entities were selected.
pub open spec fn delete_request_done(s0: EditorState, s1: EditorState) -> bool {
    if !s0.delete_selected_requested {
        s1 == s0
    } else {
        &&& flags_kept(s1, EditorState { delete_selected_requested: false, ..s0 })
        &&& forall|e: Entity| s0.selected_entities@.contains(e) ==> !s1.world.is_alive(e)
        &&& forall|e: Entity| !s0.selected_entities@.contains(e) ==> s1.world.is_alive(e) == s0.world.is_alive(e)
        &&& forall|e: Entity, k: ComponentKind| !s0.selected_entities@.contains(e) ==> s1.world.component(e, k) == s0.world.component(e, k)
        &&& s1.selected_entities@.len() == 0
        &&& s0.selected_entities@.len() == 0 ==> s1.console_log == s0.console_log
        &&& s0.selected_entities@.len() > 0 ==> logged_one(s0, s1, count_text("Deleted"@, s0.selected_entities@.len()))
    }
}

/// What carrying out the duplicate request does: nothing when none is
/// raised; otherwise the flag is lowered, the selection becomes new copies
/// of the live selected entities (each with its source's position and no
/// other component; one for each, in order, when the world has room for
/// all), no other entity comes alive, the others are kept as they were, and
/// `"Duplicated <n> entity/ies"` is logged when `n` copies were made.
pub open spec fn duplicate_request_done(s0: EditorState, s1: EditorState) -> bool {
    if !s0.duplicate_selected_requested {
        s1 == s0
    } else {
        &&& flags_kept(s1, EditorState { duplicate_selected_requested: false, ..s0 })
        &&& s1.selected_entities@.len() <= s0.selected_entities@.len()
        &&& forall|k: int| 0 <= k < s1.selected_entities@.len() ==> {
            let c = #[trigger] s1.selected_entities@[k];
            &&& s1.world.is_alive(c)
            &&& !s0.world.is_alive(c)
            &&& forall|kind: ComponentKind| kind != ComponentKind::Position ==> s1.world.component(c, kind) is None
        }
        &&& s1.selected_entities@.no_duplicates()
        &&& forall|e: Entity| s1.world.is_alive(e) ==> s0.world.is_alive(e) || s1.selected_entities@.contains(e)
        &&& s0.world.slot_count() + live_selection(s0.world, s0.selected_entities@).len() <= u32::MAX
            ==> copies_of(s0.world, s1.world, live_selection(s0.world, s0.selected_entities@), s1.selected_entities@)
        &&& forall|e: Entity| s0.world.is_alive(e) ==> s1.world.is_alive(e)
        &&& forall|e: Entity, k: ComponentKind| s0.world.is_alive(e) ==> s1.world.component(e, k) == s0.world.component(e, k)
        &&& s1.selected_entities@.len() == 0 ==> s1.console_log == s0.console_log
        &&& s1.selected_entities@.len() > 0 ==> logged_one(s0, s1, count_text("Duplicated"@, s1.selected_entities@.len()))
    }
}

/// What carrying out the select-all request does: nothing when none is
/// raised; otherwise the flag is lowered, every live entity is selected and
/// `"Selected all <n> entities"` is logged.
pub open spec fn select_all_request_done(s0: EditorState, s1: EditorState) -> bool {
    if !s0.select_all_requested {
        s1 == s0
    } else {
        &&& flags_kept(s1, EditorState { select_all_requested: false, ..s0 })
        &&& s1.world == s0.world
        &&& forall|e: Entity| s1.selected_entities@.contains(e) <==> s0.world.is_alive(e)
        &&& logged_one(s0, s1, "Selected all "@ + decimal(s1.selected_entities@.len()) + " entities"@)
    }
}

} // verus!
