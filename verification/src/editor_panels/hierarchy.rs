//! Scene hierarchy panel: lists the live entities, filters them by a search
//! string, and carries out the create / delete / select shortcuts.

use vstd::prelude::*;

use crate::editor_panels::EditorState;
use crate::entity::Entity;
use crate::text::{contains_seq, decimal, lowercase_of, push_decimal, str_contains, to_lowercase};

verus! {

/// The label an entity is listed under: `Entity <index>:<generation>`.
pub open spec fn entity_label(e: Entity) -> Seq<char> {
    "Entity "@ + decimal(e.spec_index() as nat) + ":"@ + decimal(e.spec_generation() as nat)
}

/// Format an entity handle for display.
pub fn format_entity(entity: Entity) -> (s: String)
    ensures
        s@ == entity_label(entity),
{
    let mut s = String::new();
    s.append("Entity ");
    push_decimal(&mut s, entity.index() as u128);
    s.append(":");
    push_decimal(&mut s, entity.generation() as u128);
    s
}

/// Keyboard shortcuts the hierarchy reacts to.
#[derive(Debug, Clone, Copy, PartialEq, Eq, Structural)]
pub enum HierarchyShortcut {
    /// Delete: destroy every selected entity.
    Delete,
    /// Ctrl+A: select every live entity.
    SelectAll,
    /// Escape: clear the selection and stop renaming.
    Escape,
}

/// Scene hierarchy panel state.
pub struct HierarchyPanel {
    /// Scroll the list to the selection on the next frame.
    pub scroll_to_selected: bool,
    /// Entity whose name is being edited, if any.
    pub rename_entity: Option<Entity>,
    /// Text of the name being edited.
    pub rename_buffer: String,
    /// Whether the entity list is expanded.
    pub show_entities: bool,
    /// Text typed into the search box.
    pub search_filter: String,
}

impl HierarchyPanel {
    /// A panel with an empty search, nothing renamed and the list expanded.
    pub fn new() -> (p: Self)
        ensures
            !p.scroll_to_selected,
            p.rename_entity is None,
            p.rename_buffer@.len() == 0,
            p.show_entities,
            p.search_filter@.len() == 0,
    {
        Self {
            scroll_to_selected: false,
            rename_entity: None,
            rename_buffer: String::new(),
            show_entities: true,
            search_filter: String::new(),
        }
    }

    /// Panel title.
    pub fn title(&self) -> (s: &'static str)
        ensures
            s@ == "Hierarchy"@,
    {
        "Hierarchy"
    }

    /// Whether `entity` is listed under the current search: every entity
    /// when the search is empty, otherwise those whose label contains the
    /// search text, both lower-cased.
    pub fn matches_filter(&self, entity: Entity) -> (b: bool)
        ensures
            b == (self.search_filter@.len() == 0 || contains_seq(
                lowercase_of(entity_label(entity)),
                lowercase_of(self.search_filter@),
            )),
    {
        if self.search_filter.as_str().unicode_len() == 0 {
            return true;
        }
        let label = format_entity(entity);
        let lower_label = to_lowercase(label.as_str());
        let lower_filter = to_lowercase(self.search_filter.as_str());
        str_contains(lower_label.as_str(), lower_filter.as_str())
    }

    /// The live entities of the edited world, in slot order.
    pub fn collect_alive_entities(state: &EditorState) -> (v: Vec<Entity>)
        requires
            state.world.wf(),
        ensures
            forall|k: int| 0 <= k < v@.len() ==> state.world.is_alive(#[trigger] v@[k]),
            forall|a: int, b: int| 0 <= a < b < v@.len() ==> v@[a].spec_index() < v@[b].spec_index(),
            forall|e: Entity| state.world.is_alive(e) ==> v@.contains(e),
    {
        state.world.all_entities()
    }

    /// Create an empty entity and select it.
    pub fn create_empty_entity(state: &mut EditorState) -> (e: Entity)
        requires
            old(state).world.wf(),
            old(state).world.has_room(),
        ensures
            final(state).world.wf(),
            !old(state).world.is_alive(e),
            final(state).world.is_alive(e),
            final(state).world.live_count() == old(state).world.live_count() + 1,
            forall|e2: Entity| e2 != e ==> final(state).world.is_alive(e2) == old(state).world.is_alive(e2),
            final(state).selected_entities@ == seq![e],
    {
        let e = state.world.create_entity();
        state.select(e);
        e
    }

    /// The Duplicate menu item: a new empty entity, selected (the source's
    /// components are not copied).
    pub fn duplicate_entity(state: &mut EditorState, source: Entity) -> (e: Entity)
        requires
            old(state).world.wf(),
            old(state).world.has_room(),
        ensures
            final(state).world.wf(),
            !old(state).world.is_alive(e),
            final(state).world.is_alive(e),
            final(state).world.live_count() == old(state).world.live_count() + 1,
            forall|e2: Entity| e2 != e ==> final(state).world.is_alive(e2) == old(state).world.is_alive(e2),
            final(state).selected_entities@ == seq![e],
    {
        Self::create_empty_entity(state)
    }

    /// A click on an entity's row: with Ctrl it toggles the entity in the
    /// selection, without it the entity becomes the whole selection.
    pub fn click_entity(state: &mut EditorState, entity: Entity, ctrl: bool)
        ensures
            !ctrl ==> final(state).selected_entities@ == seq![entity],
            ctrl && old(state).selected_entities@.contains(entity) ==> final(state).selected_entities@
                == old(state).selected_entities@.filter(|x: Entity| x != entity),
            ctrl && !old(state).selected_entities@.contains(entity) ==> final(state).selected_entities@
                == old(state).selected_entities@.push(entity),
            final(state).world == old(state).world,
            final(state).console_log == old(state).console_log,
    {
        if ctrl {
            if state.is_selected(entity) {
                state.deselect(entity);
            } else {
                state.select_add(entity);
            }
        } else {
            state.select(entity);
        }
    }

    /// Destroy `entity` and drop it from the selection.
    pub fn delete_entity(state: &mut EditorState, entity: Entity)
        requires
            old(state).world.wf(),
        ensures
            final(state).world.wf(),
            !final(state).world.is_alive(entity),
            forall|e2: Entity| e2 != entity ==> final(state).world.is_alive(e2) == old(state).world.is_alive(e2),
            final(state).selected_entities@ == old(state).selected_entities@.filter(|x: Entity| x != entity),
    {
        state.world.destroy_entity(entity);
        state.deselect(entity);
    }

    /// React to a hierarchy shortcut.
    pub fn handle_shortcut(&mut self, state: &mut EditorState, shortcut: HierarchyShortcut)
        requires
            old(state).world.wf(),
        ensures
            final(state).world.wf(),
            shortcut == HierarchyShortcut::Delete ==> {
                &&& forall|e: Entity| old(state).selected_entities@.contains(e) ==> !final(state).world.is_alive(e)
                &&& forall|e: Entity| !old(state).selected_entities@.contains(e) ==> final(state).world.is_alive(e) == old(state).world.is_alive(e)
                &&& forall|e: Entity| !final(state).selected_entities@.contains(e)
                &&& final(self).rename_entity == old(self).rename_entity
            },
            shortcut == HierarchyShortcut::SelectAll ==> {
                &&& final(state).world == old(state).world
                &&& forall|e: Entity| final(state).selected_entities@.contains(e) <==> old(state).world.is_alive(e)
                &&& final(self).rename_entity == old(self).rename_entity
            },
            shortcut == HierarchyShortcut::Escape ==> {
                &&& final(state).world == old(state).world
                &&& final(state).selected_entities@.len() == 0
                &&& final(self).rename_entity is None
            },
            final(self).search_filter == old(self).search_filter,
    {
        match shortcut {
            HierarchyShortcut::Delete => {
                let to_delete = state.selected_entities.clone();
                let ghost sel = old(state).selected_entities@;
                proof {
                    assert(to_delete@ == sel);
                }
                let mut i: usize = 0;
                while i < to_delete.len()
                    invariant
                        to_delete@ == sel,
                        i <= sel.len(),
                        state.world.wf(),
                        forall|k: int| 0 <= k < i ==> !state.world.is_alive(#[trigger] sel[k]),
                        forall|e: Entity| !sel.subrange(0, i as int).contains(e) ==> state.world.is_alive(e) == old(state).world.is_alive(e),
                        forall|e: Entity| #[trigger] state.selected_entities@.contains(e) ==> sel.contains(e) && !sel.subrange(0, i as int).contains(e),
                    decreases sel.len() - i,
                {
                    let e = to_delete[i];
                    let ghost before = state.selected_entities@;
                    let ghost wb = state.world;
                    Self::delete_entity(state, e);
                    proof {
                        assert(sel.subrange(0, i + 1) =~= sel.subrange(0, i as int).push(e));
                        assert forall|x: Entity| !sel.subrange(0, i + 1).contains(x) implies state.world.is_alive(x) == old(state).world.is_alive(x) by {
                            if sel.subrange(0, i as int).contains(x) {
                                let w = choose|w: int| 0 <= w < i && sel.subrange(0, i as int)[w] == x;
                                assert(sel.subrange(0, i + 1)[w] == x);
                            }
                            if x == e {
                                assert(sel.subrange(0, i + 1)[i as int] == e);
                            }
                            assert(state.world.is_alive(x) == wb.is_alive(x));
                        }
                        assert forall|x: Entity| #[trigger] state.selected_entities@.contains(x) implies sel.contains(x) && !sel.subrange(0, i + 1).contains(x) by {
                            lemma_filter_contains(before, e, x);
                        }
                    }
                    i = i + 1;
                }
                proof {
                    assert(sel.subrange(0, sel.len() as int) =~= sel);
                    assert forall|e: Entity| sel.contains(e) implies !state.world.is_alive(e) by {
                        let w = choose|w: int| 0 <= w < sel.len() && sel[w] == e;
                        assert(!state.world.is_alive(sel[w]));
                    }
                }
            },
            HierarchyShortcut::SelectAll => {
                let all = Self::collect_alive_entities(&*state);
                proof {
                    assert forall|e: Entity| all@.contains(e) implies old(state).world.is_alive(e) by {
                        let w = choose|w: int| 0 <= w < all@.len() && all@[w] == e;
                        assert(state.world.is_alive(all@[w]));
                    }
                }
                state.selected_entities = all;
            },
            HierarchyShortcut::Escape => {
                state.clear_selection();
                self.rename_entity = None;
                proof {
                    assert forall|e: Entity| !state.selected_entities@.contains(e) by {}
                }
            },
        }
    }
}

/// What stays after filtering out `e` is what was there, less `e`.
proof fn lemma_filter_contains(s: Seq<Entity>, e: Entity, x: Entity)
    ensures
        s.filter(|y: Entity| y != e).contains(x) <==> (s.contains(x) && x != e),
    decreases s.len(),
{
    reveal(Seq::filter);
    if s.len() > 0 {
        let d = s.drop_last();
        lemma_filter_contains(d, e, x);
        let fd = d.filter(|y: Entity| y != e);
        let f = s.filter(|y: Entity| y != e);
        if s.last() != e {
            assert(f == fd.push(s.last()));
        } else {
            assert(f == fd);
        }
        if d.contains(x) {
            let w = choose|w: int| 0 <= w < d.len() && d[w] == x;
            assert(s[w] == x);
        }
        if s.contains(x) && x != s.last() {
            let w = choose|w: int| 0 <= w < s.len() && s[w] == x;
            assert(w < s.len() - 1);
            assert(d[w] == x);
        }
        if s.last() == x {
            assert(s[s.len() - 1] == x);
        }
        if f.contains(x) && s.last() != e && x != s.last() {
            let w = choose|w: int| 0 <= w < f.len() && f[w] == x;
            assert(w < fd.len());
            assert(fd[w] == x);
        }
        if fd.contains(x) && s.last() != e {
            let w = choose|w: int| 0 <= w < fd.len() && fd[w] == x;
            assert(f[w] == x);
        }
        if s.last() != e && s.last() == x {
            assert(f[f.len() - 1] == x);
        }
    }
}

impl Default for HierarchyPanel {
    fn default() -> (p: Self)
        ensures
            !p.scroll_to_selected,
            p.rename_entity is None,
            p.show_entities,
            p.search_filter@.len() == 0,
    {
        Self::new()
    }
}

} // verus!
