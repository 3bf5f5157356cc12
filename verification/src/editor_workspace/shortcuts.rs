//! Keyboard shortcuts: the editor's actions, key bindings, and the map
//! between them with Blender-style defaults.

use vstd::prelude::*;

use crate::text::string_from;

verus! {

/// Every user-triggerable editor action that can be bound to a keyboard shortcut.
#[derive(Debug, Clone, Copy, PartialEq, Eq, Structural, Hash)]
pub enum ShortcutAction {
    NewProject,
    OpenProject,
    Save,
    SaveAs,
    Quit,
    Undo,
    Redo,
    Delete,
    Duplicate,
    SelectAll,
    Deselect,
    ToggleFullscreen,
    ResetLayout,
    FocusSelected,
    GizmoTranslate,
    GizmoRotate,
    GizmoScale,
    ToggleSnap,
    ToggleGrid,
    PlayStop,
    FrameAll,
    FrameSelected,
}

/// The display label of an action.
pub open spec fn action_label(a: ShortcutAction) -> Seq<char> {
    match a {
        ShortcutAction::NewProject => "New Project"@,
        ShortcutAction::OpenProject => "Open Project"@,
        ShortcutAction::Save => "Save"@,
        ShortcutAction::SaveAs => "Save As"@,
        ShortcutAction::Quit => "Quit"@,
        ShortcutAction::Undo => "Undo"@,
        ShortcutAction::Redo => "Redo"@,
        ShortcutAction::Delete => "Delete"@,
        ShortcutAction::Duplicate => "Duplicate"@,
        ShortcutAction::SelectAll => "Select All"@,
        ShortcutAction::Deselect => "Deselect"@,
        ShortcutAction::ToggleFullscreen => "Toggle Fullscreen"@,
        ShortcutAction::ResetLayout => "Reset Layout"@,
        ShortcutAction::FocusSelected => "Focus Selected"@,
        ShortcutAction::GizmoTranslate => "Gizmo Translate"@,
        ShortcutAction::GizmoRotate => "Gizmo Rotate"@,
        ShortcutAction::GizmoScale => "Gizmo Scale"@,
        ShortcutAction::ToggleSnap => "Toggle Snap"@,
        ShortcutAction::ToggleGrid => "Toggle Grid"@,
        ShortcutAction::PlayStop => "Play / Stop"@,
        ShortcutAction::FrameAll => "Frame All"@,
        ShortcutAction::FrameSelected => "Frame Selected"@,
    }
}

impl ShortcutAction {
    /// Human-readable label for this action (e.g. "New Project", "Toggle Grid").
    pub fn label_for_action(action: &ShortcutAction) -> (s: &'static str)
        ensures
            s@ == action_label(*action),
    {
        match action {
            ShortcutAction::NewProject => "New Project",
            ShortcutAction::OpenProject => "Open Project",
            ShortcutAction::Save => "Save",
            ShortcutAction::SaveAs => "Save As",
            ShortcutAction::Quit => "Quit",
            ShortcutAction::Undo => "Undo",
            ShortcutAction::Redo => "Redo",
            ShortcutAction::Delete => "Delete",
            ShortcutAction::Duplicate => "Duplicate",
            ShortcutAction::SelectAll => "Select All",
            ShortcutAction::Deselect => "Deselect",
            ShortcutAction::ToggleFullscreen => "Toggle Fullscreen",
            ShortcutAction::ResetLayout => "Reset Layout",
            ShortcutAction::FocusSelected => "Focus Selected",
            ShortcutAction::GizmoTranslate => "Gizmo Translate",
            ShortcutAction::GizmoRotate => "Gizmo Rotate",
            ShortcutAction::GizmoScale => "Gizmo Scale",
            ShortcutAction::ToggleSnap => "Toggle Snap",
            ShortcutAction::ToggleGrid => "Toggle Grid",
            ShortcutAction::PlayStop => "Play / Stop",
            ShortcutAction::FrameAll => "Frame All",
            ShortcutAction::FrameSelected => "Frame Selected",
        }
    }
}

/// The keys shortcuts are made of.
#[derive(Debug, Clone, Copy, PartialEq, Eq, Structural, Hash)]
pub enum Key {
    A,
    B,
    C,
    D,
    E,
    F,
    G,
    H,
    I,
    J,
    K,
    L,
    M,
    N,
    O,
    P,
    Q,
    R,
    S,
    T,
    U,
    V,
    W,
    X,
    Y,
    Z,
    Escape,
    Delete,
    Home,
    Enter,
    Space,
    Tab,
    F1,
    F2,
    F3,
    F4,
    F5,
    F6,
    F7,
    F8,
    F9,
    F10,
    F11,
    F12,
    Other,
}

/// The display name of a key; `???` for keys without one.
pub open spec fn key_label(k: Key) -> Seq<char> {
    match k {
        Key::A => "A"@,
        Key::D => "D"@,
        Key::E => "E"@,
        Key::F => "F"@,
        Key::G => "G"@,
        Key::N => "N"@,
        Key::O => "O"@,
        Key::Q => "Q"@,
        Key::R => "R"@,
        Key::S => "S"@,
        Key::W => "W"@,
        Key::Y => "Y"@,
        Key::Z => "Z"@,
        Key::Escape => "Esc"@,
        Key::Delete => "Del"@,
        Key::Home => "Home"@,
        Key::F1 => "F1"@,
        Key::F2 => "F2"@,
        Key::F3 => "F3"@,
        Key::F4 => "F4"@,
        Key::F5 => "F5"@,
        Key::F6 => "F6"@,
        Key::F7 => "F7"@,
        Key::F8 => "F8"@,
        Key::F9 => "F9"@,
        Key::F10 => "F10"@,
        Key::F11 => "F11"@,
        Key::F12 => "F12"@,
        _ => "???"@,
    }
}

/// Map a key to a stable display name.
pub fn key_name(key: Key) -> (s: &'static str)
    ensures
        s@ == key_label(key),
{
    match key {
        Key::A => "A",
        Key::D => "D",
        Key::E => "E",
        Key::F => "F",
        Key::G => "G",
        Key::N => "N",
        Key::O => "O",
        Key::Q => "Q",
        Key::R => "R",
        Key::S => "S",
        Key::W => "W",
        Key::Y => "Y",
        Key::Z => "Z",
        Key::Escape => "Esc",
        Key::Delete => "Del",
        Key::Home => "Home",
        Key::F1 => "F1",
        Key::F2 => "F2",
        Key::F3 => "F3",
        Key::F4 => "F4",
        Key::F5 => "F5",
        Key::F6 => "F6",
        Key::F7 => "F7",
        Key::F8 => "F8",
        Key::F9 => "F9",
        Key::F10 => "F10",
        Key::F11 => "F11",
        Key::F12 => "F12",
        _ => "???",
    }
}

/// A key + modifier combination that can trigger a [`ShortcutAction`].
#[derive(Debug, Clone, Copy, PartialEq, Eq, Structural, Hash)]
pub struct KeyBinding {
    pub key: Key,
    pub ctrl: bool,
    pub shift: bool,
    pub alt: bool,
}

/// `Ctrl+`, `Alt+`, `Shift+` as set, then the key's name.
pub open spec fn binding_label(b: KeyBinding) -> Seq<char> {
    (if b.ctrl { "Ctrl+"@ } else { Seq::empty() }) + (if b.alt { "Alt+"@ } else { Seq::empty() }) + (if b.shift {
        "Shift+"@
    } else {
        Seq::empty()
    }) + key_label(b.key)
}

impl KeyBinding {
    /// Plain key with no modifiers.
    pub fn key(key: Key) -> (b: Self)
        ensures
            b == (KeyBinding { key, ctrl: false, shift: false, alt: false }),
    {
        Self { key, ctrl: false, shift: false, alt: false }
    }

    /// Ctrl + key.
    pub fn ctrl(key: Key) -> (b: Self)
        ensures
            b == (KeyBinding { key, ctrl: true, shift: false, alt: false }),
    {
        Self { key, ctrl: true, shift: false, alt: false }
    }

    /// Ctrl + Shift + key.
    pub fn ctrl_shift(key: Key) -> (b: Self)
        ensures
            b == (KeyBinding { key, ctrl: true, shift: true, alt: false }),
    {
        Self { key, ctrl: true, shift: true, alt: false }
    }

    /// Shift + key (no Ctrl).
    pub fn shift(key: Key) -> (b: Self)
        ensures
            b == (KeyBinding { key, ctrl: false, shift: true, alt: false }),
    {
        Self { key, ctrl: false, shift: true, alt: false }
    }

    /// Alt + key.
    pub fn alt(key: Key) -> (b: Self)
        ensures
            b == (KeyBinding { key, ctrl: false, shift: false, alt: true }),
    {
        Self { key, ctrl: false, shift: false, alt: true }
    }

    /// Format a binding as a human-readable string (e.g. "Ctrl+S", "Shift+A", "W").
    pub fn label_for_binding(binding: &KeyBinding) -> (s: String)
        ensures
            s@ == binding_label(*binding),
    {
        let mut s = String::new();
        if binding.ctrl {
            s.append("Ctrl+");
        }
        if binding.alt {
            s.append("Alt+");
        }
        if binding.shift {
            s.append("Shift+");
        }
        s.append(key_name(binding.key));
        proof {
            assert(s@ =~= binding_label(*binding));
        }
        s
    }
}

/// The Blender-style default binding of each action.
pub open spec fn default_binding(a: ShortcutAction) -> KeyBinding {
    match a {
        ShortcutAction::NewProject => KeyBinding { key: Key::N, ctrl: true, shift: false, alt: false },
        ShortcutAction::OpenProject => KeyBinding { key: Key::O, ctrl: true, shift: false, alt: false },
        ShortcutAction::Save => KeyBinding { key: Key::S, ctrl: true, shift: false, alt: false },
        ShortcutAction::SaveAs => KeyBinding { key: Key::S, ctrl: true, shift: true, alt: false },
        ShortcutAction::Quit => KeyBinding { key: Key::Q, ctrl: true, shift: false, alt: false },
        ShortcutAction::Undo => KeyBinding { key: Key::Z, ctrl: true, shift: false, alt: false },
        ShortcutAction::Redo => KeyBinding { key: Key::Y, ctrl: true, shift: false, alt: false },
        ShortcutAction::Delete => KeyBinding { key: Key::Delete, ctrl: false, shift: false, alt: false },
        ShortcutAction::Duplicate => KeyBinding { key: Key::D, ctrl: true, shift: false, alt: false },
        ShortcutAction::SelectAll => KeyBinding { key: Key::A, ctrl: true, shift: false, alt: false },
        ShortcutAction::Deselect => KeyBinding { key: Key::Escape, ctrl: false, shift: false, alt: false },
        ShortcutAction::ToggleFullscreen => KeyBinding { key: Key::F11, ctrl: false, shift: false, alt: false },
        ShortcutAction::ResetLayout => KeyBinding { key: Key::Home, ctrl: false, shift: false, alt: false },
        ShortcutAction::FocusSelected => KeyBinding { key: Key::F, ctrl: false, shift: false, alt: false },
        ShortcutAction::GizmoTranslate => KeyBinding { key: Key::W, ctrl: false, shift: false, alt: false },
        ShortcutAction::GizmoRotate => KeyBinding { key: Key::E, ctrl: false, shift: false, alt: false },
        ShortcutAction::GizmoScale => KeyBinding { key: Key::R, ctrl: false, shift: false, alt: false },
        ShortcutAction::ToggleSnap => KeyBinding { key: Key::G, ctrl: false, shift: false, alt: false },
        ShortcutAction::ToggleGrid => KeyBinding { key: Key::G, ctrl: false, shift: false, alt: true },
        ShortcutAction::PlayStop => KeyBinding { key: Key::F5, ctrl: false, shift: false, alt: false },
        ShortcutAction::FrameAll => KeyBinding { key: Key::A, ctrl: false, shift: false, alt: false },
        ShortcutAction::FrameSelected => KeyBinding { key: Key::F, ctrl: false, shift: true, alt: false },
    }
}

/// No action occurs twice.
pub open spec fn actions_unique(s: Seq<(ShortcutAction, KeyBinding)>) -> bool {
    forall|i: int, j: int| 0 <= i < j < s.len() ==> s[i].0 != s[j].0
}

/// The binding recorded for `a` in `s`.
pub open spec fn bound_in(s: Seq<(ShortcutAction, KeyBinding)>, a: ShortcutAction) -> Option<KeyBinding> {
    if exists|k: int| 0 <= k < s.len() && s[k].0 == a {
        Some(s[choose|k: int| 0 <= k < s.len() && s[k].0 == a].1)
    } else {
        None
    }
}

/// With unique actions, the entry at `k` is the binding of its action.
proof fn lemma_bound_at(s: Seq<(ShortcutAction, KeyBinding)>, k: int)
    requires
        actions_unique(s),
        0 <= k < s.len(),
    ensures
        bound_in(s, s[k].0) == Some(s[k].1),
{
    let a = s[k].0;
    assert(exists|j: int| 0 <= j < s.len() && s[j].0 == a);
    let c = choose|j: int| 0 <= j < s.len() && s[j].0 == a;
    if c != k {
        if c < k {
            assert(s[c].0 != s[k].0);
        } else {
            assert(s[k].0 != s[c].0);
        }
    }
}

/// Bidirectional lookup between [`ShortcutAction`] and [`KeyBinding`].
pub struct ShortcutMap {
    bindings: Vec<(ShortcutAction, KeyBinding)>,
}

impl ShortcutMap {
    /// The binding of `a`, if any.
    pub closed spec fn binding_of(&self, a: ShortcutAction) -> Option<KeyBinding> {
        bound_in(self.bindings@, a)
    }

    /// Each action is bound at most once.
    pub closed spec fn wf(&self) -> bool {
        actions_unique(self.bindings@)
    }

    /// Create a new map populated with Blender-style defaults.
    pub fn new() -> (m: Self)
        ensures
            m.wf(),
            forall|a: ShortcutAction| m.binding_of(a) == Some(default_binding(a)),
    {
        Self::blender_defaults()
    }

    /// A map with the Blender-style default keybindings.
    pub fn blender_defaults() -> (m: Self)
        ensures
            m.wf(),
            forall|a: ShortcutAction| m.binding_of(a) == Some(default_binding(a)),
    {
        let v = vec![
            (ShortcutAction::NewProject, KeyBinding { key: Key::N, ctrl: true, shift: false, alt: false }),
            (ShortcutAction::OpenProject, KeyBinding { key: Key::O, ctrl: true, shift: false, alt: false }),
            (ShortcutAction::Save, KeyBinding { key: Key::S, ctrl: true, shift: false, alt: false }),
            (ShortcutAction::SaveAs, KeyBinding { key: Key::S, ctrl: true, shift: true, alt: false }),
            (ShortcutAction::Quit, KeyBinding { key: Key::Q, ctrl: true, shift: false, alt: false }),
            (ShortcutAction::Undo, KeyBinding { key: Key::Z, ctrl: true, shift: false, alt: false }),
            (ShortcutAction::Redo, KeyBinding { key: Key::Y, ctrl: true, shift: false, alt: false }),
            (ShortcutAction::Delete, KeyBinding { key: Key::Delete, ctrl: false, shift: false, alt: false }),
            (ShortcutAction::Duplicate, KeyBinding { key: Key::D, ctrl: true, shift: false, alt: false }),
            (ShortcutAction::SelectAll, KeyBinding { key: Key::A, ctrl: true, shift: false, alt: false }),
            (ShortcutAction::Deselect, KeyBinding { key: Key::Escape, ctrl: false, shift: false, alt: false }),
            (ShortcutAction::ToggleFullscreen, KeyBinding { key: Key::F11, ctrl: false, shift: false, alt: false }),
            (ShortcutAction::ResetLayout, KeyBinding { key: Key::Home, ctrl: false, shift: false, alt: false }),
            (ShortcutAction::FocusSelected, KeyBinding { key: Key::F, ctrl: false, shift: false, alt: false }),
            (ShortcutAction::GizmoTranslate, KeyBinding { key: Key::W, ctrl: false, shift: false, alt: false }),
            (ShortcutAction::GizmoRotate, KeyBinding { key: Key::E, ctrl: false, shift: false, alt: false }),
            (ShortcutAction::GizmoScale, KeyBinding { key: Key::R, ctrl: false, shift: false, alt: false }),
            (ShortcutAction::ToggleSnap, KeyBinding { key: Key::G, ctrl: false, shift: false, alt: false }),
            (ShortcutAction::ToggleGrid, KeyBinding { key: Key::G, ctrl: false, shift: false, alt: true }),
            (ShortcutAction::PlayStop, KeyBinding { key: Key::F5, ctrl: false, shift: false, alt: false }),
            (ShortcutAction::FrameAll, KeyBinding { key: Key::A, ctrl: false, shift: false, alt: false }),
            (ShortcutAction::FrameSelected, KeyBinding { key: Key::F, ctrl: false, shift: true, alt: false }),
        ];
        let m = ShortcutMap { bindings: v };
        proof {
            assert(actions_unique(m.bindings@));
            assert forall|a: ShortcutAction| m.binding_of(a) == Some(default_binding(a)) by {
                let s = m.bindings@;
                let k: int = match a {
                    ShortcutAction::NewProject => 0,
                    ShortcutAction::OpenProject => 1,
                    ShortcutAction::Save => 2,
                    ShortcutAction::SaveAs => 3,
                    ShortcutAction::Quit => 4,
                    ShortcutAction::Undo => 5,
                    ShortcutAction::Redo => 6,
                    ShortcutAction::Delete => 7,
                    ShortcutAction::Duplicate => 8,
                    ShortcutAction::SelectAll => 9,
                    ShortcutAction::Deselect => 10,
                    ShortcutAction::ToggleFullscreen => 11,
                    ShortcutAction::ResetLayout => 12,
                    ShortcutAction::FocusSelected => 13,
                    ShortcutAction::GizmoTranslate => 14,
                    ShortcutAction::GizmoRotate => 15,
                    ShortcutAction::GizmoScale => 16,
                    ShortcutAction::ToggleSnap => 17,
                    ShortcutAction::ToggleGrid => 18,
                    ShortcutAction::PlayStop => 19,
                    ShortcutAction::FrameAll => 20,
                    ShortcutAction::FrameSelected => 21,
                };
                assert(s[k] == (a, default_binding(a)));
                lemma_bound_at(s, k);
            }
        }
        m
    }

    fn position(&self, action: ShortcutAction) -> (r: Option<usize>)
        ensures
            match r {
                Some(k) => k < self.bindings@.len() && self.bindings@[k as int].0 == action,
                None => forall|k: int| 0 <= k < self.bindings@.len() ==> self.bindings@[k].0 != action,
            },
    {
        let mut i: usize = 0;
        while i < self.bindings.len()
            invariant
                i <= self.bindings@.len(),
                forall|k: int| 0 <= k < i ==> self.bindings@[k].0 != action,
            decreases self.bindings@.len() - i,
        {
            if self.bindings[i].0 == action {
                return Some(i);
            }
            i = i + 1;
        }
        None
    }

    /// Bind `action` to `binding`, replacing any existing binding for that action.
    pub fn bind(&mut self, action: ShortcutAction, binding: KeyBinding)
        requires
            old(self).wf(),
        ensures
            final(self).wf(),
            final(self).binding_of(action) == Some(binding),
            forall|a: ShortcutAction| a != action ==> final(self).binding_of(a) == old(self).binding_of(a),
    {
        let ghost before = self.bindings@;
        match self.position(action) {
            Some(k) => {
                self.bindings.set(k, (action, binding));
                proof {
                    let s = self.bindings@;
                    assert(s =~= before.update(k as int, (action, binding)));
                    assert forall|i: int, j: int| 0 <= i < j < s.len() implies s[i].0 != s[j].0 by {
                        assert(s[i].0 == before[i].0 && s[j].0 == before[j].0);
                    }
                    lemma_bound_at(s, k as int);
                    assert forall|a: ShortcutAction| a != action implies bound_in(s, a) == bound_in(before, a) by {
                        if exists|j: int| 0 <= j < before.len() && before[j].0 == a {
                            let j = choose|j: int| 0 <= j < before.len() && before[j].0 == a;
                            assert(s[j] == before[j]);
                            lemma_bound_at(s, j);
                            lemma_bound_at(before, j);
                        } else {
                            assert forall|j: int| 0 <= j < s.len() implies s[j].0 != a by {
                                assert(s[j].0 == before[j].0);
                            }
                        }
                    }
                }
            },
            None => {
                self.bindings.push((action, binding));
                proof {
                    let s = self.bindings@;
                    assert forall|i: int, j: int| 0 <= i < j < s.len() implies s[i].0 != s[j].0 by {
                        assert(s[i] == before[i] || i == before.len());
                    }
                    lemma_bound_at(s, before.len() as int);
                    assert forall|a: ShortcutAction| a != action implies bound_in(s, a) == bound_in(before, a) by {
                        if exists|j: int| 0 <= j < before.len() && before[j].0 == a {
                            let j = choose|j: int| 0 <= j < before.len() && before[j].0 == a;
                            assert(s[j] == before[j]);
                            lemma_bound_at(s, j);
                            lemma_bound_at(before, j);
                        } else {
                            assert forall|j: int| 0 <= j < s.len() implies s[j].0 != a by {
                                if j < before.len() {
                                    assert(s[j] == before[j]);
                                }
                            }
                        }
                    }
                }
            },
        }
    }

    /// Remove the binding for `action` (if any).
    pub fn unbind(&mut self, action: ShortcutAction)
        requires
            old(self).wf(),
        ensures
            final(self).wf(),
            final(self).binding_of(action) is None,
            forall|a: ShortcutAction| a != action ==> final(self).binding_of(a) == old(self).binding_of(a),
    {
        let ghost before = self.bindings@;
        match self.position(action) {
            Some(k) => {
                self.bindings.remove(k);
                proof {
                    let s = self.bindings@;
                    assert forall|j: int| 0 <= j < s.len() implies s[j] == (if j < k { before[j] } else { before[j + 1] }) by {}
                    assert forall|i: int, j: int| 0 <= i < j < s.len() implies s[i].0 != s[j].0 by {
                        let i0 = if i < k { i } else { i + 1 };
                        let j0 = if j < k { j } else { j + 1 };
                        assert(s[i] == before[i0] && s[j] == before[j0]);
                    }
                    assert forall|j: int| 0 <= j < s.len() implies s[j].0 != action by {
                        let j0 = if j < k { j } else { j + 1 };
                        assert(s[j] == before[j0]);
                    }
                    assert forall|a: ShortcutAction| a != action implies bound_in(s, a) == bound_in(before, a) by {
                        if exists|j: int| 0 <= j < before.len() && before[j].0 == a {
                            let j = choose|j: int| 0 <= j < before.len() && before[j].0 == a;
                            assert(j != k);
                            let j1 = if j < k { j } else { j - 1 };
                            assert(s[j1] == before[j]);
                            lemma_bound_at(s, j1);
                            lemma_bound_at(before, j);
                        } else {
                            assert forall|j: int| 0 <= j < s.len() implies s[j].0 != a by {
                                let j0 = if j < k { j } else { j + 1 };
                                assert(s[j] == before[j0]);
                            }
                        }
                    }
                }
            },
            None => {},
        }
    }

    /// Look up the binding for `action`.
    pub fn get(&self, action: &ShortcutAction) -> (r: Option<&KeyBinding>)
        requires
            self.wf(),
        ensures
            r matches Some(b) ==> self.binding_of(*action) == Some(*b),
            r is None ==> self.binding_of(*action) is None,
    {
        match self.position(*action) {
            Some(k) => {
                proof {
                    lemma_bound_at(self.bindings@, k as int);
                }
                Some(&self.bindings[k].1)
            },
            None => None,
        }
    }

    /// Reverse lookup: the action bound to the given key press, if any.
    pub fn find_action(&self, key: Key, ctrl: bool, shift: bool, alt: bool) -> (r: Option<ShortcutAction>)
        requires
            self.wf(),
        ensures
            r matches Some(found) ==> self.binding_of(found) == Some((KeyBinding { key, ctrl, shift, alt })),
            r is None ==> forall|a: ShortcutAction| self.binding_of(a) != Some((KeyBinding { key, ctrl, shift, alt })),
    {
        let want = KeyBinding { key, ctrl, shift, alt };
        let mut i: usize = 0;
        while i < self.bindings.len()
            invariant
                self.wf(),
                want == (KeyBinding { key, ctrl, shift, alt }),
                i <= self.bindings@.len(),
                forall|k: int| 0 <= k < i ==> self.bindings@[k].1 != want,
            decreases self.bindings@.len() - i,
        {
            let b = self.bindings[i].1;
            if b == want {
                proof {
                    assert(b == self.bindings@[i as int].1);
                    lemma_bound_at(self.bindings@, i as int);
                    assert(b == want);
                    assert(self.binding_of(self.bindings@[i as int].0) == Some(want));
                }
                let a = self.bindings[i].0;
                assert(a == self.bindings@[i as int].0);
                return Some(a);
            }
            proof {
                assert(b == self.bindings@[i as int].1);
                assert(b != want);
            }
            i = i + 1;
        }
        proof {
            assert forall|a: ShortcutAction| self.binding_of(a) != Some(want) by {
                if exists|j: int| 0 <= j < self.bindings@.len() && self.bindings@[j].0 == a {
                    let j = choose|j: int| 0 <= j < self.bindings@.len() && self.bindings@[j].0 == a;
                    lemma_bound_at(self.bindings@, j);
                }
            }
        }
        None
    }

    /// Read access to every binding, each action once.
    pub fn all_bindings(&self) -> (r: &Vec<(ShortcutAction, KeyBinding)>)
        ensures
            forall|a: ShortcutAction| self.binding_of(a) == bound_in(r@, a),
            self.wf() ==> actions_unique(r@),
    {
        &self.bindings
    }
}

impl Default for ShortcutMap {
    fn default() -> (m: Self)
        ensures
            m.wf(),
            forall|a: ShortcutAction| m.binding_of(a) == Some(default_binding(a)),
    {
        Self::new()
    }
}

} // verus!
