//! Dockable panel layout: split directions, drop zones, drag state and
//! docking errors.

use vstd::prelude::*;

use crate::float_text::{f32_exp_field, f32_frac_field};
use crate::keyed::{find_keyed, key_position, keyed_insert, keys_unique, lemma_find_keyed_at, lemma_find_keyed_none};
use crate::text::{str_equal, string_from};

verus! {

/// Direction of a split node in the dock tree.
///
/// `Horizontal` places children side by side (left | right).
/// `Vertical` stacks children top-to-bottom (top / bottom).
#[derive(Debug, Clone, Copy, PartialEq, Eq, Structural, Hash)]
pub enum SplitDirection {
    /// Children arranged left-to-right.
    Horizontal,
    /// Children arranged top-to-bottom.
    Vertical,
}

/// The opposite direction.
pub open spec fn inverted(d: SplitDirection) -> SplitDirection {
    match d {
        SplitDirection::Horizontal => SplitDirection::Vertical,
        SplitDirection::Vertical => SplitDirection::Horizontal,
    }
}

impl SplitDirection {
    /// Returns the opposite direction.
    pub fn invert(self) -> (d: Self)
        ensures
            d == inverted(self),
    {
        match self {
            SplitDirection::Horizontal => SplitDirection::Vertical,
            SplitDirection::Vertical => SplitDirection::Horizontal,
        }
    }

    /// The direction's name: `horizontal` or `vertical`.
    pub fn to_string(&self) -> (s: String)
        ensures
            s@ == match *self {
                SplitDirection::Horizontal => "horizontal"@,
                SplitDirection::Vertical => "vertical"@,
            },
    {
        match self {
            SplitDirection::Horizontal => string_from("horizontal"),
            SplitDirection::Vertical => string_from("vertical"),
        }
    }
}

/// Inverting changes the direction, and inverting twice gives it back.
pub proof fn invert_is_involution(d: SplitDirection)
    ensures
        inverted(d) != d,
        inverted(inverted(d)) == d,
{
}

/// A path from the root of the dock tree to a node: `0`/`1` pick a split's
/// first or second child; the last index may pick a tab.
pub type DockNodePath = Vec<usize>;

/// Errors that can occur during dock layout operations.
#[derive(Debug, Clone, PartialEq, Eq)]
pub enum DockError {
    /// The layout structure is invalid (e.g. empty tree, orphaned nodes).
    InvalidLayout(String),
    /// Failed to serialize or deserialize the layout.
    SerializationError(String),
    /// The specified panel ID was not found in the layout.
    PanelNotFound(String),
}

impl DockError {
    /// Human-readable message for this error.
    pub fn to_string(&self) -> (s: String)
        ensures
            s@ == match *self {
                DockError::InvalidLayout(m) => "invalid layout: "@ + m@,
                DockError::SerializationError(m) => "serialization error: "@ + m@,
                DockError::PanelNotFound(m) => "panel not found: "@ + m@,
            },
    {
        let mut s = String::new();
        match self {
            DockError::InvalidLayout(m) => {
                s.append("invalid layout: ");
                s.append(m.as_str());
            },
            DockError::SerializationError(m) => {
                s.append("serialization error: ");
                s.append(m.as_str());
            },
            DockError::PanelNotFound(m) => {
                s.append("panel not found: ");
                s.append(m.as_str());
            },
        }
        s
    }
}

/// Zone within a dock region where a dragged panel can be dropped.
#[derive(Debug, Clone, Copy, PartialEq, Eq, Structural, Hash)]
pub enum DockZone {
    /// Dock to the left of the target region.
    Left,
    /// Dock to the right of the target region.
    Right,
    /// Dock above the target region.
    Top,
    /// Dock below the target region.
    Bottom,
    /// Tab into the same region as the target.
    Center,
}

impl DockZone {
    /// The split direction for this zone: `Left`/`Right` split
    /// horizontally, `Top`/`Bottom` vertically; `Center` tabs instead.
    pub fn split_direction(self) -> (d: Option<SplitDirection>)
        ensures
            d == match self {
                DockZone::Left | DockZone::Right => Some(SplitDirection::Horizontal),
                DockZone::Top | DockZone::Bottom => Some(SplitDirection::Vertical),
                DockZone::Center => None,
            },
    {
        match self {
            DockZone::Left | DockZone::Right => Some(SplitDirection::Horizontal),
            DockZone::Top | DockZone::Bottom => Some(SplitDirection::Vertical),
            DockZone::Center => None,
        }
    }

    /// Whether this zone places the new panel as the first child.
    pub fn is_first_child(self) -> (b: bool)
        ensures
            b == (self == DockZone::Left || self == DockZone::Top),
    {
        match self {
            DockZone::Left | DockZone::Top => true,
            _ => false,
        }
    }
}

/// An in-progress panel drag.
#[derive(Debug, Clone)]
pub struct DragState {
    /// The panel being dragged.
    pub panel_id: String,
    /// Path to the node where the drag originated.
    pub source_path: DockNodePath,
    /// The drop zone currently under the cursor, if any.
    pub preview_zone: Option<DockZone>,
}

impl DragState {
    /// A drag of `panel_id` from `source_path`, with no preview yet.
    pub fn new(panel_id: String, source_path: DockNodePath) -> (d: Self)
        ensures
            d.panel_id == panel_id,
            d.source_path == source_path,
            d.preview_zone is None,
    {
        Self { panel_id, source_path, preview_zone: None }
    }

    /// Update the preview zone under the cursor.
    pub fn set_preview_zone(&mut self, zone: Option<DockZone>)
        ensures
            final(self).preview_zone == zone,
            final(self).panel_id == old(self).panel_id,
            final(self).source_path == old(self).source_path,
    {
        self.preview_zone = zone;
    }

    /// Whether a drop zone preview is active.
    pub fn has_preview(&self) -> (b: bool)
        ensures
            b == self.preview_zone is Some,
    {
        self.preview_zone.is_some()
    }
}

// ── Single-precision ratios ──────────────────────────────────────

/// Whether the bit pattern is a NaN.
pub open spec fn f32_is_nan(b: u32) -> bool {
    f32_exp_field(b) == 255 && f32_frac_field(b) != 0
}

/// An integer ordered as the value of a non-NaN bit pattern (both zeros
/// map to 0).
pub open spec fn f32_order_key(b: u32) -> int {
    if b >= 0x8000_0000 {
        -((b - 0x8000_0000) as int)
    } else {
        b as int
    }
}

/// `a < b` on single-precision values given as bit patterns.
pub open spec fn f32_lt(a: u32, b: u32) -> bool {
    !f32_is_nan(a) && !f32_is_nan(b) && f32_order_key(a) < f32_order_key(b)
}

/// `f32::clamp` on bit patterns: `lo` below it, `hi` above it, NaN stays.
pub open spec fn f32_clamp(x: u32, lo: u32, hi: u32) -> u32 {
    let y = if f32_lt(x, lo) {
        lo
    } else {
        x
    };
    if f32_lt(hi, y) {
        hi
    } else {
        y
    }
}

/// `a < b` on single-precision values given as bit patterns.
pub fn f32_lt_exec(a: u32, b: u32) -> (r: bool)
    ensures
        r == f32_lt(a, b),
{
    let a_nan = (a / 0x80_0000) % 256 == 255 && a % 0x80_0000 != 0;
    let b_nan = (b / 0x80_0000) % 256 == 255 && b % 0x80_0000 != 0;
    if a_nan || b_nan {
        return false;
    }
    let ka: i64 = if a >= 0x8000_0000 {
        -((a - 0x8000_0000) as i64)
    } else {
        a as i64
    };
    let kb: i64 = if b >= 0x8000_0000 {
        -((b - 0x8000_0000) as i64)
    } else {
        b as i64
    };
    ka < kb
}

/// `f32::clamp` on bit patterns.
pub fn f32_clamp_bits(x: u32, lo: u32, hi: u32) -> (r: u32)
    ensures
        r == f32_clamp(x, lo, hi),
{
    let y = if f32_lt_exec(x, lo) {
        lo
    } else {
        x
    };
    if f32_lt_exec(hi, y) {
        hi
    } else {
        y
    }
}

/// `0.01f32`, the smallest split ratio.
pub const RATIO_MIN: u32 = 0x3C23_D70Au32;

/// `0.99f32`, the largest split ratio.
pub const RATIO_MAX: u32 = 0x3F7D_70A4u32;

/// `0.0f32`.
pub const SIZE_ZERO: u32 = 0u32;

/// `1.0f32`.
pub const SIZE_ONE: u32 = 0x3F80_0000u32;

// ── DockNode ─────────────────────────────────────────────────────

/// A node in the dock layout tree. Ratios are `f32` values held as bit
/// patterns.
#[derive(Debug)]
pub enum DockNode {
    /// Empty placeholder — occupies space but shows nothing.
    Empty,
    /// Leaf node containing a single panel.
    Leaf {
        /// Unique identifier for the panel (e.g. "hierarchy", "viewport").
        panel_id: String,
        /// Proportion of the parent split this node should occupy (0.0–1.0).
        size_ratio: u32,
    },
    /// Split node dividing space between two children.
    Split {
        /// Direction of the split.
        direction: SplitDirection,
        /// Ratio of space allocated to the first child (0.01–0.99).
        ratio: u32,
        /// The two children: (first, second).
        children: Box<(DockNode, DockNode)>,
    },
    /// Tabbed container — multiple panels sharing one region.
    Tabbed {
        /// Panel IDs of all tabs in this container.
        tabs: Vec<String>,
        /// Index of the currently active (visible) tab.
        active: usize,
        /// Proportion of the parent split this node should occupy (0.0–1.0).
        size_ratio: u32,
    },
}

/// The texts of a list of strings.
pub open spec fn id_texts(v: Seq<String>) -> Seq<Seq<char>> {
    v.map_values(|s: String| s@)
}

/// A dock tree as plain values: what a [`DockNode`] holds.
pub enum DockView {
    Empty,
    Leaf { id: Seq<char>, size_ratio: u32 },
    Split { direction: SplitDirection, ratio: u32, first: Box<DockView>, second: Box<DockView> },
    Tabbed { tabs: Seq<Seq<char>>, active: nat, size_ratio: u32 },
}

/// The plain-value form of a dock tree.
pub open spec fn dock_view(n: DockNode) -> DockView
    decreases n,
{
    match n {
        DockNode::Empty => DockView::Empty,
        DockNode::Leaf { panel_id, size_ratio } => DockView::Leaf { id: panel_id@, size_ratio },
        DockNode::Split { direction, ratio, children } => DockView::Split {
            direction,
            ratio,
            first: Box::new(dock_view(children.0)),
            second: Box::new(dock_view(children.1)),
        },
        DockNode::Tabbed { tabs, active, size_ratio } => DockView::Tabbed {
            tabs: id_texts(tabs@),
            active: active as nat,
            size_ratio,
        },
    }
}

/// The panel ids of a tree, depth first.
pub open spec fn view_panels(v: DockView) -> Seq<Seq<char>>
    decreases v,
{
    match v {
        DockView::Empty => Seq::empty(),
        DockView::Leaf { id, .. } => seq![id],
        DockView::Split { first, second, .. } => view_panels(*first) + view_panels(*second),
        DockView::Tabbed { tabs, .. } => tabs,
    }
}

/// The panel ids of a subtree, depth first.
pub open spec fn panels(n: DockNode) -> Seq<Seq<char>> {
    view_panels(dock_view(n))
}

/// A copy of a list of strings.
fn copy_strings(v: &Vec<String>) -> (r: Vec<String>)
    ensures
        id_texts(r@) == id_texts(v@),
{
    let mut r: Vec<String> = Vec::new();
    let mut i: usize = 0;
    while i < v.len()
        invariant
            i <= v@.len(),
            id_texts(r@) == id_texts(v@).subrange(0, i as int),
        decreases v@.len() - i,
    {
        let ghost rb = r@;
        r.push(string_from(v[i].as_str()));
        proof {
            assert(id_texts(r@) =~= id_texts(rb).push(v@[i as int]@));
            assert(id_texts(v@).subrange(0, i + 1) =~= id_texts(v@).subrange(0, i as int).push(v@[i as int]@));
        }
        i = i + 1;
    }
    proof {
        assert(id_texts(v@).subrange(0, v@.len() as int) =~= id_texts(v@));
    }
    r
}

/// Whether `v` holds a string equal to `x`.
fn strings_contain(v: &Vec<String>, x: &str) -> (r: Option<usize>)
    ensures
        match r {
            Some(i) => i < v@.len() && v@[i as int]@ == x@ && forall|k: int| 0 <= k < i ==> v@[k]@ != x@,
            None => !id_texts(v@).contains(x@),
        },
{
    let mut i: usize = 0;
    while i < v.len()
        invariant
            i <= v@.len(),
            forall|k: int| 0 <= k < i ==> v@[k]@ != x@,
        decreases v@.len() - i,
    {
        if str_equal(v[i].as_str(), x) {
            return Some(i);
        }
        i = i + 1;
    }
    proof {
        if id_texts(v@).contains(x@) {
            let w = choose|w: int| 0 <= w < id_texts(v@).len() && id_texts(v@)[w] == x@;
            assert(v@[w]@ == x@);
        }
    }
    None
}

impl DockNode {
    /// A leaf holding `panel_id`, sized 1.0.
    pub fn leaf(panel_id: String) -> (n: Self)
        ensures
            n == (DockNode::Leaf { panel_id, size_ratio: SIZE_ONE }),
    {
        DockNode::Leaf { panel_id, size_ratio: SIZE_ONE }
    }

    /// A horizontal split (left | right), its ratio clamped to 0.01–0.99.
    pub fn h_split(ratio: u32, left: DockNode, right: DockNode) -> (n: Self)
        ensures
            n == (DockNode::Split {
                direction: SplitDirection::Horizontal,
                ratio: f32_clamp(ratio, RATIO_MIN, RATIO_MAX),
                children: Box::new((left, right)),
            }),
    {
        DockNode::Split {
            direction: SplitDirection::Horizontal,
            ratio: f32_clamp_bits(ratio, RATIO_MIN, RATIO_MAX),
            children: Box::new((left, right)),
        }
    }

    /// A vertical split (top / bottom), its ratio clamped to 0.01–0.99.
    pub fn v_split(ratio: u32, top: DockNode, bottom: DockNode) -> (n: Self)
        ensures
            n == (DockNode::Split {
                direction: SplitDirection::Vertical,
                ratio: f32_clamp(ratio, RATIO_MIN, RATIO_MAX),
                children: Box::new((top, bottom)),
            }),
    {
        DockNode::Split {
            direction: SplitDirection::Vertical,
            ratio: f32_clamp_bits(ratio, RATIO_MIN, RATIO_MAX),
            children: Box::new((top, bottom)),
        }
    }

    /// A tabbed container with the given tabs, the first active, sized 1.0.
    pub fn tabbed(tabs: Vec<String>) -> (n: Self)
        ensures
            n == (DockNode::Tabbed { tabs, active: 0, size_ratio: SIZE_ONE }),
    {
        DockNode::Tabbed { tabs, active: 0, size_ratio: SIZE_ONE }
    }

    /// All panel ids in this subtree, depth first.
    pub fn panel_ids(&self) -> (v: Vec<String>)
        ensures
            id_texts(v@) == panels(*self),
        decreases self,
    {
        match self {
            DockNode::Empty => {
                let v: Vec<String> = Vec::new();
                proof {
                    assert(id_texts(v@) =~= Seq::<Seq<char>>::empty());
                }
                v
            },
            DockNode::Leaf { panel_id, .. } => {
                let mut v: Vec<String> = Vec::new();
                v.push(string_from(panel_id.as_str()));
                proof {
                    assert(id_texts(v@) =~= seq![panel_id@]);
                }
                v
            },
            DockNode::Split { children, .. } => {
                let mut v = children.0.panel_ids();
                let w = children.1.panel_ids();
                let ghost vb = v@;
                let mut i: usize = 0;
                while i < w.len()
                    invariant
                        i <= w@.len(),
                        id_texts(v@) == id_texts(vb) + id_texts(w@).subrange(0, i as int),
                    decreases w@.len() - i,
                {
                    let ghost vi = v@;
                    v.push(string_from(w[i].as_str()));
                    proof {
                        assert(id_texts(v@) =~= id_texts(vi).push(w@[i as int]@));
                        assert(id_texts(w@).subrange(0, i + 1) =~= id_texts(w@).subrange(0, i as int).push(w@[i as int]@));
                    }
                    i = i + 1;
                }
                proof {
                    assert(id_texts(w@).subrange(0, w@.len() as int) =~= id_texts(w@));
                }
                v
            },
            DockNode::Tabbed { tabs, .. } => copy_strings(tabs),
        }
    }

    /// Whether this subtree holds the panel `panel_id`.
    pub fn contains_panel(&self, panel_id: &str) -> (b: bool)
        ensures
            b == panels(*self).contains(panel_id@),
        decreases self,
    {
        match self {
            DockNode::Empty => false,
            DockNode::Leaf { panel_id: id, .. } => {
                let b = str_equal(id.as_str(), panel_id);
                proof {
                    if !b {
                        assert(!seq![id@].contains(panel_id@)) by {
                            if seq![id@].contains(panel_id@) {
                                let w = choose|w: int| 0 <= w < 1 && seq![id@][w] == panel_id@;
                            }
                        }
                    } else {
                        assert(seq![id@][0] == panel_id@);
                    }
                }
                b
            },
            DockNode::Split { children, .. } => {
                let a = children.0.contains_panel(panel_id);
                let b = children.1.contains_panel(panel_id);
                proof {
                    let l = panels(children.0);
                    let r = panels(children.1);
                    if a {
                        let w = choose|w: int| 0 <= w < l.len() && l[w] == panel_id@;
                        assert((l + r)[w] == panel_id@);
                    } else if b {
                        let w = choose|w: int| 0 <= w < r.len() && r[w] == panel_id@;
                        assert((l + r)[l.len() + w] == panel_id@);
                    } else {
                        assert(!(l + r).contains(panel_id@)) by {
                            if (l + r).contains(panel_id@) {
                                let w = choose|w: int| 0 <= w < (l + r).len() && (l + r)[w] == panel_id@;
                                if w < l.len() {
                                    assert(l[w] == panel_id@);
                                } else {
                                    assert(r[w - l.len()] == panel_id@);
                                }
                            }
                        }
                    }
                }
                a || b
            },
            DockNode::Tabbed { tabs, .. } => {
                let r = strings_contain(tabs, panel_id);
                proof {
                    if let Some(i) = r {
                        assert(id_texts(tabs@)[i as int] == panel_id@);
                    }
                }
                r.is_some()
            },
        }
    }

    /// Number of panels in this subtree.
    pub fn panel_count(&self) -> (n: usize)
        requires
            panels(*self).len() <= usize::MAX,
        ensures
            n == panels(*self).len(),
        decreases self,
    {
        match self {
            DockNode::Empty => 0,
            DockNode::Leaf { .. } => 1,
            DockNode::Split { children, .. } => children.0.panel_count() + children.1.panel_count(),
            DockNode::Tabbed { tabs, .. } => tabs.len(),
        }
    }
}

// ── Tree operations, stated on plain values ──────────────────────

/// `s` without its first occurrence of `x` (unchanged without one).
pub open spec fn remove_first(s: Seq<Seq<char>>, x: Seq<char>) -> Seq<Seq<char>>
    decreases s.len(),
{
    if s.len() == 0 {
        s
    } else if s[0] == x {
        s.drop_first()
    } else {
        seq![s[0]] + remove_first(s.drop_first(), x)
    }
}

/// The first position at or after `from` where `s` holds `x`.
pub open spec fn first_pos(s: Seq<Seq<char>>, x: Seq<char>, from: int) -> Option<int>
    decreases s.len() - from,
{
    if from < 0 || from >= s.len() {
        None
    } else if s[from] == x {
        Some(from)
    } else {
        first_pos(s, x, from + 1)
    }
}

/// A split of `a` and `b`, collapsed when a side is empty.
pub open spec fn simplified(direction: SplitDirection, ratio: u32, a: DockView, b: DockView) -> DockView {
    if a is Empty && b is Empty {
        DockView::Empty
    } else if a is Empty {
        b
    } else if b is Empty {
        a
    } else {
        DockView::Split { direction, ratio, first: Box::new(a), second: Box::new(b) }
    }
}

/// The tabs left after removing the tab at `i`, with the active index
/// kept on the same tab where it can be.
pub open spec fn tab_removed(tabs: Seq<Seq<char>>, active: nat, i: int, size_ratio: u32) -> DockView {
    let t = tabs.remove(i);
    if t.len() == 0 {
        DockView::Empty
    } else {
        let a = if active >= t.len() {
            (t.len() - 1) as nat
        } else if i < active {
            (active - 1) as nat
        } else {
            active
        };
        DockView::Tabbed { tabs: t, active: a, size_ratio }
    }
}

/// The tree after removing the first panel `id` (depth first), and whether
/// one was found. Splits left with an empty side collapse into the other.
pub open spec fn removed(v: DockView, id: Seq<char>) -> (DockView, bool)
    decreases v,
{
    match v {
        DockView::Empty => (v, false),
        DockView::Leaf { id: lid, .. } => if lid == id {
            (DockView::Empty, true)
        } else {
            (v, false)
        },
        DockView::Split { direction, ratio, first, second } => {
            let (a, fa) = removed(*first, id);
            if fa {
                (simplified(direction, ratio, a, *second), true)
            } else {
                let (b, fb) = removed(*second, id);
                if fb {
                    (simplified(direction, ratio, *first, b), true)
                } else {
                    (v, false)
                }
            }
        },
        DockView::Tabbed { tabs, active, size_ratio } => match first_pos(tabs, id, 0) {
            Some(i) => (tab_removed(tabs, active, i, size_ratio), true),
            None => (v, false),
        },
    }
}

/// The path to the first panel `id` (depth first): `0`/`1` through splits,
/// then the tab index for a tabbed node.
pub open spec fn found_path(v: DockView, id: Seq<char>) -> Option<Seq<usize>>
    decreases v,
{
    match v {
        DockView::Empty => None,
        DockView::Leaf { id: lid, .. } => if lid == id {
            Some(Seq::empty())
        } else {
            None
        },
        DockView::Split { first, second, .. } => match found_path(*first, id) {
            Some(p) => Some(seq![0usize] + p),
            None => match found_path(*second, id) {
                Some(p) => Some(seq![1usize] + p),
                None => None,
            },
        },
        DockView::Tabbed { tabs, .. } => match first_pos(tabs, id, 0) {
            Some(i) => Some(seq![i as usize]),
            None => None,
        },
    }
}

/// The active panel of the container holding `id`: the panel itself for a
/// leaf, the active tab for a tabbed node.
pub open spec fn active_of(v: DockView, id: Seq<char>) -> Option<Seq<char>>
    decreases v,
{
    match v {
        DockView::Empty => None,
        DockView::Leaf { id: lid, .. } => if lid == id {
            Some(lid)
        } else {
            None
        },
        DockView::Split { first, second, .. } => match active_of(*first, id) {
            Some(x) => Some(x),
            None => active_of(*second, id),
        },
        DockView::Tabbed { tabs, active, .. } => if tabs.contains(id) {
            if active < tabs.len() {
                Some(tabs[active as int])
            } else {
                None
            }
        } else {
            None
        },
    }
}

/// `0.5f32`.
pub const RATIO_HALF: u32 = 0x3F00_0000u32;

/// The tree with the node at `path` (split children only) replaced by a
/// split of that node and a new leaf `id`; unchanged when the path leaves
/// the splits.
pub open spec fn added(v: DockView, path: Seq<usize>, slot: SplitDirection, id: Seq<char>) -> DockView
    decreases path.len(),
{
    if path.len() == 0 {
        DockView::Split {
            direction: slot,
            ratio: RATIO_HALF,
            first: Box::new(v),
            second: Box::new(DockView::Leaf { id, size_ratio: SIZE_ONE }),
        }
    } else {
        match v {
            DockView::Split { direction, ratio, first, second } => if path[0] == 0 {
                DockView::Split {
                    direction,
                    ratio,
                    first: Box::new(added(*first, path.drop_first(), slot, id)),
                    second,
                }
            } else {
                DockView::Split {
                    direction,
                    ratio,
                    first,
                    second: Box::new(added(*second, path.drop_first(), slot, id)),
                }
            },
            _ => v,
        }
    }
}

/// The tree after moving panel `id` to a new split at `path`: `None` when
/// `id` is not in the tree or `path` does not lead through splits once
/// `id` is removed.
pub open spec fn moved(v: DockView, id: Seq<char>, path: Seq<usize>, slot: SplitDirection) -> Option<DockView> {
    let (rest, found) = removed(v, id);
    if found && path_valid(rest, path) {
        Some(added(rest, path, slot, id))
    } else {
        None
    }
}

/// Whether `path` leads through splits only.
pub open spec fn path_valid(v: DockView, path: Seq<usize>) -> bool
    decreases path.len(),
{
    if path.len() == 0 {
        true
    } else {
        match v {
            DockView::Split { first, second, .. } => if path[0] == 0 {
                path_valid(*first, path.drop_first())
            } else {
                path_valid(*second, path.drop_first())
            },
            _ => false,
        }
    }
}

/// The tree with every ratio clamped: sizes to 0.0–1.0, split ratios to
/// 0.01–0.99.
pub open spec fn normalized(v: DockView) -> DockView
    decreases v,
{
    match v {
        DockView::Empty => v,
        DockView::Leaf { id, size_ratio } => DockView::Leaf {
            id,
            size_ratio: f32_clamp(size_ratio, SIZE_ZERO, SIZE_ONE),
        },
        DockView::Split { direction, ratio, first, second } => DockView::Split {
            direction,
            ratio: f32_clamp(ratio, RATIO_MIN, RATIO_MAX),
            first: Box::new(normalized(*first)),
            second: Box::new(normalized(*second)),
        },
        DockView::Tabbed { tabs, active, size_ratio } => DockView::Tabbed {
            tabs,
            active,
            size_ratio: f32_clamp(size_ratio, SIZE_ZERO, SIZE_ONE),
        },
    }
}

// ── Exec tree operations ─────────────────────────────────────────

fn first_tab(tabs: &Vec<String>, id: &str) -> (r: Option<usize>)
    ensures
        match r {
            Some(i) => first_pos(id_texts(tabs@), id@, 0) == Some(i as int),
            None => first_pos(id_texts(tabs@), id@, 0) is None,
        },
        r matches Some(i) ==> i < tabs@.len() && tabs@[i as int]@ == id@,
{
    let ghost t = id_texts(tabs@);
    let mut i: usize = 0;
    while i < tabs.len()
        invariant
            i <= tabs@.len(),
            t == id_texts(tabs@),
            first_pos(t, id@, 0) == first_pos(t, id@, i as int),
        decreases tabs@.len() - i,
    {
        if str_equal(tabs[i].as_str(), id) {
            return Some(i);
        }
        i = i + 1;
    }
    None
}

fn simplify_exec(direction: SplitDirection, ratio: u32, a: DockNode, b: DockNode) -> (n: DockNode)
    ensures
        dock_view(n) == simplified(direction, ratio, dock_view(a), dock_view(b)),
{
    let a_empty = match a {
        DockNode::Empty => true,
        _ => false,
    };
    let b_empty = match b {
        DockNode::Empty => true,
        _ => false,
    };
    if a_empty && b_empty {
        DockNode::Empty
    } else if a_empty {
        b
    } else if b_empty {
        a
    } else {
        DockNode::Split { direction, ratio, children: Box::new((a, b)) }
    }
}

/// Remove the first panel `id` from `n` (depth first).
fn remove_owned(n: DockNode, id: &str) -> (r: (DockNode, bool))
    ensures
        (dock_view(r.0), r.1) == removed(dock_view(n), id@),
    decreases n,
{
    match n {
        DockNode::Empty => (DockNode::Empty, false),
        DockNode::Leaf { panel_id, size_ratio } => {
            if str_equal(panel_id.as_str(), id) {
                (DockNode::Empty, true)
            } else {
                (DockNode::Leaf { panel_id, size_ratio }, false)
            }
        },
        DockNode::Split { direction, ratio, children } => {
            let (c0, c1) = *children;
            let (a, fa) = remove_owned(c0, id);
            if fa {
                (simplify_exec(direction, ratio, a, c1), true)
            } else {
                let (b, fb) = remove_owned(c1, id);
                if fb {
                    (simplify_exec(direction, ratio, a, b), true)
                } else {
                    (DockNode::Split { direction, ratio, children: Box::new((a, b)) }, false)
                }
            }
        },
        DockNode::Tabbed { tabs, active, size_ratio } => {
            match first_tab(&tabs, id) {
                None => (DockNode::Tabbed { tabs, active, size_ratio }, false),
                Some(i) => {
                    let mut t = tabs;
                    let ghost before = t@;
                    t.remove(i);
                    proof {
                        assert(id_texts(t@) =~= id_texts(before).remove(i as int));
                    }
                    if t.len() == 0 {
                        (DockNode::Empty, true)
                    } else {
                        let a = if active >= t.len() {
                            t.len() - 1
                        } else if i < active {
                            active - 1
                        } else {
                            active
                        };
                        (DockNode::Tabbed { tabs: t, active: a, size_ratio }, true)
                    }
                },
            }
        },
    }
}

/// The path to the first panel `id` below `n`.
fn find_owned(n: &DockNode, id: &str) -> (r: Option<Vec<usize>>)
    ensures
        match r {
            Some(p) => found_path(dock_view(*n), id@) == Some(p@),
            None => found_path(dock_view(*n), id@) is None,
        },
    decreases n,
{
    match n {
        DockNode::Empty => None,
        DockNode::Leaf { panel_id, .. } => {
            if str_equal(panel_id.as_str(), id) {
                let v: Vec<usize> = Vec::new();
                proof {
                    assert(v@ =~= Seq::<usize>::empty());
                }
                Some(v)
            } else {
                None
            }
        },
        DockNode::Split { children, .. } => {
            match find_owned(&children.0, id) {
                Some(p) => Some(prepend(0, &p)),
                None => match find_owned(&children.1, id) {
                    Some(p) => Some(prepend(1, &p)),
                    None => None,
                },
            }
        },
        DockNode::Tabbed { tabs, .. } => {
            match first_tab(tabs, id) {
                Some(i) => {
                    let v = vec![i];
                    proof {
                        assert(v@ =~= seq![i]);
                    }
                    Some(v)
                },
                None => None,
            }
        },
    }
}

fn prepend(x: usize, p: &Vec<usize>) -> (r: Vec<usize>)
    ensures
        r@ == seq![x] + p@,
{
    let mut r = vec![x];
    let mut i: usize = 0;
    while i < p.len()
        invariant
            i <= p@.len(),
            r@ == seq![x] + p@.subrange(0, i as int),
        decreases p@.len() - i,
    {
        r.push(p[i]);
        proof {
            assert(r@ =~= seq![x] + p@.subrange(0, i + 1));
        }
        i = i + 1;
    }
    proof {
        assert(p@.subrange(0, p@.len() as int) =~= p@);
    }
    r
}

/// The active panel of the container holding `id` below `n`.
fn active_owned(n: &DockNode, id: &str) -> (r: Option<String>)
    ensures
        match r {
            Some(x) => active_of(dock_view(*n), id@) == Some(x@),
            None => active_of(dock_view(*n), id@) is None,
        },
    decreases n,
{
    match n {
        DockNode::Empty => None,
        DockNode::Leaf { panel_id, .. } => {
            if str_equal(panel_id.as_str(), id) {
                Some(string_from(panel_id.as_str()))
            } else {
                None
            }
        },
        DockNode::Split { children, .. } => {
            match active_owned(&children.0, id) {
                Some(x) => Some(x),
                None => active_owned(&children.1, id),
            }
        },
        DockNode::Tabbed { tabs, active, .. } => {
            match strings_contain(tabs, id) {
                Some(i) => {
                    proof {
                        assert(id_texts(tabs@)[i as int] == id@);
                    }
                    if *active < tabs.len() {
                        Some(string_from(tabs[*active].as_str()))
                    } else {
                        None
                    }
                },
                None => None,
            }
        },
    }
}

/// Replace the node at `path[k..]` below `n` by a split of it and a new
/// leaf `id`.
fn add_owned(n: DockNode, path: &[usize], k: usize, slot: SplitDirection, id: String) -> (r: DockNode)
    requires
        k <= path@.len(),
    ensures
        dock_view(r) == added(dock_view(n), path@.skip(k as int), slot, id@),
    decreases path@.len() - k,
{
    if k == path.len() {
        proof {
            assert(path@.skip(k as int).len() == 0);
        }
        return DockNode::Split {
            direction: slot,
            ratio: RATIO_HALF,
            children: Box::new((n, DockNode::leaf(id))),
        };
    }
    proof {
        assert(path@.skip(k as int)[0] == path@[k as int]);
        assert(path@.skip(k as int).drop_first() =~= path@.skip(k + 1));
    }
    match n {
        DockNode::Split { direction, ratio, children } => {
            let (c0, c1) = *children;
            if path[k] == 0 {
                let a = add_owned(c0, path, k + 1, slot, id);
                DockNode::Split { direction, ratio, children: Box::new((a, c1)) }
            } else {
                let b = add_owned(c1, path, k + 1, slot, id);
                DockNode::Split { direction, ratio, children: Box::new((c0, b)) }
            }
        },
        other => other,
    }
}

/// A copy of the tree below `n`.
fn copy_node(n: &DockNode) -> (r: DockNode)
    ensures
        dock_view(r) == dock_view(*n),
    decreases n,
{
    match n {
        DockNode::Empty => DockNode::Empty,
        DockNode::Leaf { panel_id, size_ratio } => DockNode::Leaf {
            panel_id: string_from(panel_id.as_str()),
            size_ratio: *size_ratio,
        },
        DockNode::Split { direction, ratio, children } => {
            let a = copy_node(&children.0);
            let b = copy_node(&children.1);
            DockNode::Split { direction: *direction, ratio: *ratio, children: Box::new((a, b)) }
        },
        DockNode::Tabbed { tabs, active, size_ratio } => DockNode::Tabbed {
            tabs: copy_strings(tabs),
            active: *active,
            size_ratio: *size_ratio,
        },
    }
}

/// Whether `path[k..]` leads through splits only below `n`.
fn path_resolves(n: &DockNode, path: &[usize], k: usize) -> (b: bool)
    requires
        k <= path@.len(),
    ensures
        b == path_valid(dock_view(*n), path@.skip(k as int)),
    decreases path@.len() - k,
{
    if k == path.len() {
        proof {
            assert(path@.skip(k as int).len() == 0);
        }
        return true;
    }
    proof {
        assert(path@.skip(k as int)[0] == path@[k as int]);
        assert(path@.skip(k as int).drop_first() =~= path@.skip(k + 1));
    }
    match n {
        DockNode::Split { children, .. } => {
            if path[k] == 0 {
                path_resolves(&children.0, path, k + 1)
            } else {
                path_resolves(&children.1, path, k + 1)
            }
        },
        _ => false,
    }
}

/// Clamp every ratio below `n`.
fn normalize_owned(n: DockNode) -> (r: DockNode)
    ensures
        dock_view(r) == normalized(dock_view(n)),
    decreases n,
{
    match n {
        DockNode::Empty => DockNode::Empty,
        DockNode::Leaf { panel_id, size_ratio } => DockNode::Leaf {
            panel_id,
            size_ratio: f32_clamp_bits(size_ratio, SIZE_ZERO, SIZE_ONE),
        },
        DockNode::Split { direction, ratio, children } => {
            let (c0, c1) = *children;
            let a = normalize_owned(c0);
            let b = normalize_owned(c1);
            DockNode::Split {
                direction,
                ratio: f32_clamp_bits(ratio, RATIO_MIN, RATIO_MAX),
                children: Box::new((a, b)),
            }
        },
        DockNode::Tabbed { tabs, active, size_ratio } => DockNode::Tabbed {
            tabs,
            active,
            size_ratio: f32_clamp_bits(size_ratio, SIZE_ZERO, SIZE_ONE),
        },
    }
}

impl DockNode {
    /// Clamp size ratios to 0.0–1.0 and split ratios to 0.01–0.99, in the
    /// whole subtree.
    pub fn normalize_ratios(&mut self)
        ensures
            dock_view(*final(self)) == normalized(dock_view(*old(self))),
    {
        let mut n = DockNode::Empty;
        std::mem::swap(&mut n, self);
        *self = normalize_owned(n);
    }
}

// ── Laws of the tree operations ──────────────────────────────────

proof fn lemma_remove_first_concat(a: Seq<Seq<char>>, b: Seq<Seq<char>>, x: Seq<char>)
    ensures
        remove_first(a + b, x) == if a.contains(x) {
            remove_first(a, x) + b
        } else {
            a + remove_first(b, x)
        },
    decreases a.len(),
{
    if a.len() == 0 {
        assert(a + b =~= b);
    } else {
        lemma_remove_first_concat(a.drop_first(), b, x);
        assert((a + b).drop_first() =~= a.drop_first() + b);
        assert((a + b)[0] == a[0]);
        if a[0] == x {
            assert(a.contains(x));
        } else {
            assert(a.contains(x) == a.drop_first().contains(x)) by {
                if a.contains(x) {
                    let w = choose|w: int| 0 <= w < a.len() && a[w] == x;
                    assert(a.drop_first()[w - 1] == x);
                }
                if a.drop_first().contains(x) {
                    let w = choose|w: int| 0 <= w < a.drop_first().len() && a.drop_first()[w] == x;
                    assert(a[w + 1] == x);
                }
            }
            if a.contains(x) {
                assert(seq![a[0]] + remove_first(a.drop_first(), x) + b =~= seq![a[0]] + (remove_first(a.drop_first(), x) + b));
            } else {
                assert(seq![a[0]] + (a.drop_first() + remove_first(b, x)) =~= a + remove_first(b, x));
            }
        }
    }
}

proof fn lemma_first_pos_found(s: Seq<Seq<char>>, x: Seq<char>, from: int)
    requires
        0 <= from,
        exists|k: int| from <= k < s.len() && s[k] == x,
    ensures
        first_pos(s, x, from) matches Some(i) && from <= i < s.len() && s[i] == x,
    decreases s.len() - from,
{
    if from < s.len() && s[from] != x {
        let k = choose|k: int| from <= k < s.len() && s[k] == x;
        assert(k != from);
        lemma_first_pos_found(s, x, from + 1);
    }
}

/// Closing a tab other than the active one keeps the same panel active:
/// in the tabbed node left behind, the active tab is the panel that was
/// active before, and it is what `active_panel_in_tab` reports for every
/// remaining tab.
pub proof fn closing_other_tab_keeps_active_panel(tabs: Seq<Seq<char>>, active: nat, size_ratio: u32, id: Seq<char>)
    requires
        active < tabs.len(),
        tabs.contains(id),
        id != tabs[active as int],
    ensures
        removed(DockView::Tabbed { tabs, active, size_ratio }, id).1,
        match removed(DockView::Tabbed { tabs, active, size_ratio }, id).0 {
            DockView::Tabbed { tabs: t, active: a, .. } => a < t.len() && t[a as int] == tabs[active as int]
                && t.len() + 1 == tabs.len(),
            _ => false,
        },
        forall|x: Seq<char>| tabs.contains(x) && x != id ==> #[trigger] active_of(
            removed(DockView::Tabbed { tabs, active, size_ratio }, id).0,
            x,
        ) == Some(tabs[active as int]),
{
    let k = choose|k: int| 0 <= k < tabs.len() && tabs[k] == id;
    lemma_first_pos_found(tabs, id, 0);
    let i = first_pos(tabs, id, 0).unwrap();
    assert(i != active);
    let t = tabs.remove(i);
    assert(t.len() == tabs.len() - 1);
    if i < active {
        assert(t[active - 1] == tabs[active as int]);
    } else {
        assert(t[active as int] == tabs[active as int]);
    }
    assert forall|x: Seq<char>| tabs.contains(x) && x != id implies #[trigger] active_of(
        removed(DockView::Tabbed { tabs, active, size_ratio }, id).0,
        x,
    ) == Some(tabs[active as int]) by {
        let j = choose|j: int| 0 <= j < tabs.len() && tabs[j] == x;
        assert(j != i);
        if j < i {
            assert(t[j] == x);
        } else {
            assert(t[j - 1] == x);
        }
        assert(t.contains(x));
    }
}

proof fn lemma_first_pos_remove(s: Seq<Seq<char>>, x: Seq<char>, from: int)
    requires
        0 <= from <= s.len(),
        forall|k: int| 0 <= k < from ==> s[k] != x,
    ensures
        first_pos(s, x, from) is Some <==> s.contains(x),
        first_pos(s, x, from) matches Some(i) ==> 0 <= i < s.len() && s.remove(i) == remove_first(s, x),
        first_pos(s, x, from) is None ==> remove_first(s, x) == s,
    decreases s.len() - from,
{
    if from < s.len() && s[from] != x {
        lemma_first_pos_remove(s, x, from + 1);
    } else if from < s.len() {
        lemma_remove_first_at(s, x, from);
    } else {
        assert(!s.contains(x));
        lemma_remove_first_absent(s, x);
    }
}

proof fn lemma_remove_first_at(s: Seq<Seq<char>>, x: Seq<char>, i: int)
    requires
        0 <= i < s.len(),
        s[i] == x,
        forall|k: int| 0 <= k < i ==> s[k] != x,
    ensures
        s.remove(i) == remove_first(s, x),
    decreases i,
{
    if i == 0 {
        assert(s.remove(0) =~= s.drop_first());
    } else {
        let d = s.drop_first();
        assert forall|k: int| 0 <= k < i - 1 implies d[k] != x by {
            assert(d[k] == s[k + 1]);
        }
        lemma_remove_first_at(d, x, i - 1);
        assert(s.remove(i) =~= seq![s[0]] + d.remove(i - 1));
    }
}

proof fn lemma_remove_first_absent(s: Seq<Seq<char>>, x: Seq<char>)
    requires
        !s.contains(x),
    ensures
        remove_first(s, x) == s,
    decreases s.len(),
{
    if s.len() > 0 {
        assert(s[0] != x);
        assert(!s.drop_first().contains(x)) by {
            if s.drop_first().contains(x) {
                let w = choose|w: int| 0 <= w < s.drop_first().len() && s.drop_first()[w] == x;
                assert(s[w + 1] == x);
            }
        }
        lemma_remove_first_absent(s.drop_first(), x);
        assert(seq![s[0]] + s.drop_first() =~= s);
    }
}

proof fn lemma_simplified_panels(d: SplitDirection, r: u32, a: DockView, b: DockView)
    ensures
        view_panels(simplified(d, r, a, b)) == view_panels(a) + view_panels(b),
{
    if a is Empty {
        assert(view_panels(a) + view_panels(b) =~= view_panels(b));
    } else if b is Empty {
        assert(view_panels(a) + view_panels(b) =~= view_panels(a));
    }
}

/// Removing a panel takes out exactly its first occurrence (depth first)
/// and reports whether there was one; every other panel stays, in order.
pub proof fn remove_takes_out_first_occurrence(v: DockView, id: Seq<char>)
    ensures
        removed(v, id).1 == view_panels(v).contains(id),
        view_panels(removed(v, id).0) == remove_first(view_panels(v), id),
    decreases v,
{
    match v {
        DockView::Empty => {
            assert(!view_panels(v).contains(id));
        },
        DockView::Leaf { id: lid, .. } => {
            assert(view_panels(v) == seq![lid]);
            if lid == id {
                assert(view_panels(v)[0] == id);
                assert(seq![lid].drop_first() =~= Seq::<Seq<char>>::empty());
            } else {
                assert(!seq![lid].contains(id)) by {
                    if seq![lid].contains(id) {
                        let w = choose|w: int| 0 <= w < 1 && seq![lid][w] == id;
                    }
                }
                lemma_remove_first_absent(seq![lid], id);
            }
        },
        DockView::Split { direction, ratio, first, second } => {
            remove_takes_out_first_occurrence(*first, id);
            remove_takes_out_first_occurrence(*second, id);
            let pa = view_panels(*first);
            let pb = view_panels(*second);
            lemma_remove_first_concat(pa, pb, id);
            let (a, fa) = removed(*first, id);
            let (b, fb) = removed(*second, id);
            lemma_simplified_panels(direction, ratio, a, *second);
            lemma_simplified_panels(direction, ratio, *first, b);
            assert((pa + pb).contains(id) == (pa.contains(id) || pb.contains(id))) by {
                if (pa + pb).contains(id) {
                    let w = choose|w: int| 0 <= w < (pa + pb).len() && (pa + pb)[w] == id;
                    if w < pa.len() {
                        assert(pa[w] == id);
                    } else {
                        assert(pb[w - pa.len()] == id);
                    }
                }
                if pa.contains(id) {
                    let w = choose|w: int| 0 <= w < pa.len() && pa[w] == id;
                    assert((pa + pb)[w] == id);
                }
                if pb.contains(id) {
                    let w = choose|w: int| 0 <= w < pb.len() && pb[w] == id;
                    assert((pa + pb)[pa.len() + w] == id);
                }
            }
            if !fa && !fb {
                lemma_remove_first_absent(pa + pb, id);
            }
        },
        DockView::Tabbed { tabs, active, size_ratio } => {
            lemma_first_pos_remove(tabs, id, 0);
            if let Some(i) = first_pos(tabs, id, 0) {
                let t = tabs.remove(i);
                if t.len() == 0 {
                    assert(view_panels(tab_removed(tabs, active, i, size_ratio)) =~= t);
                }
            }
        },
    }
}

/// A panel's path is found exactly when the tree holds the panel.
pub proof fn found_exactly_when_present(v: DockView, id: Seq<char>)
    ensures
        found_path(v, id) is Some <==> view_panels(v).contains(id),
    decreases v,
{
    match v {
        DockView::Empty => {},
        DockView::Leaf { id: lid, .. } => {
            if lid == id {
                assert(seq![lid][0] == id);
            } else {
                assert(!seq![lid].contains(id)) by {
                    if seq![lid].contains(id) {
                        let w = choose|w: int| 0 <= w < 1 && seq![lid][w] == id;
                    }
                }
            }
        },
        DockView::Split { first, second, .. } => {
            found_exactly_when_present(*first, id);
            found_exactly_when_present(*second, id);
            let pa = view_panels(*first);
            let pb = view_panels(*second);
            if (pa + pb).contains(id) {
                let w = choose|w: int| 0 <= w < (pa + pb).len() && (pa + pb)[w] == id;
                if w < pa.len() {
                    assert(pa[w] == id);
                } else {
                    assert(pb[w - pa.len()] == id);
                }
            }
            if pa.contains(id) {
                let w = choose|w: int| 0 <= w < pa.len() && pa[w] == id;
                assert((pa + pb)[w] == id);
            }
            if pb.contains(id) {
                let w = choose|w: int| 0 <= w < pb.len() && pb[w] == id;
                assert((pa + pb)[pa.len() + w] == id);
            }
        },
        DockView::Tabbed { tabs, .. } => {
            lemma_first_pos_remove(tabs, id, 0);
        },
    }
}

/// Adding a panel along a path through splits puts it in the tree, one
/// panel more; along any other path the tree is unchanged.
pub proof fn add_inserts_one_panel(v: DockView, path: Seq<usize>, slot: SplitDirection, id: Seq<char>)
    ensures
        path_valid(v, path) ==> view_panels(added(v, path, slot, id)).len() == view_panels(v).len() + 1,
        path_valid(v, path) ==> view_panels(added(v, path, slot, id)).contains(id),
        !path_valid(v, path) ==> added(v, path, slot, id) == v,
    decreases path.len(),
{
    if path.len() == 0 {
        let p = view_panels(v) + seq![id];
        let leaf = DockView::Leaf { id, size_ratio: SIZE_ONE };
        assert(view_panels(leaf) == seq![id]);
        assert(added(v, path, slot, id) == DockView::Split {
            direction: slot,
            ratio: RATIO_HALF,
            first: Box::new(v),
            second: Box::new(leaf),
        });
        assert(view_panels(added(v, path, slot, id)) == p);
        assert(p[view_panels(v).len() as int] == id);
    } else {
        match v {
            DockView::Split { direction, ratio, first, second } => {
                if path[0] == 0 {
                    add_inserts_one_panel(*first, path.drop_first(), slot, id);
                    if path_valid(v, path) {
                        let pa = view_panels(added(*first, path.drop_first(), slot, id));
                        let w = choose|w: int| 0 <= w < pa.len() && pa[w] == id;
                        assert((pa + view_panels(*second))[w] == id);
                    }
                } else {
                    add_inserts_one_panel(*second, path.drop_first(), slot, id);
                    if path_valid(v, path) {
                        let pa = view_panels(*first);
                        let pb = view_panels(added(*second, path.drop_first(), slot, id));
                        let w = choose|w: int| 0 <= w < pb.len() && pb[w] == id;
                        assert((pa + pb)[pa.len() + w] == id);
                    }
                }
            },
            _ => {},
        }
    }
}

/// Normalizing ratios changes no panel.
pub proof fn normalize_keeps_panels(v: DockView)
    ensures
        view_panels(normalized(v)) == view_panels(v),
    decreases v,
{
    match v {
        DockView::Split { first, second, .. } => {
            normalize_keeps_panels(*first);
            normalize_keeps_panels(*second);
        },
        _ => {},
    }
}

// ── DockLayout ───────────────────────────────────────────────────

/// `0.2f32`.
pub const RATIO_FIFTH: u32 = 0x3E4C_CCCDu32;

/// `0.75f32`.
pub const RATIO_THREE_QUARTERS: u32 = 0x3F40_0000u32;

/// The standard editor arrangement: hierarchy | viewport | inspector on
/// top, console and asset browser tabbed below.
pub open spec fn default_view() -> DockView {
    DockView::Split {
        direction: SplitDirection::Vertical,
        ratio: RATIO_THREE_QUARTERS,
        first: Box::new(DockView::Split {
            direction: SplitDirection::Horizontal,
            ratio: RATIO_FIFTH,
            first: Box::new(DockView::Leaf { id: "hierarchy"@, size_ratio: SIZE_ONE }),
            second: Box::new(DockView::Split {
                direction: SplitDirection::Horizontal,
                ratio: RATIO_THREE_QUARTERS,
                first: Box::new(DockView::Leaf { id: "viewport"@, size_ratio: SIZE_ONE }),
                second: Box::new(DockView::Leaf { id: "inspector"@, size_ratio: SIZE_ONE }),
            }),
        }),
        second: Box::new(DockView::Tabbed {
            tabs: seq!["console"@, "asset_browser"@],
            active: 0,
            size_ratio: SIZE_ONE,
        }),
    }
}

/// The tree structure describing how panels are arranged.
#[derive(Debug)]
pub struct DockLayout {
    /// Root of the dock tree.
    pub root: DockNode,
}

impl DockLayout {
    /// The layout as plain values.
    pub open spec fn view(&self) -> DockView {
        dock_view(self.root)
    }

    /// Create a new layout with the default editor arrangement.
    pub fn new() -> (l: Self)
        ensures
            l.view() == default_view(),
    {
        Self::default_layout()
    }

    /// The standard editor layout.
    pub fn default_layout() -> (l: Self)
        ensures
            l.view() == default_view(),
    {
        let h = DockNode::leaf(string_from("hierarchy"));
        let vp = DockNode::leaf(string_from("viewport"));
        let ins = DockNode::leaf(string_from("inspector"));
        let ghost gh = dock_view(h);
        let ghost gvp = dock_view(vp);
        let ghost gins = dock_view(ins);
        proof {
            assert(f32_clamp(RATIO_FIFTH, RATIO_MIN, RATIO_MAX) == RATIO_FIFTH);
            assert(f32_clamp(RATIO_THREE_QUARTERS, RATIO_MIN, RATIO_MAX) == RATIO_THREE_QUARTERS);
        }
        let right = DockNode::h_split(RATIO_THREE_QUARTERS, vp, ins);
        let ghost gright = dock_view(right);
        assert(gright == DockView::Split {
            direction: SplitDirection::Horizontal,
            ratio: RATIO_THREE_QUARTERS,
            first: Box::new(gvp),
            second: Box::new(gins),
        });
        let top = DockNode::h_split(RATIO_FIFTH, h, right);
        let ghost gtop = dock_view(top);
        assert(gtop == DockView::Split {
            direction: SplitDirection::Horizontal,
            ratio: RATIO_FIFTH,
            first: Box::new(gh),
            second: Box::new(gright),
        });
        let console = string_from("console");
        let browser = string_from("asset_browser");
        let mut tabs: Vec<String> = Vec::new();
        tabs.push(console);
        tabs.push(browser);
        proof {
            assert(id_texts(tabs@) =~= seq!["console"@, "asset_browser"@]);
        }
        let bottom = DockNode::tabbed(tabs);
        let ghost gbottom = dock_view(bottom);
        assert(gbottom == DockView::Tabbed {
            tabs: seq!["console"@, "asset_browser"@],
            active: 0,
            size_ratio: SIZE_ONE,
        });
        let root = DockNode::v_split(RATIO_THREE_QUARTERS, top, bottom);
        let l = Self { root };
        assert(l.view() == DockView::Split {
            direction: SplitDirection::Vertical,
            ratio: RATIO_THREE_QUARTERS,
            first: Box::new(gtop),
            second: Box::new(gbottom),
        });
        l
    }

    /// The path to a panel: `0`/`1` through splits, then the tab index for
    /// a tabbed node; `None` when the panel is not in the layout.
    pub fn find_panel(&self, panel_id: &str) -> (r: Option<DockNodePath>)
        ensures
            match r {
                Some(p) => found_path(self.view(), panel_id@) == Some(p@),
                None => found_path(self.view(), panel_id@) is None,
            },
    {
        find_owned(&self.root, panel_id)
    }

    /// Remove the first occurrence of a panel (depth first); splits left
    /// with one side collapse into it. Returns whether the panel was found.
    pub fn remove_panel(&mut self, panel_id: &str) -> (found: bool)
        ensures
            (final(self).view(), found) == removed(old(self).view(), panel_id@),
    {
        let mut root = DockNode::Empty;
        std::mem::swap(&mut root, &mut self.root);
        let (r, found) = remove_owned(root, panel_id);
        self.root = r;
        found
    }

    /// Split the node at `parent_path` (through splits) into that node and
    /// a new leaf `panel_id`, placed second, in direction `slot`.
    pub fn add_panel(&mut self, parent_path: &[usize], slot: SplitDirection, panel_id: String)
        ensures
            final(self).view() == added(old(self).view(), parent_path@, slot, panel_id@),
    {
        let mut root = DockNode::Empty;
        std::mem::swap(&mut root, &mut self.root);
        let r = add_owned(root, parent_path, 0, slot, panel_id);
        proof {
            assert(parent_path@.skip(0) =~= parent_path@);
        }
        self.root = r;
    }

    /// Move a panel: it is removed from its current node and inserted as a
    /// new split at `to_path`, in direction `target_slot`. Nothing happens
    /// when the panel is not in the layout, or when `to_path` no longer
    /// leads through splits once the panel is removed, so a move never
    /// loses the panel.
    pub fn move_panel(&mut self, from: &str, to_path: &[usize], target_slot: SplitDirection)
        ensures
            moved(old(self).view(), from@, to_path@, target_slot) is Some ==> final(self).view()
                == moved(old(self).view(), from@, to_path@, target_slot).unwrap(),
            moved(old(self).view(), from@, to_path@, target_slot) is None ==> final(self).view()
                == old(self).view(),
            view_panels(old(self).view()).contains(from@) ==> view_panels(final(self).view()).contains(from@),
    {
        let backup = copy_node(&self.root);
        if !self.remove_panel(from) {
            proof {
                remove_takes_out_first_occurrence(old(self).view(), from@);
            }
            return;
        }
        if !path_resolves(&self.root, to_path, 0) {
            proof {
                assert(to_path@.skip(0) =~= to_path@);
            }
            self.root = backup;
            return;
        }
        proof {
            assert(to_path@.skip(0) =~= to_path@);
        }
        let ghost rem = self.view();
        self.add_panel(to_path, target_slot, string_from(from));
        proof {
            add_inserts_one_panel(rem, to_path@, target_slot, from@);
        }
    }

    /// The active panel of the container holding `tab_id`: the active tab
    /// of a tabbed node, or the panel itself in a leaf.
    pub fn active_panel_in_tab(&self, tab_id: &str) -> (r: Option<String>)
        ensures
            match r {
                Some(x) => active_of(self.view(), tab_id@) == Some(x@),
                None => active_of(self.view(), tab_id@) is None,
            },
    {
        active_owned(&self.root, tab_id)
    }

    /// All panel ids in the layout, depth first.
    pub fn all_panel_ids(&self) -> (v: Vec<String>)
        ensures
            id_texts(v@) == view_panels(self.view()),
    {
        self.root.panel_ids()
    }

    /// Whether the layout holds the panel.
    pub fn has_panel(&self, panel_id: &str) -> (b: bool)
        ensures
            b == view_panels(self.view()).contains(panel_id@),
    {
        self.root.contains_panel(panel_id)
    }
}

impl Default for DockLayout {
    fn default() -> (l: Self)
        ensures
            l.view() == default_view(),
    {
        Self::default_layout()
    }
}

// ── DockState ────────────────────────────────────────────────────

/// Whether the visibility table shows `p`: panels without an entry are
/// shown.
pub open spec fn shown(v: Seq<(String, bool)>, p: Seq<char>) -> bool {
    match find_keyed(v, p) {
        Some(b) => b,
        None => true,
    }
}

/// Runtime state of the docking system: the layout, the panels' last
/// pixel sizes (as `f32` bit pairs), the drag in progress, and which panels
/// are shown.
pub struct DockState {
    /// The current dock layout tree.
    pub layout: DockLayout,
    /// Cached pixel sizes for each panel.
    pub panel_sizes: Vec<(String, (u32, u32))>,
    /// Active drag operation, if any.
    pub drag_state: Option<DragState>,
    /// Which panels are currently visible.
    panel_visibility: Vec<(String, bool)>,
}

impl DockState {
    /// Whether `panel` is shown: panels nobody hid are.
    pub closed spec fn visible(&self, panel: Seq<char>) -> bool {
        shown(self.panel_visibility@, panel)
    }

    /// Internal consistency.
    pub closed spec fn wf(&self) -> bool {
        keys_unique(self.panel_visibility@)
    }

    /// The layout, as plain values.
    pub closed spec fn layout_view(&self) -> DockView {
        self.layout.view()
    }

    /// Number of cached panel sizes.
    pub closed spec fn size_count(&self) -> nat {
        self.panel_sizes@.len()
    }

    /// The drag in progress.
    pub closed spec fn drag(&self) -> Option<DragState> {
        self.drag_state
    }

    /// An entry `true` for each panel of `layout`, and no other entry.
    fn all_visible(layout: &DockLayout) -> (v: Vec<(String, bool)>)
        ensures
            keys_unique(v@),
            forall|p: Seq<char>| #[trigger] shown(v@, p),
            forall|p: Seq<char>|
                #[trigger] find_keyed(v@, p) == (if view_panels(layout.view()).contains(p) {
                    Some(true)
                } else {
                    None
                }),
    {
        let ids = layout.all_panel_ids();
        let ghost texts = id_texts(ids@);
        let mut v: Vec<(String, bool)> = Vec::new();
        let mut i: usize = 0;
        while i < ids.len()
            invariant
                i <= ids@.len(),
                texts == id_texts(ids@),
                keys_unique(v@),
                forall|p: Seq<char>| #[trigger] shown(v@, p),
                forall|p: Seq<char>|
                    #[trigger] find_keyed(v@, p) == (if texts.subrange(0, i as int).contains(p) {
                        Some(true)
                    } else {
                        None
                    }),
            decreases ids@.len() - i,
        {
            let ghost vb = v@;
            keyed_insert(&mut v, ids[i].as_str(), true);
            proof {
                assert(texts[i as int] == ids@[i as int]@);
                assert forall|p: Seq<char>| #[trigger] shown(v@, p) by {
                    if p != ids@[i as int]@ {
                        assert(shown(vb, p));
                    }
                }
                assert forall|p: Seq<char>|
                    #[trigger] find_keyed(v@, p) == (if texts.subrange(0, i + 1).contains(p) {
                        Some(true)
                    } else {
                        None
                    }) by {
                    let pre = texts.subrange(0, i as int);
                    let post = texts.subrange(0, i + 1);
                    assert(post =~= pre.push(texts[i as int]));
                    if p != texts[i as int] {
                        assert(find_keyed(v@, p) == find_keyed(vb, p));
                        if pre.contains(p) {
                            let j = choose|j: int| 0 <= j < pre.len() && pre[j] == p;
                            assert(post[j] == p);
                        }
                        if post.contains(p) {
                            let j = choose|j: int| 0 <= j < post.len() && post[j] == p;
                            assert(j != i);
                            assert(pre[j] == p);
                        }
                    } else {
                        assert(post[i as int] == p);
                    }
                }
            }
            i = i + 1;
        }
        proof {
            assert(texts.subrange(0, ids@.len() as int) =~= texts);
        }
        v
    }

    /// A dock state with the default layout, every panel visible.
    pub fn new() -> (s: Self)
        ensures
            s.wf(),
            s.layout_view() == default_view(),
            s.size_count() == 0,
            s.drag() is None,
            forall|p: Seq<char>| s.visible(p),
    {
        let layout = DockLayout::default_layout();
        let vis = Self::all_visible(&layout);
        Self { layout, panel_sizes: Vec::new(), drag_state: None, panel_visibility: vis }
    }

    /// A dock state with a custom layout, every panel visible.
    pub fn with_layout(layout: DockLayout) -> (s: Self)
        ensures
            s.wf(),
            s.layout_view() == layout.view(),
            s.size_count() == 0,
            s.drag() is None,
            forall|p: Seq<char>| s.visible(p),
    {
        let vis = Self::all_visible(&layout);
        Self { layout, panel_sizes: Vec::new(), drag_state: None, panel_visibility: vis }
    }

    /// Show or hide a panel.
    pub fn show_panel(&mut self, panel_id: &str, visible: bool)
        requires
            old(self).wf(),
        ensures
            final(self).wf(),
            final(self).visible(panel_id@) == visible,
            forall|p: Seq<char>| p != panel_id@ ==> final(self).visible(p) == old(self).visible(p),
            final(self).layout_view() == old(self).layout_view(),
    {
        keyed_insert(&mut self.panel_visibility, panel_id, visible);
    }

    /// Whether a panel is currently visible.
    pub fn is_panel_visible(&self, panel_id: &str) -> (b: bool)
        requires
            self.wf(),
        ensures
            b == self.visible(panel_id@),
    {
        match key_position(&self.panel_visibility, panel_id) {
            Some(k) => {
                proof {
                    lemma_find_keyed_at(self.panel_visibility@, k as int);
                }
                self.panel_visibility[k].1
            },
            None => {
                proof {
                    lemma_find_keyed_none(self.panel_visibility@, panel_id@);
                }
                true
            },
        }
    }

    /// Reset to the default layout: sizes forgotten, no drag, every panel
    /// visible.
    pub fn reset_to_default(&mut self)
        ensures
            final(self).wf(),
            final(self).layout_view() == default_view(),
            final(self).size_count() == 0,
            final(self).drag() is None,
            forall|p: Seq<char>| final(self).visible(p),
    {
        self.layout = DockLayout::default_layout();
        self.panel_sizes = Vec::new();
        self.drag_state = None;
        self.panel_visibility = Self::all_visible(&self.layout);
    }

    /// Begin dragging a panel.
    pub fn begin_drag(&mut self, panel_id: String, source_path: DockNodePath)
        ensures
            final(self).drag() == Some(DragState { panel_id, source_path, preview_zone: None }),
            final(self).layout_view() == old(self).layout_view(),
    {
        self.drag_state = Some(DragState::new(panel_id, source_path));
    }

    /// End the current drag, returning it if one was in progress.
    pub fn end_drag(&mut self) -> (r: Option<DragState>)
        ensures
            r == old(self).drag(),
            final(self).drag() is None,
            final(self).layout_view() == old(self).layout_view(),
    {
        let mut d = None;
        std::mem::swap(&mut d, &mut self.drag_state);
        d
    }

    /// Whether a drag is in progress.
    pub fn is_dragging(&self) -> (b: bool)
        ensures
            b == self.drag() is Some,
    {
        self.drag_state.is_some()
    }
}

impl Default for DockState {
    fn default() -> (s: Self)
        ensures
            s.wf(),
            s.layout_view() == default_view(),
            s.drag() is None,
            forall|p: Seq<char>| s.visible(p),
    {
        Self::new()
    }
}

} // verus!
