//! Asset browser panel: the listing of the project's asset directory, its
//! ordering and search filter, asset classification by file extension, and
//! human-readable file sizes.
//!
//! Reading the directory happens in the application, which hands the raw
//! entries to [`AssetBrowserPanel::apply_listing`].

use vstd::prelude::*;
use vstd::arithmetic::power2::{lemma2_to64, lemma_pow2_pos, lemma_pow2_strictly_increases, lemma_pow2_unfold, pow2};
use vstd::arithmetic::div_mod::{lemma_div_denominator, lemma_div_is_ordered_by_denominator};

use crate::float_text::round_half_even;
use crate::text::{
    ascii_lower_seq, chars_le, chars_of, contains_chars, contains_seq, decimal, digit_char,
    lemma_seq_le_total, lemma_seq_le_trans, push_char, push_decimal, seq_le, string_from_chars,
    to_ascii_lower, str_equal,
};

verus! {

// ──────────────────────────────────────────────
// Supporting types
// ──────────────────────────────────────────────

/// Visual layout mode for the file listing.
#[derive(Debug, Clone, Copy, PartialEq, Eq, Structural)]
pub enum AssetViewMode {
    /// One entry per row with name, type, and size columns.
    List,
    /// Colored thumbnail grid with type-based colours.
    Grid,
}

/// Asset classification derived from file extension.
#[derive(Debug, Clone, Copy, PartialEq, Eq, Structural)]
pub enum AssetType {
    /// Scene / level files (`.scene`, `.json`).
    Scene,
    /// Image assets (`.png`, `.jpg`, `.jpeg`, `.bmp`).
    Image,
    /// 3-D mesh files (`.obj`, `.gltf`, `.glb`).
    Mesh,
    /// Audio clips (`.wav`, `.ogg`, `.mp3`).
    Audio,
    /// Rhai scripts (`.rhai`).
    Script,
    /// Font files (`.ttf`, `.otf`).
    Font,
    /// Any file that doesn't match a known category.
    Unknown,
}

/// The short display label of an asset type.
pub open spec fn asset_type_label(t: AssetType) -> Seq<char> {
    match t {
        AssetType::Scene => "Scene"@,
        AssetType::Image => "Image"@,
        AssetType::Mesh => "Mesh"@,
        AssetType::Audio => "Audio"@,
        AssetType::Script => "Script"@,
        AssetType::Font => "Font"@,
        AssetType::Unknown => "File"@,
    }
}

/// The placeholder colour of an asset type.
pub open spec fn asset_type_color(t: AssetType) -> Seq<char> {
    match t {
        AssetType::Scene => "#e8a948"@,
        AssetType::Image => "#5b9bd5"@,
        AssetType::Mesh => "#70ad47"@,
        AssetType::Audio => "#ed7d31"@,
        AssetType::Script => "#a855f7"@,
        AssetType::Font => "#ec4899"@,
        AssetType::Unknown => "#9ca3af"@,
    }
}

impl AssetType {
    /// Returns a short label for display in the browser.
    pub fn label(&self) -> (s: &'static str)
        ensures
            s@ == asset_type_label(*self),
    {
        match self {
            AssetType::Scene => "Scene",
            AssetType::Image => "Image",
            AssetType::Mesh => "Mesh",
            AssetType::Audio => "Audio",
            AssetType::Script => "Script",
            AssetType::Font => "Font",
            AssetType::Unknown => "File",
        }
    }

    /// Returns a hex colour used for grid-view thumbnail placeholders.
    pub fn color_hex(&self) -> (s: &'static str)
        ensures
            s@ == asset_type_color(*self),
    {
        match self {
            AssetType::Scene => "#e8a948",
            AssetType::Image => "#5b9bd5",
            AssetType::Mesh => "#70ad47",
            AssetType::Audio => "#ed7d31",
            AssetType::Script => "#a855f7",
            AssetType::Font => "#ec4899",
            AssetType::Unknown => "#9ca3af",
        }
    }
}

/// No two asset types share a label.
pub proof fn asset_type_labels_distinct(a: AssetType, b: AssetType)
    requires
        a != b,
    ensures
        asset_type_label(a) != asset_type_label(b),
{
    reveal_strlit("Scene");
    reveal_strlit("Image");
    reveal_strlit("Mesh");
    reveal_strlit("Audio");
    reveal_strlit("Script");
    reveal_strlit("Font");
    reveal_strlit("File");
    let la = asset_type_label(a);
    let lb = asset_type_label(b);
    if la.len() == lb.len() {
        assert(la[0] != lb[0] || la[1] != lb[1]);
    }
}

/// A single entry inside the browser listing.
#[derive(Debug, Clone)]
pub struct AssetEntry {
    /// File or directory name.
    pub name: String,
    /// Full filesystem path.
    pub path: String,
    /// Whether this entry is a directory.
    pub is_dir: bool,
    /// File size in bytes (0 for directories).
    pub size_bytes: u64,
    /// Detected asset type (directories are always [`AssetType::Unknown`]).
    pub asset_type: AssetType,
}

// ──────────────────────────────────────────────
// Asset type detection
// ──────────────────────────────────────────────

/// The extension `Path::extension` finds in `path`: the part of the final
/// component after its last `.`, if any. Which characters separate
/// components follows the target platform (`/` on Unix, also `\` on
/// Windows), so within one build it depends on the text alone.
pub uninterp spec fn extension_of(path: Seq<char>) -> Option<Seq<char>>;

/// The extension of a path (`Path::extension`).
#[verifier::external_body]
fn path_extension(path: &str) -> (r: Option<String>)
    ensures
        r matches Some(e) ==> extension_of(path@) == Some(e@),
        r is None ==> extension_of(path@) is None,
{
    std::path::Path::new(path).extension().and_then(|e| e.to_str()).map(|e| e.to_string())
}

/// The asset type of an already lower-cased extension.
pub open spec fn asset_type_of_lower(e: Seq<char>) -> AssetType {
    if e == "scene"@ || e == "json"@ {
        AssetType::Scene
    } else if e == "png"@ || e == "jpg"@ || e == "jpeg"@ || e == "bmp"@ {
        AssetType::Image
    } else if e == "obj"@ || e == "gltf"@ || e == "glb"@ {
        AssetType::Mesh
    } else if e == "wav"@ || e == "ogg"@ || e == "mp3"@ {
        AssetType::Audio
    } else if e == "rhai"@ {
        AssetType::Script
    } else if e == "ttf"@ || e == "otf"@ {
        AssetType::Font
    } else {
        AssetType::Unknown
    }
}

/// The asset type of a file with extension `ext` (ASCII case ignored);
/// `Unknown` without an extension.
pub open spec fn asset_type_for(ext: Option<Seq<char>>) -> AssetType {
    match ext {
        Some(e) => asset_type_of_lower(ascii_lower_seq(e)),
        None => AssetType::Unknown,
    }
}

/// Classify a file by its extension, ignoring ASCII case.
pub fn asset_type_for_extension(ext: Option<&str>) -> (t: AssetType)
    ensures
        t == asset_type_for(match ext {
            Some(e) => Some(e@),
            None => None,
        }),
{
    let e = match ext {
        Some(e) => e,
        None => return AssetType::Unknown,
    };
    let lower = to_ascii_lower(&chars_of(e));
    let l = string_from_chars(&lower);
    let s = l.as_str();
    if str_equal(s, "scene") || str_equal(s, "json") {
        AssetType::Scene
    } else if str_equal(s, "png") || str_equal(s, "jpg") || str_equal(s, "jpeg") || str_equal(s, "bmp") {
        AssetType::Image
    } else if str_equal(s, "obj") || str_equal(s, "gltf") || str_equal(s, "glb") {
        AssetType::Mesh
    } else if str_equal(s, "wav") || str_equal(s, "ogg") || str_equal(s, "mp3") {
        AssetType::Audio
    } else if str_equal(s, "rhai") {
        AssetType::Script
    } else if str_equal(s, "ttf") || str_equal(s, "otf") {
        AssetType::Font
    } else {
        AssetType::Unknown
    }
}

/// Determine [`AssetType`] from a file's extension.
///
/// Returns [`AssetType::Unknown`] when the extension is missing or
/// unrecognised.
pub fn detect_asset_type(path: &str) -> (t: AssetType)
    ensures
        t == asset_type_for(extension_of(path@)),
{
    match path_extension(path) {
        Some(e) => asset_type_for_extension(Some(e.as_str())),
        None => AssetType::Unknown,
    }
}

// ──────────────────────────────────────────────
// Listing order and filtering
// ──────────────────────────────────────────────

/// `a` is listed before (or level with) `b`: directories first, then by
/// ASCII-lower-cased name.
pub open spec fn listed_before(a: AssetEntry, b: AssetEntry) -> bool {
    (a.is_dir && !b.is_dir) || (a.is_dir == b.is_dir && seq_le(
        ascii_lower_seq(a.name@),
        ascii_lower_seq(b.name@),
    ))
}

/// Every entry is listed before every later one.
pub open spec fn listing_sorted(s: Seq<AssetEntry>) -> bool {
    forall|i: int, j: int| 0 <= i < j < s.len() ==> listed_before(s[i], s[j])
}

/// Whether an entry is shown: hidden (dot-prefixed) names only when
/// `show_hidden`.
pub open spec fn entry_visible(e: AssetEntry, show_hidden: bool) -> bool {
    show_hidden || !(e.name@.len() > 0 && e.name@[0] == '.')
}

proof fn lemma_listed_total(a: AssetEntry, b: AssetEntry)
    ensures
        listed_before(a, b) || listed_before(b, a),
{
    lemma_seq_le_total(ascii_lower_seq(a.name@), ascii_lower_seq(b.name@));
}

proof fn lemma_listed_trans(a: AssetEntry, b: AssetEntry, c: AssetEntry)
    requires
        listed_before(a, b),
        listed_before(b, c),
    ensures
        listed_before(a, c),
{
    if a.is_dir == b.is_dir && b.is_dir == c.is_dir {
        lemma_seq_le_trans(ascii_lower_seq(a.name@), ascii_lower_seq(b.name@), ascii_lower_seq(c.name@));
    }
}

fn listed_before_exec(a: &AssetEntry, b: &AssetEntry) -> (r: bool)
    ensures
        r == listed_before(*a, *b),
{
    if a.is_dir != b.is_dir {
        return a.is_dir;
    }
    let la = to_ascii_lower(&chars_of(a.name.as_str()));
    let lb = to_ascii_lower(&chars_of(b.name.as_str()));
    chars_le(&la, &lb)
}

/// Sort entries: directories first, then alphabetically by name, ignoring
/// ASCII case.
pub fn sort_entries(entries: Vec<AssetEntry>) -> (r: Vec<AssetEntry>)
    ensures
        listing_sorted(r@),
        r@.to_multiset() == entries@.to_multiset(),
{
    let ghost orig = entries@;
    let ghost n = orig.len();
    let mut src = entries;
    let n0 = src.len();
    let mut r: Vec<AssetEntry> = Vec::new();
    let mut k: usize = 0;
    proof {
        assert(orig.subrange(0, 0) =~= Seq::<AssetEntry>::empty());
        assert(orig.subrange(0, n as int) =~= orig);
    }
    while src.len() > 0
        invariant
            n == orig.len(),
            n0 == n,
            k <= n,
            src@ == orig.subrange(k as int, n as int),
            listing_sorted(r@),
            r@.to_multiset() == orig.subrange(0, k as int).to_multiset(),
        decreases src@.len(),
    {
        let x = src.remove(0);
        proof {
            assert(x == orig[k as int]);
            assert(orig.subrange(0, k + 1) =~= orig.subrange(0, k as int).push(x));
            assert(src@ =~= orig.subrange(k + 1, n as int));
        }
        let mut p: usize = 0;
        while p < r.len() && listed_before_exec(&r[p], &x)
            invariant
                p <= r@.len(),
                forall|i: int| 0 <= i < p ==> listed_before(r@[i], x),
            decreases r@.len() - p,
        {
            p = p + 1;
        }
        let ghost before = r@;
        let ghost xv = x;
        proof {
            if p < before.len() {
                assert(!listed_before(before[p as int], xv));
                lemma_listed_total(before[p as int], xv);
            }
        }
        r.insert(p, x);
        proof {
            assert(r@ == before.insert(p as int, xv));
            vstd::seq_lib::to_multiset_insert(before, p as int, xv);
            vstd::seq_lib::to_multiset_build(orig.subrange(0, k as int), xv);
            assert forall|i: int, j: int| 0 <= i < j < r@.len() implies listed_before(r@[i], r@[j]) by {
                if j < p {
                    assert(r@[i] == before[i] && r@[j] == before[j]);
                } else if j == p {
                    assert(r@[i] == before[i]);
                    assert(r@[j] == xv);
                } else if i == p {
                    assert(r@[i] == xv);
                    assert(r@[j] == before[j - 1]);
                    if j - 1 > p {
                        lemma_listed_trans(xv, before[p as int], before[j - 1]);
                    }
                } else if i < p {
                    assert(r@[i] == before[i] && r@[j] == before[j - 1]);
                } else {
                    assert(r@[i] == before[i - 1] && r@[j] == before[j - 1]);
                }
            }
        }
        k = k + 1;
    }
    r
}

/// The entries of `raw` that are shown, in their order.
pub open spec fn visible_entries(raw: Seq<AssetEntry>, show_hidden: bool) -> Seq<AssetEntry> {
    raw.filter(|e: AssetEntry| entry_visible(e, show_hidden))
}

/// Whether an entry's name matches the search `query`: every entry for an
/// empty query, otherwise those whose ASCII-lower-cased name contains the
/// ASCII-lower-cased query.
pub open spec fn name_matches(e: AssetEntry, query: Seq<char>) -> bool {
    query.len() == 0 || contains_seq(ascii_lower_seq(e.name@), ascii_lower_seq(query))
}

// ──────────────────────────────────────────────
// AssetBrowserPanel
// ──────────────────────────────────────────────

/// File-system asset browser for the editor.
pub struct AssetBrowserPanel {
    /// Directory currently being displayed. `None` means "not initialised".
    pub current_dir: Option<String>,
    /// Cached entries for the current directory.
    pub entries: Vec<AssetEntry>,
    /// Index into `entries` for the selected item, if any.
    pub selected_entry: Option<usize>,
    /// Whether hidden (dot-prefixed) files are visible.
    pub show_hidden: bool,
    /// Current visual layout.
    pub view_mode: AssetViewMode,
    /// Text typed into the search / filter input.
    pub search_filter: String,
}

impl AssetBrowserPanel {
    /// Create a new panel with default settings and no directory loaded.
    pub fn new() -> (p: Self)
        ensures
            p.current_dir is None,
            p.entries@.len() == 0,
            p.selected_entry is None,
            !p.show_hidden,
            p.view_mode == AssetViewMode::List,
            p.search_filter@.len() == 0,
    {
        Self {
            current_dir: None,
            entries: Vec::new(),
            selected_entry: None,
            show_hidden: false,
            view_mode: AssetViewMode::List,
            search_filter: String::new(),
        }
    }

    /// Panel title.
    pub fn title(&self) -> (s: &'static str)
        ensures
            s@ == "Asset Browser"@,
    {
        "Asset Browser"
    }

    /// Switch between list and grid layout.
    pub fn toggle_view_mode(&mut self)
        ensures
            final(self).view_mode == (if old(self).view_mode == AssetViewMode::List {
                AssetViewMode::Grid
            } else {
                AssetViewMode::List
            }),
            final(self).entries == old(self).entries,
            final(self).search_filter == old(self).search_filter,
    {
        self.view_mode = match self.view_mode {
            AssetViewMode::List => AssetViewMode::Grid,
            AssetViewMode::Grid => AssetViewMode::List,
        };
    }

    /// Replace the listing with the entries just read from the current
    /// directory: hidden names dropped unless shown, directories first, then
    /// by name; the selection is cleared.
    pub fn apply_listing(&mut self, raw: Vec<AssetEntry>)
        ensures
            listing_sorted(final(self).entries@),
            final(self).entries@.to_multiset() == visible_entries(raw@, old(self).show_hidden).to_multiset(),
            final(self).selected_entry is None,
            final(self).show_hidden == old(self).show_hidden,
            final(self).current_dir == old(self).current_dir,
            final(self).view_mode == old(self).view_mode,
            final(self).search_filter == old(self).search_filter,
    {
        let ghost orig = raw@;
        let ghost sh = self.show_hidden;
        let n0 = raw.len();
        let mut src = raw;
        let mut kept: Vec<AssetEntry> = Vec::new();
        let mut k: usize = 0;
        proof {
            assert(orig.subrange(0, 0) =~= Seq::<AssetEntry>::empty());
            assert(orig.subrange(0, orig.len() as int) =~= orig);
        }
        while src.len() > 0
            invariant
                n0 == orig.len(),
                k <= n0,
                sh == self.show_hidden,
                src@ == orig.subrange(k as int, n0 as int),
                kept@ == orig.subrange(0, k as int).filter(|e: AssetEntry| entry_visible(e, sh)),
            decreases src@.len(),
        {
            let x = src.remove(0);
            proof {
                assert(x == orig[k as int]);
                let post = orig.subrange(0, k + 1);
                assert(post.drop_last() =~= orig.subrange(0, k as int));
                assert(post.last() == x);
                assert(src@ =~= orig.subrange(k + 1, n0 as int));
                reveal(Seq::filter);
            }
            let hidden = x.name.as_str().unicode_len() > 0 && x.name.as_str().get_char(0) == '.';
            if self.show_hidden || !hidden {
                kept.push(x);
            }
            k = k + 1;
        }
        self.entries = sort_entries(kept);
        self.selected_entry = None;
    }

    /// The entries (with their positions) whose names match the search
    /// filter, in listing order.
    pub fn filtered_entries(&self) -> (r: Vec<(usize, &AssetEntry)>)
        ensures
            forall|k: int| 0 <= k < r@.len() ==> {
                &&& (#[trigger] r@[k]).0 < self.entries@.len()
                &&& *r@[k].1 == self.entries@[r@[k].0 as int]
                &&& name_matches(self.entries@[r@[k].0 as int], self.search_filter@)
            },
            forall|a: int, b: int| 0 <= a < b < r@.len() ==> r@[a].0 < r@[b].0,
            forall|i: int| 0 <= i < self.entries@.len() && name_matches(self.entries@[i], self.search_filter@)
                ==> exists|k: int| 0 <= k < r@.len() && (#[trigger] r@[k]).0 == i,
    {
        let query = to_ascii_lower(&chars_of(self.search_filter.as_str()));
        let mut r: Vec<(usize, &AssetEntry)> = Vec::new();
        let mut i: usize = 0;
        while i < self.entries.len()
            invariant
                i <= self.entries@.len(),
                query@ == ascii_lower_seq(self.search_filter@),
                forall|k: int| 0 <= k < r@.len() ==> {
                    &&& (#[trigger] r@[k]).0 < i
                    &&& *r@[k].1 == self.entries@[r@[k].0 as int]
                    &&& name_matches(self.entries@[r@[k].0 as int], self.search_filter@)
                },
                forall|a: int, b: int| 0 <= a < b < r@.len() ==> r@[a].0 < r@[b].0,
                forall|j: int| 0 <= j < i && name_matches(self.entries@[j], self.search_filter@)
                    ==> exists|k: int| 0 <= k < r@.len() && (#[trigger] r@[k]).0 == j,
            decreases self.entries@.len() - i,
        {
            let e = &self.entries[i];
            let keep = if query.len() == 0 {
                true
            } else {
                let name = to_ascii_lower(&chars_of(e.name.as_str()));
                contains_chars(&name, &query)
            };
            if keep {
                let ghost before = r@;
                r.push((i, e));
                proof {
                    assert(r@[before.len() as int].0 == i);
                    assert forall|j: int| 0 <= j < i + 1 && name_matches(self.entries@[j], self.search_filter@)
                        implies exists|k: int| 0 <= k < r@.len() && (#[trigger] r@[k]).0 == j by {
                        if j < i {
                            let k = choose|k: int| 0 <= k < before.len() && (#[trigger] before[k]).0 == j;
                            assert(r@[k] == before[k]);
                        }
                    }
                }
            }
            i = i + 1;
        }
        r
    }
}

impl Default for AssetBrowserPanel {
    fn default() -> (p: Self)
        ensures
            p.current_dir is None,
            p.entries@.len() == 0,
            p.view_mode == AssetViewMode::List,
    {
        Self::new()
    }
}

// ──────────────────────────────────────────────
// File sizes
// ──────────────────────────────────────────────

/// How many low bits `n as f64` rounds away: `n` keeps its top 53 bits.
pub open spec fn f64_dropped_bits(n: nat) -> nat
    decreases n,
{
    if n < 0x20_0000_0000_0000 {
        0
    } else {
        1 + f64_dropped_bits(n / 2)
    }
}

/// The value of `n as f64`: `n` rounded to 53 significant bits, ties to
/// even.
pub open spec fn f64_value(n: nat) -> nat {
    let k = f64_dropped_bits(n);
    round_half_even(n, pow2(k)) * pow2(k)
}

/// Tenths of a kibibyte, as `{:.1}` rounds `bytes / 1024`.
pub open spec fn kib_tenths(bytes: nat) -> nat {
    round_half_even(bytes * 10, 1024)
}

/// Tenths of a mebibyte, as `{:.1}` rounds `bytes as f64 / 1048576`.
pub open spec fn mib_tenths(bytes: nat) -> nat {
    round_half_even(f64_value(bytes) * 10, pow2(20))
}

/// `<t / 10>.<t % 10>`.
pub open spec fn tenths_text(t: nat) -> Seq<char> {
    decimal(t / 10) + seq!['.', digit_char(t % 10)]
}

/// The text `format_size` gives for `bytes`.
pub open spec fn size_text(bytes: nat) -> Seq<char> {
    if bytes == 0 {
        Seq::<char>::empty()
    } else if bytes < 1024 {
        decimal(bytes) + " B"@
    } else if bytes < 1048576 {
        tenths_text(kib_tenths(bytes)) + " KB"@
    } else {
        tenths_text(mib_tenths(bytes)) + " MB"@
    }
}

fn div_round_half_even(a: u128, b: u128) -> (r: u128)
    requires
        b > 0,
    ensures
        r == round_half_even(a as nat, b as nat),
{
    let q = a / b;
    let rem = a % b;
    if rem > b - rem || (rem == b - rem && q % 2 == 1) {
        assert(b >= 2);
        assert(q < u128::MAX) by {
            lemma_div_is_ordered_by_denominator(a as int, 2, b as int);
        }
        q + 1
    } else {
        q
    }
}

fn push_tenths(s: &mut String, t: u128)
    ensures
        final(s)@ == old(s)@ + tenths_text(t as nat),
{
    push_decimal(s, t / 10);
    push_char(s, '.');
    push_decimal(s, t % 10);
    proof {
        assert(decimal((t % 10) as nat) =~= seq![digit_char((t % 10) as nat)]);
        assert(final(s)@ =~= old(s)@ + tenths_text(t as nat));
    }
}

/// Format a byte count into a human-readable string: empty for 0, bytes
/// below 1 KiB, else kibibytes or mebibytes with one decimal.
pub fn format_size(bytes: u64) -> (s: String)
    ensures
        s@ == size_text(bytes as nat),
{
    let mut s = String::new();
    if bytes == 0 {
        return s;
    }
    if bytes < 1024 {
        push_decimal(&mut s, bytes as u128);
        s.append(" B");
        return s;
    }
    if bytes < 1048576 {
        let t = div_round_half_even(bytes as u128 * 10, 1024);
        push_tenths(&mut s, t);
        s.append(" KB");
        return s;
    }
    // Round to the 53 significant bits an f64 keeps.
    let mut m: u64 = bytes;
    let mut k: u64 = 0;
    let mut p: u128 = 1;
    proof {
        lemma2_to64();
        vstd::arithmetic::power2::lemma2_to64_rest();
    }
    while m >= 0x20_0000_0000_0000u64
        invariant
            m as nat == bytes as nat / pow2(k as nat),
            f64_dropped_bits(bytes as nat) == k + f64_dropped_bits(m as nat),
            p == pow2(k as nat),
            k <= 11,
            m as nat * pow2(k as nat) <= bytes,
            pow2(11) == 2048,
        decreases m,
    {
        proof {
            lemma_pow2_pos(k as nat);
            lemma_pow2_unfold((k + 1) as nat);
            lemma_div_denominator(bytes as int, pow2(k as nat) as int, 2);
            assert(pow2(k as nat) * 2 == pow2((k + 1) as nat));
            assert(f64_dropped_bits(m as nat) == 1 + f64_dropped_bits(m as nat / 2));
            if k >= 11 {
                if k > 11 {
                    lemma_pow2_strictly_increases(11, k as nat);
                }
                assert(m as nat * pow2(k as nat) >= 0x20_0000_0000_0000 * 2048) by (nonlinear_arith)
                    requires
                        m >= 0x20_0000_0000_0000,
                        pow2(k as nat) >= 2048,
                ;
                assert(false);
            }
            lemma_pow2_strictly_increases(k as nat, 11);
        }
        let ghost mb = m;
        m = m / 2;
        k = k + 1;
        p = p * 2;
        proof {
            assert(m as nat * pow2(k as nat) <= bytes) by (nonlinear_arith)
                requires
                    m as nat == mb as nat / 2,
                    pow2(k as nat) == pow2((k - 1) as nat) * 2,
                    mb as nat * pow2((k - 1) as nat) <= bytes,
            ;
        }
    }
    proof {
        lemma_pow2_pos(k as nat);
        assert(f64_dropped_bits(m as nat) == 0);
    }
    let q = div_round_half_even(bytes as u128, p);
    proof {
        assert(q * p <= bytes + p) by (nonlinear_arith)
            requires
                q == round_half_even(bytes as nat, p as nat),
                p > 0,
        {
            let qq = bytes as nat / p as nat;
            vstd::arithmetic::div_mod::lemma_fundamental_div_mod(bytes as int, p as int);
            assert(qq * p <= bytes);
            assert(q <= qq + 1);
        }
        assert(p <= 2048) by {
            if k < 11 {
                lemma_pow2_strictly_increases(k as nat, 11);
            }
        }
    }
    let rounded = q * p;
    let t = div_round_half_even(rounded * 10, 1048576);
    proof {
        assert(pow2(20) == 1048576);
        assert(rounded == f64_value(bytes as nat));
    }
    push_tenths(&mut s, t);
    s.append(" MB");
    s
}

} // verus!
