//! Console panel: log filtering, command history and the built-in console
//! commands (`help`, `clear`, `entities`, `fps`, `echo`, `select`).

use vstd::prelude::*;

use crate::editor_panels::{ConsoleEntry, ConsoleLogLevel, EditorState, flags_kept};
use crate::entity::Entity;
use crate::text::{
    chars_of, decimal, push_char, push_decimal, str_equal, string_from, string_from_chars,
    trim_chars, trim_seq,
};
use crate::world::World;

verus! {

// ──────────────────────────────────────────────
// Splitting a command line
// ──────────────────────────────────────────────

/// Position of the first space in `s`, or its length when it has none.
pub open spec fn first_space(s: Seq<char>) -> int
    decreases s.len(),
{
    if s.len() == 0 || s[0] == ' ' {
        0
    } else {
        1 + first_space(s.drop_first())
    }
}

/// The command word: everything before the first space.
pub open spec fn command_word(s: Seq<char>) -> Seq<char> {
    s.take(first_space(s))
}

/// The arguments: everything after the first space (empty without one).
pub open spec fn command_args(s: Seq<char>) -> Seq<char> {
    if first_space(s) < s.len() {
        s.skip(first_space(s) + 1)
    } else {
        Seq::empty()
    }
}

proof fn lemma_first_space_bounds(s: Seq<char>)
    ensures
        0 <= first_space(s) <= s.len(),
        first_space(s) < s.len() ==> s[first_space(s)] == ' ',
        forall|j: int| 0 <= j < first_space(s) ==> s[j] != ' ',
    decreases s.len(),
{
    if s.len() > 0 && s[0] != ' ' {
        lemma_first_space_bounds(s.drop_first());
        assert forall|j: int| 0 <= j < first_space(s) implies s[j] != ' ' by {
            if j > 0 {
                assert(s[j] == s.drop_first()[j - 1]);
            }
        }
    }
}

proof fn lemma_first_space_is(s: Seq<char>, i: int)
    requires
        0 <= i <= s.len(),
        forall|j: int| 0 <= j < i ==> s[j] != ' ',
        i < s.len() ==> s[i] == ' ',
    ensures
        first_space(s) == i,
    decreases i,
{
    if i > 0 {
        assert forall|j: int| 0 <= j < i - 1 implies s.drop_first()[j] != ' ' by {
            assert(s.drop_first()[j] == s[j + 1]);
        }
        lemma_first_space_is(s.drop_first(), i - 1);
    }
}

// ──────────────────────────────────────────────
// Parsing an entity index
// ──────────────────────────────────────────────

/// Whether every character is an ASCII digit.
pub open spec fn all_digits(s: Seq<char>) -> bool {
    forall|i: int| 0 <= i < s.len() ==> '0' <= #[trigger] s[i] && s[i] <= '9'
}

/// The number the decimal digits of `s` spell.
pub open spec fn digits_value(s: Seq<char>) -> nat
    decreases s.len(),
{
    if s.len() == 0 {
        0
    } else {
        digits_value(s.drop_last()) * 10 + ((s.last() as nat) - ('0' as nat)) as nat
    }
}

/// `s.parse::<u32>()`: an optional `+`, then at least one ASCII digit, and
/// a value that fits.
pub open spec fn parsed_u32(s: Seq<char>) -> Option<u32> {
    let body = if s.len() > 0 && s[0] == '+' {
        s.drop_first()
    } else {
        s
    };
    if body.len() > 0 && all_digits(body) && digits_value(body) <= u32::MAX {
        Some(digits_value(body) as u32)
    } else {
        None
    }
}

proof fn lemma_digits_value_grows(s: Seq<char>, i: int)
    requires
        0 <= i <= s.len(),
        all_digits(s),
    ensures
        digits_value(s.take(i)) <= digits_value(s),
    decreases s.len() - i,
{
    if i == s.len() {
        assert(s.take(i) =~= s);
    } else {
        lemma_digits_value_grows(s, i + 1);
        assert(s.take(i + 1).drop_last() =~= s.take(i));
        assert('0' <= s[i] <= '9');
        assert(s.take(i + 1).last() == s[i]);
        assert(digits_value(s.take(i + 1)) == digits_value(s.take(i)) * 10 + ((s[i] as nat) - ('0' as nat)) as nat);
    }
}

/// Parse an entity index the way `str::parse::<u32>` does.
pub fn parse_u32(s: &Vec<char>) -> (r: Option<u32>)
    ensures
        r == parsed_u32(s@),
{
    let mut start: usize = 0;
    if s.len() > 0 && s[0] == '+' {
        start = 1;
    }
    let ghost body = if s@.len() > 0 && s@[0] == '+' {
        s@.drop_first()
    } else {
        s@
    };
    assert(body =~= s@.skip(start as int));
    if start >= s.len() {
        return None;
    }
    let mut value: u64 = 0;
    let mut i: usize = start;
    proof {
        assert(body.take(0) =~= Seq::<char>::empty());
    }
    while i < s.len()
        invariant
            start <= i <= s@.len(),
            body == s@.skip(start as int),
            body == (if s@.len() > 0 && s@[0] == '+' {
                s@.drop_first()
            } else {
                s@
            }),
            value as nat == digits_value(body.take(i - start)),
            value <= u32::MAX,
            forall|j: int| start <= j < i ==> '0' <= #[trigger] s@[j] && s@[j] <= '9',
        decreases s.len() - i,
    {
        let c = s[i];
        if c < '0' || c > '9' {
            proof {
                assert(body[i - start] == c);
                assert(!all_digits(body));
            }
            return None;
        }
        let d = (c as u32 - '0' as u32) as u64;
        assert(value * 10 <= 42949672950) by (nonlinear_arith)
            requires
                value <= 4294967295,
        ;
        let next = value * 10 + d;
        proof {
            assert(body.take(i + 1 - start).drop_last() =~= body.take(i - start));
            assert(body.take(i + 1 - start).last() == c);
            assert(next as nat == digits_value(body.take(i + 1 - start)));
        }
        if next > 4294967295 {
            proof {
                assert(all_digits(body.take(i + 1 - start))) by {
                    assert forall|k: int| 0 <= k < body.take(i + 1 - start).len() implies '0'
                        <= #[trigger] body.take(i + 1 - start)[k] && body.take(i + 1 - start)[k]
                        <= '9' by {
                        assert(body.take(i + 1 - start)[k] == s@[start + k]);
                    }
                }
                if all_digits(body) {
                    lemma_digits_value_grows(body, i + 1 - start);
                }
            }
            return None;
        }
        value = next;
        i = i + 1;
    }
    proof {
        assert(body.take(i - start) =~= body);
        assert forall|k: int| 0 <= k < body.len() implies '0' <= #[trigger] body[k] && body[k]
            <= '9' by {
            assert(body[k] == s@[start + k]);
        }
    }
    Some(value as u32)
}

// ──────────────────────────────────────────────
// What a command writes to the log
// ──────────────────────────────────────────────

/// The lines of the `help` command.
pub open spec fn help_lines() -> Seq<Seq<char>> {
    seq![
        "Available commands:"@,
        "  help        — Show this message"@,
        "  clear       — Clear console output"@,
        "  entities    — Show entity count"@,
        "  fps         — Show FPS hint"@,
        "  echo <text> — Print text to console"@,
        "  select <id> — Select entity by index"@,
    ]
}

/// Whether slot `i` of the world holds a live entity.
pub open spec fn index_alive(w: World, i: u32) -> bool {
    (i as int) < w.slot_count() && w.slot_alive(i as int)
}

/// The lines (level and text) a command other than `clear` logs, given its
/// command word, its arguments and the world.
pub open spec fn command_reply(command: Seq<char>, args: Seq<char>, w: World) -> Seq<
    (ConsoleLogLevel, Seq<char>),
> {
    if command == "help"@ {
        help_lines().map(|i: int, l: Seq<char>| (ConsoleLogLevel::Info, l))
    } else if command == "entities"@ {
        seq![(ConsoleLogLevel::Info, "Entity count: "@ + decimal(w.live_count()))]
    } else if command == "fps"@ {
        seq![(ConsoleLogLevel::Info, "FPS: (not available in headless mode)"@)]
    } else if command == "echo"@ {
        if args.len() == 0 {
            seq![(ConsoleLogLevel::Warn, "Usage: echo <text>"@)]
        } else {
            seq![(ConsoleLogLevel::Info, args)]
        }
    } else if command == "select"@ {
        if args.len() == 0 {
            seq![(ConsoleLogLevel::Warn, "Usage: select <entity_index>"@)]
        } else {
            match parsed_u32(args) {
                None => seq![(ConsoleLogLevel::Warn, "Invalid index: "@ + args)],
                Some(i) => if index_alive(w, i) {
                    seq![(ConsoleLogLevel::Info, "Selected entity "@ + decimal(i as nat))]
                } else {
                    seq![(ConsoleLogLevel::Warn, "No alive entity at index "@ + decimal(i as nat))]
                },
            }
        }
    } else {
        seq![
            (ConsoleLogLevel::Warn, "Unknown command: "@ + command
                + ". Type 'help' for available commands."@),
        ]
    }
}

/// The index a command selects, if it selects a live entity.
pub open spec fn selected_index(command: Seq<char>, args: Seq<char>, w: World) -> Option<u32> {
    if command == "select"@ && args.len() > 0 {
        match parsed_u32(args) {
            Some(i) => if index_alive(w, i) {
                Some(i)
            } else {
                None
            },
            None => None,
        }
    } else {
        None
    }
}

/// `new` is `old` with entries of the given levels and texts appended.
pub open spec fn appended(
    new: Seq<ConsoleEntry>,
    old: Seq<ConsoleEntry>,
    lines: Seq<(ConsoleLogLevel, Seq<char>)>,
) -> bool {
    &&& new.len() == old.len() + lines.len()
    &&& new.take(old.len() as int) == old
    &&& forall|k: int|
        0 <= k < lines.len() ==> #[trigger] new[old.len() + k].level == lines[k].0
            && new[old.len() + k].message@ == lines[k].1
}

proof fn lemma_appended_one(new: Seq<ConsoleEntry>, old: Seq<ConsoleEntry>, level: ConsoleLogLevel, m: Seq<char>)
    requires
        new.len() == old.len() + 1,
        new.drop_last() == old,
        new.last().level == level,
        new.last().message@ == m,
    ensures
        appended(new, old, seq![(level, m)]),
{
    assert(new.take(old.len() as int) =~= new.drop_last());
}

/// Log one line and say so in terms of [`appended`].
fn log_line(state: &mut EditorState, level: ConsoleLogLevel, message: String)
    ensures
        appended(final(state).console_log@, old(state).console_log@, seq![(level, message@)]),
        final(state).world == old(state).world,
        final(state).selected_entities == old(state).selected_entities,
        flags_kept(*final(state), *old(state)),
{
    let ghost m = message@;
    state.log(level, message);
    proof {
        lemma_appended_one(state.console_log@, old(state).console_log@, level, m);
    }
}

/// Log the lines of `help`.
fn log_help(state: &mut EditorState)
    ensures
        appended(
            final(state).console_log@,
            old(state).console_log@,
            help_lines().map(|i: int, l: Seq<char>| (ConsoleLogLevel::Info, l)),
        ),
        final(state).world == old(state).world,
        final(state).selected_entities == old(state).selected_entities,
        flags_kept(*final(state), *old(state)),
{
    let ghost s0 = state.console_log@;
    state.log(ConsoleLogLevel::Info, string_from("Available commands:"));
    state.log(ConsoleLogLevel::Info, string_from("  help        — Show this message"));
    state.log(ConsoleLogLevel::Info, string_from("  clear       — Clear console output"));
    state.log(ConsoleLogLevel::Info, string_from("  entities    — Show entity count"));
    state.log(ConsoleLogLevel::Info, string_from("  fps         — Show FPS hint"));
    state.log(ConsoleLogLevel::Info, string_from("  echo <text> — Print text to console"));
    state.log(ConsoleLogLevel::Info, string_from("  select <id> — Select entity by index"));
    proof {
        let n = s0.len();
        let f = state.console_log@;
        let lines = help_lines().map(|i: int, l: Seq<char>| (ConsoleLogLevel::Info, l));
        assert(f.len() == n + 7);
        assert(f.take(n as int) =~= s0);
        assert forall|k: int| 0 <= k < lines.len() implies #[trigger] f[n + k].level == lines[k].0
            && f[n + k].message@ == lines[k].1 by {
            assert(lines[k] == (ConsoleLogLevel::Info, help_lines()[k]));
        }
    }
}

// ──────────────────────────────────────────────
// The panel
// ──────────────────────────────────────────────

/// Developer console panel.
///
/// Displays log entries with severity-based filtering and accepts typed
/// commands; the history of submitted commands can be walked with the arrow
/// keys.
pub struct ConsolePanel {
    /// Text buffer for the command input field.
    pub command_input: String,
    /// Vertical scroll position in the log area (bit pattern of an `f32`).
    pub scrollback_position: u32,
    /// Whether to scroll to the latest entry when new logs arrive.
    pub auto_scroll: bool,
    /// Whether to display `[INFO]` entries.
    pub filter_info: bool,
    /// Whether to display `[WARN]` entries.
    pub filter_warn: bool,
    /// Whether to display `[ERROR]` entries.
    pub filter_error: bool,
    /// Position in the command history (`None` while typing new input).
    pub history_index: Option<usize>,
    /// Maximum number of log entries before the oldest are trimmed.
    pub max_entries: usize,
}

/// Whether an entry of the given level passes the filters.
pub open spec fn level_shown(p: ConsolePanel, level: ConsoleLogLevel) -> bool {
    match level {
        ConsoleLogLevel::Info => p.filter_info,
        ConsoleLogLevel::Warn => p.filter_warn,
        ConsoleLogLevel::Error => p.filter_error,
    }
}

/// Number of entries of `log` that pass the filters.
pub open spec fn shown_count(p: ConsolePanel, log: Seq<ConsoleEntry>) -> nat
    decreases log.len(),
{
    if log.len() == 0 {
        0
    } else {
        shown_count(p, log.drop_last()) + if level_shown(p, log.last().level) {
            1nat
        } else {
            0nat
        }
    }
}

/// A number written with at least two digits (`{:02}`).
pub open spec fn two_digits(n: nat) -> Seq<char> {
    if n < 10 {
        seq!['0'] + decimal(n)
    } else {
        decimal(n)
    }
}

/// `HH:MM:SS` for a number of seconds.
pub open spec fn clock_text(secs: nat) -> Seq<char> {
    two_digits(secs / 3600) + seq![':'] + two_digits((secs % 3600) / 60) + seq![':'] + two_digits(
        secs % 60,
    )
}

fn push_two_digits(s: &mut String, n: u64)
    ensures
        final(s)@ == old(s)@ + two_digits(n as nat),
{
    if n < 10 {
        push_char(s, '0');
    }
    push_decimal(s, n as u128);
    proof {
        if n < 10 {
            assert(old(s)@.push('0') + decimal(n as nat) =~= old(s)@ + two_digits(n as nat));
        }
    }
}

/// What running the console line `cmd` does to the editor state: the
/// trimmed line's command word and arguments decide the reply appended to
/// the log (`clear` empties it) and the selection (`select`); the world,
/// flags and history are kept, and a blank line changes nothing.
pub open spec fn command_outcome(cmd: Seq<char>, before: EditorState, after: EditorState) -> bool {
    let t = trim_seq(cmd);
    let c = command_word(t);
    let a = command_args(t);
    &&& after.world == before.world
    &&& flags_kept(after, before)
    &&& t.len() == 0 ==> after.console_log == before.console_log
    &&& t.len() > 0 && c == "clear"@ ==> after.console_log@.len() == 0
    &&& t.len() > 0 && c != "clear"@ ==> appended(
        after.console_log@,
        before.console_log@,
        command_reply(c, a, before.world),
    )
    &&& match (if t.len() > 0 {
        selected_index(c, a, before.world)
    } else {
        None
    }) {
        Some(i) => after.selected_entities@.len() == 1 && after.selected_entities@[0].spec_index() == i
            && after.selected_entities@[0].spec_generation() == before.world.generation_of(i as int),
        None => after.selected_entities == before.selected_entities,
    }
}

impl ConsolePanel {
    /// A console with every filter on, no history position and room for
    /// 10 000 entries.
    pub fn new() -> (p: Self)
        ensures
            p.command_input@.len() == 0,
            p.scrollback_position == 0,
            p.auto_scroll,
            p.filter_info,
            p.filter_warn,
            p.filter_error,
            p.history_index is None,
            p.max_entries == 10_000,
    {
        Self {
            command_input: String::new(),
            scrollback_position: 0,
            auto_scroll: true,
            filter_info: true,
            filter_warn: true,
            filter_error: true,
            history_index: None,
            max_entries: 10_000,
        }
    }

    /// Panel title.
    pub fn title(&self) -> (s: &'static str)
        ensures
            s@ == "Console"@,
    {
        "Console"
    }

    /// Run one console command line against the editor state.
    ///
    /// The line is trimmed and split at its first space into a command word
    /// and its arguments. `clear` empties the log; every other command
    /// appends the lines of [`command_reply`]; `select` with the index of a
    /// live entity also selects it. An empty line does nothing. The command
    /// history is left to the caller.
    pub fn process_command(&self, cmd: &str, state: &mut EditorState)
        requires
            old(state).world.wf(),
        ensures
            ({
                let t = trim_seq(cmd@);
                let c = command_word(t);
                let a = command_args(t);
                &&& final(state).world == old(state).world
                &&& flags_kept(*final(state), *old(state))
                &&& t.len() == 0 ==> final(state).console_log == old(state).console_log
                &&& t.len() > 0 && c == "clear"@ ==> final(state).console_log@.len() == 0
                &&& t.len() > 0 && c != "clear"@ ==> appended(
                    final(state).console_log@,
                    old(state).console_log@,
                    command_reply(c, a, old(state).world),
                )
                &&& match (if t.len() > 0 {
                    selected_index(c, a, old(state).world)
                } else {
                    None
                }) {
                    Some(i) => final(state).selected_entities@.len() == 1
                        && final(state).selected_entities@[0].spec_index() == i
                        && final(state).selected_entities@[0].spec_generation()
                        == old(state).world.generation_of(i as int),
                    None => final(state).selected_entities == old(state).selected_entities,
                }
            }),
    {
        let chars = chars_of(cmd);
        let t = trim_chars(&chars);
        if t.len() == 0 {
            return;
        }
        let mut sp: usize = 0;
        while sp < t.len() && t[sp] != ' '
            invariant
                sp <= t@.len(),
                forall|j: int| 0 <= j < sp ==> t@[j] != ' ',
            decreases t.len() - sp,
        {
            sp = sp + 1;
        }
        proof {
            lemma_first_space_is(t@, sp as int);
        }
        let mut word: Vec<char> = Vec::new();
        let mut i: usize = 0;
        while i < sp
            invariant
                i <= sp <= t@.len(),
                word@ == t@.take(i as int),
            decreases sp - i,
        {
            word.push(t[i]);
            proof {
                assert(word@ =~= t@.take(i + 1));
            }
            i = i + 1;
        }
        let mut args: Vec<char> = Vec::new();
        if sp < t.len() {
            let mut j: usize = sp + 1;
            while j < t.len()
                invariant
                    sp < j <= t@.len(),
                    args@ == t@.subrange(sp + 1, j as int),
                decreases t.len() - j,
            {
                args.push(t[j]);
                proof {
                    assert(args@ =~= t@.subrange(sp + 1, j + 1));
                }
                j = j + 1;
            }
            proof {
                assert(t@.subrange(sp + 1, t@.len() as int) =~= t@.skip(sp + 1));
            }
        }
        assert(args@ == command_args(t@)) by {
            if sp >= t.len() {
                assert(args@ =~= Seq::<char>::empty());
            }
        }
        let command = string_from_chars(&word);
        let c = command.as_str();

        if str_equal(c, "clear") {
            assert("clear"@ != "select"@) by {
                reveal_strlit("clear");
                reveal_strlit("select");
            }
            state.console_log.clear();
        } else if str_equal(c, "help") {
            assert("help"@ != "select"@) by {
                reveal_strlit("help");
                reveal_strlit("select");
            }
            log_help(state);
        } else if str_equal(c, "entities") {
            assert("entities"@ != "select"@) by {
                reveal_strlit("entities");
                reveal_strlit("select");
            }
            let count = state.world.entity_count();
            let mut msg = string_from("Entity count: ");
            push_decimal(&mut msg, count as u128);
            log_line(state, ConsoleLogLevel::Info, msg);
        } else if str_equal(c, "fps") {
            assert("fps"@ != "select"@) by {
                reveal_strlit("fps");
                reveal_strlit("select");
            }
            log_line(
                state,
                ConsoleLogLevel::Info,
                string_from("FPS: (not available in headless mode)"),
            );
        } else if str_equal(c, "echo") {
            assert("echo"@ != "select"@) by {
                reveal_strlit("echo");
                reveal_strlit("select");
            }
            if args.len() == 0 {
                log_line(state, ConsoleLogLevel::Warn, string_from("Usage: echo <text>"));
            } else {
                log_line(state, ConsoleLogLevel::Info, string_from_chars(&args));
            }
        } else if str_equal(c, "select") {
            if args.len() == 0 {
                log_line(state, ConsoleLogLevel::Warn, string_from("Usage: select <entity_index>"));
            } else {
                match parse_u32(&args) {
                    Some(index) => {
                        let entity = state.world.entity_from_index(index);
                        if state.world.entity_exists(entity) {
                            state.select(entity);
                            let mut msg = string_from("Selected entity ");
                            push_decimal(&mut msg, index as u128);
                            log_line(state, ConsoleLogLevel::Info, msg);
                        } else {
                            let mut msg = string_from("No alive entity at index ");
                            push_decimal(&mut msg, index as u128);
                            log_line(state, ConsoleLogLevel::Warn, msg);
                        }
                    },
                    None => {
                        let mut msg = string_from("Invalid index: ");
                        msg.append(string_from_chars(&args).as_str());
                        log_line(state, ConsoleLogLevel::Warn, msg);
                    },
                }
            }
        } else {
            let mut msg = string_from("Unknown command: ");
            msg.append(c);
            msg.append(". Type 'help' for available commands.");
            log_line(state, ConsoleLogLevel::Warn, msg);
        }
    }

    /// Drop the oldest entries until at most `max_entries` remain.
    pub fn trim_log(&self, state: &mut EditorState)
        ensures
            old(state).console_log@.len() > self.max_entries ==> final(state).console_log@
                == old(state).console_log@.skip(
                old(state).console_log@.len() - self.max_entries,
            ),
            old(state).console_log@.len() <= self.max_entries ==> final(state).console_log
                == old(state).console_log,
            final(state).world == old(state).world,
            final(state).selected_entities == old(state).selected_entities,
            flags_kept(*final(state), *old(state)),
    {
        if state.console_log.len() > self.max_entries {
            let excess = state.console_log.len() - self.max_entries;
            let kept = state.console_log.split_off(excess);
            state.console_log = kept;
        }
    }

    /// `HH:MM:SS` for a stamp in seconds.
    pub fn format_timestamp(secs: u64) -> (s: String)
        ensures
            s@ == clock_text(secs as nat),
    {
        let hours = secs / 3600;
        let minutes = (secs % 3600) / 60;
        let seconds = secs % 60;
        let mut s = String::new();
        push_two_digits(&mut s, hours);
        push_char(&mut s, ':');
        push_two_digits(&mut s, minutes);
        push_char(&mut s, ':');
        push_two_digits(&mut s, seconds);
        proof {
            assert(s@ =~= clock_text(secs as nat));
        }
        s
    }

    /// The colour a level is drawn in, as red, green and blue.
    pub fn level_color(level: ConsoleLogLevel) -> (c: (u8, u8, u8))
        ensures
            level == ConsoleLogLevel::Info ==> c == (255u8, 255u8, 255u8),
            level == ConsoleLogLevel::Warn ==> c == (255u8, 255u8, 0u8),
            level == ConsoleLogLevel::Error ==> c == (255u8, 80u8, 80u8),
    {
        match level {
            ConsoleLogLevel::Info => (255, 255, 255),
            ConsoleLogLevel::Warn => (255, 255, 0),
            ConsoleLogLevel::Error => (255, 80, 80),
        }
    }

    /// The bracket tag of a level.
    pub fn level_tag(level: ConsoleLogLevel) -> (s: &'static str)
        ensures
            level == ConsoleLogLevel::Info ==> s@ == "[INFO]"@,
            level == ConsoleLogLevel::Warn ==> s@ == "[WARN]"@,
            level == ConsoleLogLevel::Error ==> s@ == "[ERROR]"@,
    {
        match level {
            ConsoleLogLevel::Info => "[INFO]",
            ConsoleLogLevel::Warn => "[WARN]",
            ConsoleLogLevel::Error => "[ERROR]",
        }
    }

    /// Whether an entry passes the current filters.
    pub fn entry_visible(&self, entry: &ConsoleEntry) -> (b: bool)
        ensures
            b == level_shown(*self, entry.level),
    {
        match entry.level {
            ConsoleLogLevel::Info => self.filter_info,
            ConsoleLogLevel::Warn => self.filter_warn,
            ConsoleLogLevel::Error => self.filter_error,
        }
    }

    /// How many entries of the log pass the filters.
    pub fn visible_count(&self, log: &Vec<ConsoleEntry>) -> (n: usize)
        ensures
            n == shown_count(*self, log@),
    {
        let mut n: usize = 0;
        let mut i: usize = 0;
        while i < log.len()
            invariant
                i <= log@.len(),
                n == shown_count(*self, log@.take(i as int)),
                n <= i,
            decreases log.len() - i,
        {
            proof {
                assert(log@.take(i + 1).drop_last() =~= log@.take(i as int));
            }
            if self.entry_visible(&log[i]) {
                n = n + 1;
            }
            i = i + 1;
        }
        proof {
            assert(log@.take(log@.len() as int) =~= log@);
        }
        n
    }

    /// Arrow-up: step back through the history (to its last entry when no
    /// entry is chosen, staying at the first one) and load that entry into
    /// the input. Nothing happens while the history is empty.
    pub fn history_up(&mut self, history: &Vec<String>)
        requires
            old(self).history_index matches Some(i) ==> i < history@.len(),
        ensures
            history@.len() == 0 ==> *final(self) == *old(self),
            history@.len() > 0 ==> final(self).history_index == Some(
                match old(self).history_index {
                    None => (history@.len() - 1) as usize,
                    Some(i) => if i > 0 {
                        (i - 1) as usize
                    } else {
                        i
                    },
                },
            ),
            history@.len() > 0 ==> final(self).command_input@ == history@[final(self).history_index.unwrap() as int]@,
            final(self).max_entries == old(self).max_entries,
            final(self).auto_scroll == old(self).auto_scroll,
    {
        if history.len() == 0 {
            return;
        }
        let idx = match self.history_index {
            None => history.len() - 1,
            Some(i) => if i > 0 {
                i - 1
            } else {
                i
            },
        };
        self.history_index = Some(idx);
        self.command_input = string_from(history[idx].as_str());
    }

    /// Arrow-down: step forward through the history; past its last entry
    /// the position is cleared together with the input. Nothing happens
    /// while no entry is chosen.
    pub fn history_down(&mut self, history: &Vec<String>)
        ensures
            old(self).history_index is None ==> *final(self) == *old(self),
            match old(self).history_index {
                Some(i) => if i + 1 < history@.len() {
                    final(self).history_index == Some((i + 1) as usize)
                        && final(self).command_input@ == history@[i + 1]@
                } else {
                    final(self).history_index is None && final(self).command_input@.len() == 0
                },
                None => true,
            },
            final(self).max_entries == old(self).max_entries,
            final(self).auto_scroll == old(self).auto_scroll,
    {
        match self.history_index {
            Some(idx) => {
                if idx < history.len() && idx + 1 < history.len() {
                    self.history_index = Some(idx + 1);
                    self.command_input = string_from(history[idx + 1].as_str());
                } else {
                    self.history_index = None;
                    self.command_input = String::new();
                }
            },
            None => {},
        }
    }

    /// Submit the input line: when it is not blank, the trimmed line joins
    /// the history and is run, the input is cleared and the log scrolls to
    /// the end. Returns whether a command ran.
    pub fn submit(&mut self, state: &mut EditorState) -> (ran: bool)
        requires
            old(state).world.wf(),
        ensures
            ran == (trim_seq(old(self).command_input@).len() > 0),
            !ran ==> *final(self) == *old(self) && final(state).console_log == old(state).console_log && final(state).console_history == old(state).console_history,
            ran ==> final(state).console_history@.len() == old(state).console_history@.len() + 1
                && final(state).console_history@.last()@ == trim_seq(old(self).command_input@),
            ran ==> final(self).command_input@.len() == 0 && final(self).history_index is None
                && final(self).auto_scroll,
            ran ==> command_outcome(
                trim_seq(old(self).command_input@),
                EditorState { console_history: final(state).console_history, ..*old(state) },
                *final(state),
            ),
            final(self).max_entries == old(self).max_entries,
            final(state).world == old(state).world,
    {
        let chars = chars_of(self.command_input.as_str());
        let t = trim_chars(&chars);
        if t.len() == 0 {
            return false;
        }
        let line = string_from_chars(&t);
        let run = string_from_chars(&t);
        state.console_history.push(line);
        self.history_index = None;
        let ghost mid = *state;
        self.process_command(run.as_str(), state);
        proof {
            assert(mid == EditorState { console_history: state.console_history, ..*old(state) });
            assert(command_outcome(run@, mid, *state));
        }
        self.command_input = String::new();
        self.auto_scroll = true;
        true
    }
}

impl Default for ConsolePanel {
    fn default() -> (p: Self)
        ensures
            p.command_input@.len() == 0,
            p.auto_scroll,
            p.filter_info && p.filter_warn && p.filter_error,
            p.history_index is None,
            p.max_entries == 10_000,
    {
        Self::new()
    }
}

} // verus!
