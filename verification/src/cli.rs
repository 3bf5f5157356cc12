//! The `chronos` command-line tool: its errors, project templates, argument
//! parsing, project-name rules, and the files and commands it produces.
//!
//! Touching the file system and running cargo happen in the application;
//! everything they are told to do is computed here.

use std::io;

use vstd::prelude::*;

use crate::io_support::io_error_text;
use crate::text::{
    chars_of, decimal, lowercase_of, push_signed_decimal, signed_decimal, split_chars, split_seq,
    str_equal, string_from, string_from_chars, to_lowercase, trim_chars, trim_seq,
};

verus! {

// ──────────────────────────────────────────────────────────────
// CLI Error
// ──────────────────────────────────────────────────────────────

/// Errors of the command-line tool.
#[derive(Debug)]
pub enum CliError {
    Io(io::Error),
    ProjectNotFound,
    InvalidProjectName(String),
    CargoFailed { cmd: String, status: i32 },
    TemplateNotFound(String),
    ParseError(String),
}

impl CliError {
    /// Human-readable message for this error.
    pub fn to_string(&self) -> (s: String)
        ensures
            match self {
                CliError::Io(_) => s@.len() >= 10 && s@.subrange(0, 10) == "IO error: "@,
                CliError::ProjectNotFound => s@ == "no Chronos project found in current directory"@,
                CliError::InvalidProjectName(n) => s@ == "invalid project name: "@ + n@,
                CliError::CargoFailed { cmd, status } => s@ == "cargo command failed: "@ + cmd@
                    + " (exit code: "@ + signed_decimal(*status as int) + ")"@,
                CliError::TemplateNotFound(t) => s@ == "template not found: "@ + t@,
                CliError::ParseError(m) => s@ == "parse error: "@ + m@,
            },
    {
        let mut s = String::new();
        match self {
            CliError::Io(e) => {
                s.append("IO error: ");
                let ghost prefix = s@;
                let t = io_error_text(e);
                s.append(t.as_str());
                proof {
                    reveal_strlit("IO error: ");
                    assert(s@.subrange(0, 10) =~= prefix);
                }
            },
            CliError::ProjectNotFound => {
                s.append("no Chronos project found in current directory");
            },
            CliError::InvalidProjectName(n) => {
                s.append("invalid project name: ");
                s.append(n.as_str());
            },
            CliError::CargoFailed { cmd, status } => {
                s.append("cargo command failed: ");
                s.append(cmd.as_str());
                s.append(" (exit code: ");
                push_signed_decimal(&mut s, *status as i64);
                s.append(")");
            },
            CliError::TemplateNotFound(t) => {
                s.append("template not found: ");
                s.append(t.as_str());
            },
            CliError::ParseError(m) => {
                s.append("parse error: ");
                s.append(m.as_str());
            },
        }
        s
    }
}

impl From<io::Error> for CliError {
    fn from(e: io::Error) -> (r: Self) {
        CliError::Io(e)
    }
}

impl vstd::std_specs::convert::FromSpecImpl<io::Error> for CliError {
    open spec fn obeys_from_spec() -> bool {
        true
    }

    open spec fn from_spec(v: io::Error) -> Self {
        CliError::Io(v)
    }
}

// ──────────────────────────────────────────────────────────────
// Templates
// ──────────────────────────────────────────────────────────────

/// Available project templates.
#[derive(Debug, Clone, Copy, PartialEq, Eq, Structural)]
pub enum ProjectTemplate {
    Empty,
    Platformer2D,
    Shooter3D,
    Rpg,
}

/// The template an already lower-cased name selects.
pub open spec fn template_of(s: Seq<char>) -> Option<ProjectTemplate> {
    if s == "empty"@ || s == "default"@ {
        Some(ProjectTemplate::Empty)
    } else if s == "platformer"@ || s == "platformer2d"@ || s == "2d"@ {
        Some(ProjectTemplate::Platformer2D)
    } else if s == "shooter"@ || s == "shooter3d"@ || s == "3d"@ {
        Some(ProjectTemplate::Shooter3D)
    } else if s == "rpg"@ {
        Some(ProjectTemplate::Rpg)
    } else {
        None
    }
}

/// The result of selecting a template by the name `s`, lower-cased to
/// `lower`: the template, or `TemplateNotFound` carrying `s`.
pub open spec fn template_result(lower: Seq<char>, s: Seq<char>, r: Result<ProjectTemplate, CliError>) -> bool {
    match template_of(lower) {
        Some(t) => r == Ok::<ProjectTemplate, CliError>(t),
        None => r matches Err(CliError::TemplateNotFound(m)) && m@ == s,
    }
}

impl ProjectTemplate {
    /// The template's name on the command line.
    pub fn template_name(&self) -> (s: &'static str)
        ensures
            s@ == match *self {
                ProjectTemplate::Empty => "empty"@,
                ProjectTemplate::Platformer2D => "platformer2d"@,
                ProjectTemplate::Shooter3D => "shooter3d"@,
                ProjectTemplate::Rpg => "rpg"@,
            },
    {
        match self {
            ProjectTemplate::Empty => "empty",
            ProjectTemplate::Platformer2D => "platformer2d",
            ProjectTemplate::Shooter3D => "shooter3d",
            ProjectTemplate::Rpg => "rpg",
        }
    }

    /// The template's human-readable name.
    pub fn display_name(&self) -> (s: &'static str)
        ensures
            s@ == match *self {
                ProjectTemplate::Empty => "Empty Project"@,
                ProjectTemplate::Platformer2D => "2D Platformer"@,
                ProjectTemplate::Shooter3D => "3D Shooter"@,
                ProjectTemplate::Rpg => "RPG"@,
            },
    {
        match self {
            ProjectTemplate::Empty => "Empty Project",
            ProjectTemplate::Platformer2D => "2D Platformer",
            ProjectTemplate::Shooter3D => "3D Shooter",
            ProjectTemplate::Rpg => "RPG",
        }
    }

    /// Select a template by its lower-cased name `lower`; `original` is the
    /// name as given, reported when no template matches.
    pub fn from_lowercase(lower: &str, original: &str) -> (r: Result<Self, CliError>)
        ensures
            template_result(lower@, original@, r),
    {
        if str_equal(lower, "empty") || str_equal(lower, "default") {
            Ok(ProjectTemplate::Empty)
        } else if str_equal(lower, "platformer") || str_equal(lower, "platformer2d") || str_equal(lower, "2d") {
            Ok(ProjectTemplate::Platformer2D)
        } else if str_equal(lower, "shooter") || str_equal(lower, "shooter3d") || str_equal(lower, "3d") {
            Ok(ProjectTemplate::Shooter3D)
        } else if str_equal(lower, "rpg") {
            Ok(ProjectTemplate::Rpg)
        } else {
            Err(CliError::TemplateNotFound(string_from(original)))
        }
    }

    /// Select a template by name, ignoring case.
    pub fn from_str(s: &str) -> (r: Result<Self, CliError>)
        ensures
            template_result(lowercase_of(s@), s@, r),
    {
        let lower = to_lowercase(s);
        Self::from_lowercase(lower.as_str(), s)
    }
}

/// Choosing a template ignores how the name is written: two names that
/// lower-case to the same text select the same template, or both fail, each
/// error carrying the name as given. A name is refused exactly when its
/// lower-cased form is none of the template names and aliases.
pub proof fn template_choice_ignores_case(
    s: Seq<char>,
    t: Seq<char>,
    rs: Result<ProjectTemplate, CliError>,
    rt: Result<ProjectTemplate, CliError>,
)
    requires
        template_result(lowercase_of(s), s, rs),
        template_result(lowercase_of(t), t, rt),
        lowercase_of(s) == lowercase_of(t),
    ensures
        rs is Ok <==> rt is Ok,
        rs is Ok ==> rs == rt,
        rs is Err <==> template_of(lowercase_of(s)) is None,
        rs matches Err(CliError::TemplateNotFound(m)) ==> m@ == s,
{
}

impl std::str::FromStr for ProjectTemplate {
    type Err = CliError;

    /// Select a template by name, ignoring case.
    fn from_str(s: &str) -> (r: Result<Self, Self::Err>)
        ensures
            template_result(lowercase_of(s@), s@, r),
    {
        ProjectTemplate::from_str(s)
    }
}

// ──────────────────────────────────────────────────────────────
// Project names
// ──────────────────────────────────────────────────────────────

/// Whether `char::is_alphabetic` holds of `c`.
pub uninterp spec fn alphabetic(c: char) -> bool;

/// Whether `char::is_alphanumeric` holds of `c`.
pub uninterp spec fn alphanumeric(c: char) -> bool;

/// Unicode `Alphabetic` (`char::is_alphabetic`).
#[verifier::external_body]
fn char_is_alphabetic(c: char) -> (b: bool)
    ensures
        b == alphabetic(c),
{
    c.is_alphabetic()
}

/// Unicode `Alphabetic` or `Numeric` (`char::is_alphanumeric`).
#[verifier::external_body]
fn char_is_alphanumeric(c: char) -> (b: bool)
    ensures
        b == alphanumeric(c),
{
    c.is_alphanumeric()
}

/// `"empty name"`.
pub open spec fn empty_name_text() -> Seq<char> {
    "empty name"@
}

/// `"name cannot contain whitespace"`.
pub open spec fn whitespace_name_text() -> Seq<char> {
    "name cannot contain whitespace"@
}

/// `"name must start with a letter"`.
pub open spec fn letter_start_text() -> Seq<char> {
    "name must start with a letter"@
}

/// `"name can only contain letters, digits, underscores, and hyphens"`.
pub open spec fn allowed_chars_text() -> Seq<char> {
    "name can only contain letters, digits, underscores, and hyphens"@
}

/// What is wrong with the project name `n`, given which of its characters
/// are alphabetic (`alpha`) and alphanumeric (`alnum`); `None` when the
/// name is acceptable.
pub open spec fn name_problem(n: Seq<char>, alpha: Seq<bool>, alnum: Seq<bool>) -> Option<Seq<char>> {
    if n.len() == 0 {
        Some(empty_name_text())
    } else if n.contains(' ') || n.contains('\t') {
        Some(whitespace_name_text())
    } else if !alpha[0] {
        Some(letter_start_text())
    } else if exists|i: int| 0 <= i < n.len() && !(alnum[i] || n[i] == '_' || n[i] == '-') {
        Some(allowed_chars_text())
    } else {
        None
    }
}

/// The classification of each character by `f`.
pub open spec fn classify(n: Seq<char>, f: spec_fn(char) -> bool) -> Seq<bool> {
    Seq::new(n.len(), |i: int| f(n[i]))
}

/// The outcome of checking a name with problem `p`.
pub open spec fn check_result(p: Option<Seq<char>>, r: Result<(), CliError>) -> bool {
    match p {
        None => r is Ok,
        Some(m) => r matches Err(CliError::InvalidProjectName(x)) && x@ == m,
    }
}

/// Check a project name, given the alphabetic and alphanumeric
/// classification of each of its characters.
pub fn check_project_name(name: &str, alpha: &Vec<bool>, alnum: &Vec<bool>) -> (r: Result<(), CliError>)
    requires
        alpha@.len() == name@.len(),
        alnum@.len() == name@.len(),
    ensures
        check_result(name_problem(name@, alpha@, alnum@), r),
{
    let v = chars_of(name);
    if v.len() == 0 {
        return Err(CliError::InvalidProjectName(string_from("empty name")));
    }
    let mut i: usize = 0;
    while i < v.len()
        invariant
            v@ == name@,
            i <= v@.len(),
            forall|k: int| 0 <= k < i ==> v@[k] != ' ' && v@[k] != '\t',
        decreases v@.len() - i,
    {
        if v[i] == ' ' || v[i] == '\t' {
            proof {
                if v@[i as int] == ' ' {
                    assert(name@.contains(' '));
                } else {
                    assert(name@.contains('\t'));
                }
            }
            return Err(CliError::InvalidProjectName(string_from("name cannot contain whitespace")));
        }
        i = i + 1;
    }
    proof {
        assert(!name@.contains(' ') && !name@.contains('\t'));
    }
    if !alpha[0] {
        return Err(CliError::InvalidProjectName(string_from("name must start with a letter")));
    }
    let mut j: usize = 0;
    while j < v.len()
        invariant
            v@ == name@,
            alnum@.len() == name@.len(),
            alpha@.len() == name@.len(),
            name@.len() > 0,
            alpha@[0],
            !name@.contains(' ') && !name@.contains('\t'),
            j <= v@.len(),
            forall|k: int| 0 <= k < j ==> alnum@[k] || v@[k] == '_' || v@[k] == '-',
        decreases v@.len() - j,
    {
        if !(alnum[j] || v[j] == '_' || v[j] == '-') {
            proof {
                assert(!(alnum@[j as int] || name@[j as int] == '_' || name@[j as int] == '-'));
                assert(exists|k: int| 0 <= k < name@.len() && !(alnum@[k] || name@[k] == '_' || name@[k] == '-'));
            }
            return Err(
                CliError::InvalidProjectName(
                    string_from("name can only contain letters, digits, underscores, and hyphens"),
                ),
            );
        }
        j = j + 1;
    }
    Ok(())
}

/// Check a project name: non-empty, no spaces or tabs, starting with a
/// letter, and made of letters, digits, underscores and hyphens.
pub fn validate_project_name(name: &str) -> (r: Result<(), CliError>)
    ensures
        check_result(
            name_problem(name@, classify(name@, |c: char| alphabetic(c)), classify(name@, |c: char| alphanumeric(c))),
            r,
        ),
{
    let v = chars_of(name);
    let mut alpha: Vec<bool> = Vec::new();
    let mut alnum: Vec<bool> = Vec::new();
    let mut i: usize = 0;
    while i < v.len()
        invariant
            v@ == name@,
            i <= v@.len(),
            alpha@ == classify(name@, |c: char| alphabetic(c)).subrange(0, i as int),
            alnum@ == classify(name@, |c: char| alphanumeric(c)).subrange(0, i as int),
        decreases v@.len() - i,
    {
        alpha.push(char_is_alphabetic(v[i]));
        alnum.push(char_is_alphanumeric(v[i]));
        proof {
            assert(alpha@ =~= classify(name@, |c: char| alphabetic(c)).subrange(0, i + 1));
            assert(alnum@ =~= classify(name@, |c: char| alphanumeric(c)).subrange(0, i + 1));
        }
        i = i + 1;
    }
    proof {
        assert(alpha@ =~= classify(name@, |c: char| alphabetic(c)));
        assert(alnum@ =~= classify(name@, |c: char| alphanumeric(c)));
    }
    check_project_name(name, &alpha, &alnum)
}

// ──────────────────────────────────────────────────────────────
// CLI arguments
// ──────────────────────────────────────────────────────────────

/// Parsed CLI arguments.
#[derive(Debug)]
pub struct CliArgs {
    pub command: String,
    pub project_name: Option<String>,
    pub template: Option<ProjectTemplate>,
    pub release: bool,
    pub features: Vec<String>,
    pub verbose: bool,
    pub target_dir: Option<String>,
}

/// What parsed arguments say, as plain text.
pub struct ArgsModel {
    pub command: Seq<char>,
    pub project_name: Option<Seq<char>>,
    pub template: Option<ProjectTemplate>,
    pub release: bool,
    pub features: Seq<Seq<char>>,
    pub verbose: bool,
    pub target_dir: Option<Seq<char>>,
}

/// Why parsing failed.
pub enum ParseFailure {
    /// A `ParseError` with this message.
    Parse(Seq<char>),
    /// A `TemplateNotFound` for this name.
    Template(Seq<char>),
}

/// The text of an optional string.
pub open spec fn opt_text(o: Option<String>) -> Option<Seq<char>> {
    match o {
        Some(s) => Some(s@),
        None => None,
    }
}

/// The texts of a list of strings.
pub open spec fn texts(v: Seq<String>) -> Seq<Seq<char>> {
    v.map_values(|s: String| s@)
}

/// The comma-separated pieces of `s`, each without surrounding white space.
pub open spec fn feature_list(s: Seq<char>) -> Seq<Seq<char>> {
    split_seq(s, ',').map_values(|p: Seq<char>| trim_seq(p))
}

/// Arguments with only the command set.
pub open spec fn initial_model(command: Seq<char>) -> ArgsModel {
    ArgsModel {
        command,
        project_name: None,
        template: None,
        release: false,
        features: Seq::empty(),
        verbose: false,
        target_dir: None,
    }
}

/// Reading the options `a[i..]` into `acc`.
pub open spec fn parse_options(a: Seq<Seq<char>>, i: nat, acc: ArgsModel) -> Result<ArgsModel, ParseFailure>
    decreases a.len() - i,
{
    if i >= a.len() {
        Ok(acc)
    } else {
        let arg = a[i as int];
        if arg == "--release"@ || arg == "-r"@ {
            parse_options(a, i + 1, ArgsModel { release: true, ..acc })
        } else if arg == "--template"@ || arg == "-t"@ {
            if i + 1 >= a.len() {
                Err(ParseFailure::Parse("missing template value"@))
            } else {
                match template_of(lowercase_of(a[i + 1 as int])) {
                    Some(t) => parse_options(a, i + 2, ArgsModel { template: Some(t), ..acc }),
                    None => Err(ParseFailure::Template(a[i + 1 as int])),
                }
            }
        } else if arg == "--features"@ {
            if i + 1 >= a.len() {
                Err(ParseFailure::Parse("missing features value"@))
            } else {
                parse_options(a, i + 2, ArgsModel { features: feature_list(a[i + 1 as int]), ..acc })
            }
        } else if arg == "--verbose"@ || arg == "-v"@ {
            parse_options(a, i + 1, ArgsModel { verbose: true, ..acc })
        } else if arg == "--target-dir"@ {
            if i + 1 >= a.len() {
                Err(ParseFailure::Parse("missing target-dir value"@))
            } else {
                parse_options(a, i + 2, ArgsModel { target_dir: Some(a[i + 1 as int]), ..acc })
            }
        } else if acc.project_name is None && !(arg.len() > 0 && arg[0] == '-') {
            parse_options(a, i + 1, ArgsModel { project_name: Some(arg), ..acc })
        } else {
            parse_options(a, i + 1, acc)
        }
    }
}

/// What parsing the argument vector `a` (program name first) gives.
pub open spec fn parse_model(a: Seq<Seq<char>>) -> Result<ArgsModel, ParseFailure> {
    if a.len() < 2 {
        Err(ParseFailure::Parse("no command provided"@))
    } else {
        parse_options(a, 2, initial_model(a[1]))
    }
}

/// Whether `r` is the outcome `m` describes.
pub open spec fn parse_result(m: Result<ArgsModel, ParseFailure>, r: Result<CliArgs, CliError>) -> bool {
    match m {
        Ok(model) => r matches Ok(args) && args.model() == model,
        Err(ParseFailure::Parse(msg)) => r matches Err(CliError::ParseError(x)) && x@ == msg,
        Err(ParseFailure::Template(t)) => r matches Err(CliError::TemplateNotFound(x)) && x@ == t,
    }
}

/// Once the verbose flag is set, reading further options never clears it.
proof fn lemma_verbose_stays(a: Seq<Seq<char>>, i: nat, acc: ArgsModel)
    requires
        acc.verbose,
    ensures
        parse_options(a, i, acc) matches Ok(m) ==> m.verbose,
    decreases a.len() - i,
{
    if i < a.len() {
        let arg = a[i as int];
        if arg == "--release"@ || arg == "-r"@ {
            lemma_verbose_stays(a, i + 1, ArgsModel { release: true, ..acc });
        } else if arg == "--template"@ || arg == "-t"@ {
            if i + 1 < a.len() {
                if let Some(t) = template_of(lowercase_of(a[i + 1 as int])) {
                    lemma_verbose_stays(a, i + 2, ArgsModel { template: Some(t), ..acc });
                }
            }
        } else if arg == "--features"@ {
            if i + 1 < a.len() {
                lemma_verbose_stays(a, i + 2, ArgsModel { features: feature_list(a[i + 1 as int]), ..acc });
            }
        } else if arg == "--verbose"@ || arg == "-v"@ {
            lemma_verbose_stays(a, i + 1, ArgsModel { verbose: true, ..acc });
        } else if arg == "--target-dir"@ {
            if i + 1 < a.len() {
                lemma_verbose_stays(a, i + 2, ArgsModel { target_dir: Some(a[i + 1 as int]), ..acc });
            }
        } else if acc.project_name is None && !(arg.len() > 0 && arg[0] == '-') {
            lemma_verbose_stays(a, i + 1, ArgsModel { project_name: Some(arg), ..acc });
        } else {
            lemma_verbose_stays(a, i + 1, acc);
        }
    }
}

/// `-v` is the short form of `--verbose`: wherever either is read as an
/// option, whatever came before and whatever follows, arguments that parse
/// are verbose. In particular `chronos <command> -v ...` and
/// `chronos <command> --verbose ...` parse as verbose.
pub proof fn short_verbose_flag_sets_verbose(a: Seq<Seq<char>>, i: nat, acc: ArgsModel)
    requires
        i < a.len(),
        a[i as int] == "-v"@ || a[i as int] == "--verbose"@,
    ensures
        parse_options(a, i, acc) matches Ok(m) ==> m.verbose,
        i == 2 ==> (parse_model(a) matches Ok(m) ==> m.verbose),
{
    reveal_strlit("-v");
    reveal_strlit("--verbose");
    reveal_strlit("--release");
    reveal_strlit("-r");
    reveal_strlit("--template");
    reveal_strlit("-t");
    reveal_strlit("--features");
    assert("-v"@.len() == 2 && "-r"@.len() == 2 && "-t"@.len() == 2);
    assert("--verbose"@.len() == 9 && "--release"@.len() == 9);
    assert("--template"@.len() == 10 && "--features"@.len() == 10);
    assert("-v"@ != "-r"@) by {
        assert("-v"@[1] != "-r"@[1]);
    }
    assert("-v"@ != "-t"@) by {
        assert("-v"@[1] != "-t"@[1]);
    }
    assert("--verbose"@ != "--release"@) by {
        assert("--verbose"@[2] != "--release"@[2]);
    }
    assert(a[i as int] != "--release"@ && a[i as int] != "-r"@);
    assert(a[i as int] != "--template"@ && a[i as int] != "-t"@);
    assert(a[i as int] != "--features"@);
    lemma_verbose_stays(a, i + 1, ArgsModel { verbose: true, ..acc });
    if i == 2 {
        lemma_verbose_stays(a, 3, ArgsModel { verbose: true, ..initial_model(a[1]) });
    }
}

proof fn lemma_release_stays(a: Seq<Seq<char>>, i: nat, acc: ArgsModel)
    requires
        acc.release,
    ensures
        parse_options(a, i, acc) matches Ok(m) ==> m.release,
    decreases a.len() - i,
{
    if i < a.len() {
        let arg = a[i as int];
        if arg == "--release"@ || arg == "-r"@ {
            lemma_release_stays(a, i + 1, ArgsModel { release: true, ..acc });
        } else if arg == "--template"@ || arg == "-t"@ {
            if i + 1 < a.len() {
                if let Some(t) = template_of(lowercase_of(a[i + 1 as int])) {
                    lemma_release_stays(a, i + 2, ArgsModel { template: Some(t), ..acc });
                }
            }
        } else if arg == "--features"@ {
            if i + 1 < a.len() {
                lemma_release_stays(a, i + 2, ArgsModel { features: feature_list(a[i + 1 as int]), ..acc });
            }
        } else if arg == "--verbose"@ || arg == "-v"@ {
            lemma_release_stays(a, i + 1, ArgsModel { verbose: true, ..acc });
        } else if arg == "--target-dir"@ {
            if i + 1 < a.len() {
                lemma_release_stays(a, i + 2, ArgsModel { target_dir: Some(a[i + 1 as int]), ..acc });
            }
        } else if acc.project_name is None && !(arg.len() > 0 && arg[0] == '-') {
            lemma_release_stays(a, i + 1, ArgsModel { project_name: Some(arg), ..acc });
        } else {
            lemma_release_stays(a, i + 1, acc);
        }
    }
}

/// `-r` is the short form of `--release`: wherever either is read as an
/// option, arguments that parse ask for a release build.
pub proof fn short_release_flag_sets_release(a: Seq<Seq<char>>, i: nat, acc: ArgsModel)
    requires
        i < a.len(),
        a[i as int] == "-r"@ || a[i as int] == "--release"@,
    ensures
        parse_options(a, i, acc) matches Ok(m) ==> m.release,
        i == 2 ==> (parse_model(a) matches Ok(m) ==> m.release),
{
    lemma_release_stays(a, i + 1, ArgsModel { release: true, ..acc });
    if i == 2 {
        lemma_release_stays(a, 3, ArgsModel { release: true, ..initial_model(a[1]) });
    }
}

/// The pieces of a `--features` value.
pub fn features_from(value: &str) -> (v: Vec<String>)
    ensures
        texts(v@) == feature_list(value@),
{
    let pieces = split_chars(&chars_of(value), ',');
    let ghost want = feature_list(value@);
    let mut v: Vec<String> = Vec::new();
    let mut i: usize = 0;
    while i < pieces.len()
        invariant
            i <= pieces@.len(),
            pieces@.len() == split_seq(value@, ',').len(),
            forall|k: int| 0 <= k < pieces@.len() ==> (#[trigger] pieces@[k])@ == split_seq(value@, ',')[k],
            want == feature_list(value@),
            texts(v@) == want.subrange(0, i as int),
        decreases pieces@.len() - i,
    {
        let t = trim_chars(&pieces[i]);
        let ghost vb = v@;
        v.push(string_from_chars(&t));
        proof {
            assert(texts(vb).len() == vb.len());
            assert(want.len() == pieces@.len());
            assert(vb.len() == i);
            assert(v@.len() == i + 1);
            assert(pieces@[i as int]@ == split_seq(value@, ',')[i as int]);
            assert(want[i as int] == trim_seq(split_seq(value@, ',')[i as int]));
            assert(texts(v@)[i as int] == v@[i as int]@);
            assert forall|k: int| 0 <= k < i implies texts(v@)[k] == want[k] by {
                assert(v@[k] == vb[k]);
                assert(texts(vb)[k] == want.subrange(0, i as int)[k]);
            }
            assert(texts(v@) =~= want.subrange(0, i + 1));
        }
        i = i + 1;
    }
    proof {
        assert(want.subrange(0, pieces@.len() as int) =~= want);
    }
    v
}

impl CliArgs {
    /// What these arguments say, as plain text.
    pub open spec fn model(&self) -> ArgsModel {
        ArgsModel {
            command: self.command@,
            project_name: opt_text(self.project_name),
            template: self.template,
            release: self.release,
            features: texts(self.features@),
            verbose: self.verbose,
            target_dir: opt_text(self.target_dir),
        }
    }

    /// Parse a raw argument vector (program name first, then the command,
    /// then options).
    pub fn parse(args: &[String]) -> (r: Result<Self, CliError>)
        ensures
            parse_result(parse_model(texts(args@)), r),
    {
        let ghost a = texts(args@);
        if args.len() < 2 {
            return Err(CliError::ParseError(string_from("no command provided")));
        }
        let mut parsed = CliArgs {
            command: args[1].clone(),
            project_name: None,
            template: None,
            release: false,
            features: Vec::new(),
            verbose: false,
            target_dir: None,
        };
        proof {
            assert(parsed.model().features =~= Seq::<Seq<char>>::empty());
            assert(parsed.model() == initial_model(a[1]));
        }
        let mut i: usize = 2;
        while i < args.len()
            invariant
                a == texts(args@),
                2 <= i,
                parse_model(a) == parse_options(a, i as nat, parsed.model()),
            decreases args@.len() - i,
        {
            let arg = args[i].as_str();
            assert(arg@ == a[i as int]);
            if str_equal(arg, "--release") || str_equal(arg, "-r") {
                parsed.release = true;
                i = i + 1;
            } else if str_equal(arg, "--template") || str_equal(arg, "-t") {
                if i + 1 >= args.len() {
                    return Err(CliError::ParseError(string_from("missing template value")));
                }
                let value = args[i + 1].as_str();
                assert(value@ == a[i + 1 as int]);
                match ProjectTemplate::from_str(value) {
                    Ok(t) => parsed.template = Some(t),
                    Err(_) => return Err(CliError::TemplateNotFound(string_from(value))),
                }
                i = i + 2;
            } else if str_equal(arg, "--features") {
                if i + 1 >= args.len() {
                    return Err(CliError::ParseError(string_from("missing features value")));
                }
                let value = args[i + 1].as_str();
                assert(value@ == a[i + 1 as int]);
                parsed.features = features_from(value);
                i = i + 2;
            } else if str_equal(arg, "--verbose") || str_equal(arg, "-v") {
                parsed.verbose = true;
                i = i + 1;
            } else if str_equal(arg, "--target-dir") {
                if i + 1 >= args.len() {
                    return Err(CliError::ParseError(string_from("missing target-dir value")));
                }
                let value = args[i + 1].as_str();
                assert(value@ == a[i + 1 as int]);
                parsed.target_dir = Some(string_from(value));
                i = i + 2;
            } else {
                let dash = arg.unicode_len() > 0 && arg.get_char(0) == '-';
                if parsed.project_name.is_none() && !dash {
                    parsed.project_name = Some(string_from(arg));
                }
                i = i + 1;
            }
        }
        Ok(parsed)
    }
}

impl Default for CliArgs {
    fn default() -> (a: Self)
        ensures
            a.model() == initial_model(Seq::empty()),
    {
        let a = CliArgs {
            command: String::new(),
            project_name: None,
            template: None,
            release: false,
            features: Vec::new(),
            verbose: false,
            target_dir: None,
        };
        proof {
            assert(a.model().features =~= Seq::<Seq<char>>::empty());
        }
        a
    }
}

// ──────────────────────────────────────────────────────────────
// Project scaffolding
// ──────────────────────────────────────────────────────────────

/// The `src/main.rs` a new project starts from.
pub open spec fn main_rs_text(t: ProjectTemplate) -> Seq<char> {
    match t {
        ProjectTemplate::Empty => r#"use chronos_engine::prelude::*;

fn main() {
    println!("Hello, Chronos!");
}
"#@,
        ProjectTemplate::Platformer2D => r#"use chronos_engine::prelude::*;

fn main() {
    let mut world = World::new();
    let mut game_loop = GameLoop::new(60.0);

    // Create player
    let player = world.create_entity();
    world.add_component(player, Position { x: 0.0, y: 0.0 });
    world.add_component(player, Velocity { x: 0.0, y: 0.0 });
    world.add_component(player, Sprite { atlas: "player".into(), frame: 0 });
    world.add_component(player, Grounded(false));
    world.add_component(player, Gravity(9.8));

    game_loop.run(&mut world);
}
"#@,
        ProjectTemplate::Shooter3D => r#"use chronos_engine::prelude::*;

fn main() {
    let mut world = World::new();
    let mut game_loop = GameLoop::new(60.0);

    // Create camera
    let camera = world.create_entity();
    world.add_component(camera, Position { x: 0.0, y: 5.0, z: -10.0 });

    // Create player
    let player = world.create_entity();
    world.add_component(player, Position { x: 0.0, y: 0.0, z: 0.0 });
    world.add_component(player, Velocity { x: 0.0, y: 0.0, z: 0.0 });

    game_loop.run(&mut world);
}
"#@,
        ProjectTemplate::Rpg => r#"use chronos_engine::prelude::*;

fn main() {
    let mut world = World::new();
    let mut game_loop = GameLoop::new(60.0);

    // Spawn a hero
    let hero = world.create_entity();
    world.add_component(hero, Position { x: 0.0, y: 0.0 });
    world.add_component(hero, Health { current: 100, max: 100 });
    world.add_component(hero, Sprite { atlas: "hero".into(), frame: 0 });

    game_loop.run(&mut world);
}
"#@,
    }
}

fn main_rs_source(t: ProjectTemplate) -> (s: &'static str)
    ensures
        s@ == main_rs_text(t),
{
    match t {
        ProjectTemplate::Empty => r#"use chronos_engine::prelude::*;

fn main() {
    println!("Hello, Chronos!");
}
"#,
        ProjectTemplate::Platformer2D => r#"use chronos_engine::prelude::*;

fn main() {
    let mut world = World::new();
    let mut game_loop = GameLoop::new(60.0);

    // Create player
    let player = world.create_entity();
    world.add_component(player, Position { x: 0.0, y: 0.0 });
    world.add_component(player, Velocity { x: 0.0, y: 0.0 });
    world.add_component(player, Sprite { atlas: "player".into(), frame: 0 });
    world.add_component(player, Grounded(false));
    world.add_component(player, Gravity(9.8));

    game_loop.run(&mut world);
}
"#,
        ProjectTemplate::Shooter3D => r#"use chronos_engine::prelude::*;

fn main() {
    let mut world = World::new();
    let mut game_loop = GameLoop::new(60.0);

    // Create camera
    let camera = world.create_entity();
    world.add_component(camera, Position { x: 0.0, y: 5.0, z: -10.0 });

    // Create player
    let player = world.create_entity();
    world.add_component(player, Position { x: 0.0, y: 0.0, z: 0.0 });
    world.add_component(player, Velocity { x: 0.0, y: 0.0, z: 0.0 });

    game_loop.run(&mut world);
}
"#,
        ProjectTemplate::Rpg => r#"use chronos_engine::prelude::*;

fn main() {
    let mut world = World::new();
    let mut game_loop = GameLoop::new(60.0);

    // Spawn a hero
    let hero = world.create_entity();
    world.add_component(hero, Position { x: 0.0, y: 0.0 });
    world.add_component(hero, Health { current: 100, max: 100 });
    world.add_component(hero, Sprite { atlas: "hero".into(), frame: 0 });

    game_loop.run(&mut world);
}
"#,
    }
}

/// The `src/main.rs` a new project starts from.
pub fn generate_main_rs(template: ProjectTemplate) -> (s: String)
    ensures
        s@ == main_rs_text(template),
{
    string_from(main_rs_source(template))
}

/// The `Cargo.toml` of a new project named `name`.
pub open spec fn cargo_toml_text(name: Seq<char>) -> Seq<char> {
    "[package]\nname = \""@ + name + "\"\nversion = \"0.1.0\"\nedition = \"2021\"\n\n[dependencies]\nchronos-engine = { version = \"1.0\", features = [\"full\"] }\n"@
}

/// The `Cargo.toml` of a new project named `name`.
pub fn cargo_toml(name: &str) -> (s: String)
    ensures
        s@ == cargo_toml_text(name@),
{
    let mut s = string_from("[package]\nname = \"");
    s.append(name);
    s.append("\"\nversion = \"0.1.0\"\nedition = \"2021\"\n\n[dependencies]\nchronos-engine = { version = \"1.0\", features = [\"full\"] }\n");
    s
}

/// The `README.md` of a new project named `name`.
pub open spec fn readme_text(name: Seq<char>) -> Seq<char> {
    "# "@ + name + "\n\nA Chronos Engine game.\n\n## Build\n\n```bash\nchronos build\n```\n\n## Run\n\n```bash\nchronos run\n```\n"@
}

/// The `README.md` of a new project named `name`.
pub fn readme(name: &str) -> (s: String)
    ensures
        s@ == readme_text(name@),
{
    let mut s = string_from("# ");
    s.append(name);
    s.append("\n\nA Chronos Engine game.\n\n## Build\n\n```bash\nchronos build\n```\n\n## Run\n\n```bash\nchronos run\n```\n");
    s
}

/// The `.gitignore` of a new project.
pub fn gitignore() -> (s: &'static str)
    ensures
        s@ == "/target\n*.lock\nassets/.cache\nassets/.thumbnails\n*.meta\n"@,
{
    "/target\n*.lock\nassets/.cache\nassets/.thumbnails\n*.meta\n"
}

/// The `scenes/main.scene` of a new project.
pub fn default_scene() -> (s: &'static str)
    ensures
        s@ == "{\n  \"name\": \"main\",\n  \"entities\": []\n}"@,
{
    "{\n  \"name\": \"main\",\n  \"entities\": []\n}"
}

/// The directories of a new project, relative to its root, parents first.
pub fn project_directories() -> (v: Vec<&'static str>)
    ensures
        v@.map_values(|d: &str| d@) == seq![
            "assets"@,
            "assets/images"@,
            "assets/audio"@,
            "assets/fonts"@,
            "assets/models"@,
            "assets/scripts"@,
            "src"@,
            "scenes"@,
        ],
{
    let v = vec![
        "assets",
        "assets/images",
        "assets/audio",
        "assets/fonts",
        "assets/models",
        "assets/scripts",
        "src",
        "scenes",
    ];
    proof {
        assert(v@.map_values(|d: &str| d@) =~= seq![
            "assets"@,
            "assets/images"@,
            "assets/audio"@,
            "assets/fonts"@,
            "assets/models"@,
            "assets/scripts"@,
            "src"@,
            "scenes"@,
        ]);
    }
    v
}

// ──────────────────────────────────────────────────────────────
// Cargo invocations
// ──────────────────────────────────────────────────────────────

/// `parts` joined with `,`.
pub open spec fn comma_joined(parts: Seq<Seq<char>>) -> Seq<char>
    decreases parts.len(),
{
    if parts.len() == 0 {
        Seq::empty()
    } else if parts.len() == 1 {
        parts[0]
    } else {
        comma_joined(parts.drop_last()) + seq![','] + parts.last()
    }
}

/// `parts` joined with `,` (`[String]::join`).
pub fn join_commas(parts: &Vec<String>) -> (s: String)
    ensures
        s@ == comma_joined(texts(parts@)),
{
    let mut s = String::new();
    let mut i: usize = 0;
    while i < parts.len()
        invariant
            i <= parts@.len(),
            s@ == comma_joined(texts(parts@).subrange(0, i as int)),
        decreases parts@.len() - i,
    {
        let ghost pre = texts(parts@).subrange(0, i as int);
        let ghost post = texts(parts@).subrange(0, i + 1);
        proof {
            assert(post.drop_last() =~= pre);
            assert(post.last() == parts@[i as int]@);
        }
        if i > 0 {
            s.append(",");
        }
        s.append(parts[i].as_str());
        proof {
            reveal_strlit(",");
            if i == 0 {
                assert(post =~= seq![parts@[0]@]);
            }
        }
        i = i + 1;
    }
    proof {
        assert(texts(parts@).subrange(0, parts@.len() as int) =~= texts(parts@));
    }
    s
}

/// The arguments of `cargo <sub>`: `--release` when asked for, the
/// features comma-joined after `--features` when there are any, and
/// `--verbose` when asked for.
pub open spec fn cargo_args_text(sub: Seq<char>, release: bool, features: Seq<Seq<char>>, verbose: bool) -> Seq<Seq<char>> {
    seq![sub] + (if release { seq!["--release"@] } else { Seq::empty() }) + (if features.len() > 0 {
        seq!["--features"@, comma_joined(features)]
    } else {
        Seq::empty()
    }) + (if verbose { seq!["--verbose"@] } else { Seq::empty() })
}

/// The arguments given to cargo for the subcommand `sub`.
pub fn cargo_args(sub: &str, release: bool, features: &Vec<String>, verbose: bool) -> (v: Vec<String>)
    ensures
        texts(v@) == cargo_args_text(sub@, release, texts(features@), verbose),
{
    let mut v: Vec<String> = Vec::new();
    v.push(string_from(sub));
    if release {
        v.push(string_from("--release"));
    }
    if features.len() > 0 {
        v.push(string_from("--features"));
        v.push(join_commas(features));
    }
    if verbose {
        v.push(string_from("--verbose"));
    }
    proof {
        assert(texts(v@) =~= cargo_args_text(sub@, release, texts(features@), verbose));
    }
    v
}

/// The directory a project named `name` is packaged into.
pub fn dist_dir_name(name: &str) -> (s: String)
    ensures
        s@ == name@ + "-dist"@,
{
    let mut s = string_from(name);
    s.append("-dist");
    s
}

/// The executable's file name: with `.exe` on Windows.
pub fn exe_name(name: &str, windows: bool) -> (s: String)
    ensures
        windows ==> s@ == name@ + ".exe"@,
        !windows ==> s@ == name@,
{
    let mut s = string_from(name);
    if windows {
        s.append(".exe");
    }
    s
}

/// Where cargo leaves the executable.
pub fn exe_source(release: bool, exe: &str) -> (s: String)
    ensures
        release ==> s@ == "target/release/"@ + exe@,
        !release ==> s@ == "target/debug/"@ + exe@,
{
    let mut s = if release {
        string_from("target/release/")
    } else {
        string_from("target/debug/")
    };
    s.append(exe);
    s
}

// ──────────────────────────────────────────────────────────────
// Reading the package name
// ──────────────────────────────────────────────────────────────

/// The first position at or after `from` where `t` holds `c`.
pub open spec fn first_index(t: Seq<char>, c: char, from: int) -> Option<int>
    decreases t.len() - from,
{
    if from < 0 || from >= t.len() {
        None
    } else if t[from] == c {
        Some(from)
    } else {
        first_index(t, c, from + 1)
    }
}

/// The text between the first two double quotes of `t`, if it has two.
pub open spec fn quoted_value(t: Seq<char>) -> Option<Seq<char>> {
    match first_index(t, '"', 0) {
        Some(q1) => match first_index(t, '"', q1 + 1) {
            Some(q2) => Some(t.subrange(q1 + 1, q2)),
            None => None,
        },
        None => None,
    }
}

/// Whether `t` starts with `p`.
pub open spec fn starts_with(t: Seq<char>, p: Seq<char>) -> bool {
    t.len() >= p.len() && t.subrange(0, p.len() as int) == p
}

/// The package name found in the trimmed lines `lines[i..]`, `in_pkg`
/// telling whether the `[package]` table is open.
pub open spec fn package_name_in(lines: Seq<Seq<char>>, i: nat, in_pkg: bool) -> Option<Seq<char>>
    decreases lines.len() - i,
{
    if i >= lines.len() {
        None
    } else {
        let t = lines[i as int];
        if t == "[package]"@ {
            package_name_in(lines, i + 1, true)
        } else if t.len() > 0 && t[0] == '[' && t.last() == ']' {
            package_name_in(lines, i + 1, false)
        } else if in_pkg && starts_with(t, "name"@) && quoted_value(t) is Some {
            quoted_value(t)
        } else {
            package_name_in(lines, i + 1, in_pkg)
        }
    }
}

/// The lines of `text` without surrounding white space (a line's `\r`
/// before its `\n` is white space too).
pub open spec fn trimmed_lines(text: Seq<char>) -> Seq<Seq<char>> {
    split_seq(text, '\n').map_values(|p: Seq<char>| trim_seq(p))
}

/// The package name a `Cargo.toml` gives: the quoted value of the first
/// `name` line inside `[package]`, or `unknown`.
pub open spec fn package_name_text(text: Seq<char>) -> Seq<char> {
    match package_name_in(trimmed_lines(text), 0, false) {
        Some(n) => n,
        None => "unknown"@,
    }
}

fn first_index_exec(t: &Vec<char>, c: char, from: usize) -> (r: Option<usize>)
    ensures
        match r {
            Some(k) => first_index(t@, c, from as int) == Some(k as int),
            None => first_index(t@, c, from as int) is None,
        },
        r matches Some(k) ==> from <= k < t@.len() && t@[k as int] == c,
{
    let mut i = from;
    while i < t.len()
        invariant
            from <= i,
            first_index(t@, c, from as int) == first_index(t@, c, i as int),
        decreases t@.len() - i,
    {
        if t[i] == c {
            return Some(i);
        }
        i = i + 1;
    }
    None
}

fn seq_equals_str(t: &Vec<char>, lit: &str) -> (b: bool)
    ensures
        b == (t@ == lit@),
{
    let l = chars_of(lit);
    crate::text::chars_equal(t, &l)
}

fn starts_with_exec(t: &Vec<char>, lit: &str) -> (b: bool)
    ensures
        b == starts_with(t@, lit@),
{
    let p = chars_of(lit);
    if p.len() > t.len() {
        return false;
    }
    let mut i: usize = 0;
    while i < p.len()
        invariant
            p@ == lit@,
            p@.len() <= t@.len(),
            i <= p@.len(),
            forall|k: int| 0 <= k < i ==> t@[k] == p@[k],
        decreases p@.len() - i,
    {
        if t[i] != p[i] {
            proof {
                assert(t@.subrange(0, p@.len() as int)[i as int] != p@[i as int]);
            }
            return false;
        }
        i = i + 1;
    }
    proof {
        assert(t@.subrange(0, p@.len() as int) =~= p@);
    }
    true
}

/// Read the package name out of a `Cargo.toml`.
pub fn package_name(text: &str) -> (s: String)
    ensures
        s@ == package_name_text(text@),
{
    let pieces = split_chars(&chars_of(text), '\n');
    let ghost lines = trimmed_lines(text@);
    let mut in_pkg = false;
    let mut i: usize = 0;
    while i < pieces.len()
        invariant
            i <= pieces@.len(),
            pieces@.len() == split_seq(text@, '\n').len(),
            forall|k: int| 0 <= k < pieces@.len() ==> (#[trigger] pieces@[k])@ == split_seq(text@, '\n')[k],
            lines == trimmed_lines(text@),
            package_name_in(lines, 0, false) == package_name_in(lines, i as nat, in_pkg),
        decreases pieces@.len() - i,
    {
        let t = trim_chars(&pieces[i]);
        proof {
            assert(lines[i as int] == trim_seq(split_seq(text@, '\n')[i as int]));
            assert(t@ == lines[i as int]);
        }
        if seq_equals_str(&t, "[package]") {
            in_pkg = true;
            i = i + 1;
            continue;
        }
        if t.len() > 0 && t[0] == '[' && t[t.len() - 1] == ']' {
            in_pkg = false;
            i = i + 1;
            continue;
        }
        if in_pkg && starts_with_exec(&t, "name") {
            if let Some(q1) = first_index_exec(&t, '"', 0) {
                if let Some(q2) = first_index_exec(&t, '"', q1 + 1) {
                    let mut name: Vec<char> = Vec::new();
                    let mut j = q1 + 1;
                    while j < q2
                        invariant
                            q1 + 1 <= j <= q2,
                            q2 <= t@.len(),
                            name@ == t@.subrange(q1 + 1, j as int),
                        decreases q2 - j,
                    {
                        name.push(t[j]);
                        proof {
                            assert(name@ =~= t@.subrange(q1 + 1, j + 1));
                        }
                        j = j + 1;
                    }
                    return string_from_chars(&name);
                }
            }
        }
        i = i + 1;
    }
    string_from("unknown")
}

} // verus!
