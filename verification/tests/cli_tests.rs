use std::str::FromStr;

use chronos_engine::cli::{
    cargo_args, cargo_toml, dist_dir_name, exe_name, exe_source, features_from, generate_main_rs,
    package_name, readme, validate_project_name, CliArgs, CliError, ProjectTemplate,
};

#[test]
fn parse_help() {
    let args = CliArgs::parse(&["chronos".into(), "help".into()]).unwrap();
    assert_eq!(args.command, "help");
}

#[test]
fn parse_new_with_template() {
    let args = CliArgs::parse(&[
        "chronos".into(),
        "new".into(),
        "my_game".into(),
        "--template".into(),
        "rpg".into(),
    ])
    .unwrap();
    assert_eq!(args.command, "new");
    assert_eq!(args.project_name, Some("my_game".into()));
    assert_eq!(args.template, Some(ProjectTemplate::Rpg));
}

#[test]
fn parse_build_release() {
    let args = CliArgs::parse(&[
        "chronos".into(),
        "build".into(),
        "--release".into(),
        "--verbose".into(),
    ])
    .unwrap();
    assert_eq!(args.command, "build");
    assert!(args.release);
    assert!(args.verbose);
}

#[test]
fn parse_features() {
    let args = CliArgs::parse(&[
        "chronos".into(),
        "run".into(),
        "--features".into(),
        "render,audio".into(),
    ])
    .unwrap();
    assert_eq!(args.features, vec!["render", "audio"]);
}

#[test]
fn validate_name_rejects_bad() {
    assert!(validate_project_name("").is_err());
    assert!(validate_project_name("hello world").is_err());
    assert!(validate_project_name("123abc").is_err());
    assert!(validate_project_name("a!b").is_err());
}

#[test]
fn validate_name_accepts_good() {
    assert!(validate_project_name("my_game").is_ok());
    assert!(validate_project_name("game-2").is_ok());
    assert!(validate_project_name("A").is_ok());
}

#[test]
fn template_from_str() {
    assert_eq!(ProjectTemplate::from_str("empty").unwrap(), ProjectTemplate::Empty);
    assert_eq!(ProjectTemplate::from_str("2d").unwrap(), ProjectTemplate::Platformer2D);
    assert_eq!(ProjectTemplate::from_str("3d").unwrap(), ProjectTemplate::Shooter3D);
    assert_eq!(ProjectTemplate::from_str("rpg").unwrap(), ProjectTemplate::Rpg);
    assert!(ProjectTemplate::from_str("unknown").is_err());
}

#[test]
fn error_display_messages() {
    let e = CliError::ProjectNotFound;
    assert!(e.to_string().contains("no Chronos project"));

    let e = CliError::InvalidProjectName("bad".into());
    assert!(e.to_string().contains("bad"));

    let e = CliError::CargoFailed { cmd: "build".into(), status: 101 };
    assert!(e.to_string().contains("101"));
}

#[test]
fn error_messages_exact() {
    assert_eq!(
        CliError::CargoFailed { cmd: "cargo test".into(), status: -1 }.to_string(),
        "cargo command failed: cargo test (exit code: -1)"
    );
    assert_eq!(CliError::TemplateNotFound("x".into()).to_string(), "template not found: x");
    assert_eq!(CliError::ParseError("no command provided".into()).to_string(), "parse error: no command provided");
    let io = CliError::from(std::io::Error::new(std::io::ErrorKind::Other, "disk"));
    assert_eq!(io.to_string(), "IO error: disk");
}

#[test]
fn template_names_ignore_case() {
    assert_eq!(ProjectTemplate::from_str("RPG").unwrap(), ProjectTemplate::Rpg);
    assert_eq!(ProjectTemplate::from_str("Platformer").unwrap(), ProjectTemplate::Platformer2D);
    assert_eq!("Shooter3D".parse::<ProjectTemplate>().unwrap(), ProjectTemplate::Shooter3D);
    match ProjectTemplate::from_str("Nope") {
        Err(CliError::TemplateNotFound(t)) => assert_eq!(t, "Nope"),
        other => panic!("unexpected {:?}", other),
    }
    assert_eq!(ProjectTemplate::Platformer2D.template_name(), "platformer2d");
    assert_eq!(ProjectTemplate::Shooter3D.display_name(), "3D Shooter");
}

#[test]
fn parse_errors() {
    match CliArgs::parse(&["chronos".into()]) {
        Err(CliError::ParseError(m)) => assert_eq!(m, "no command provided"),
        other => panic!("unexpected {:?}", other),
    }
    match CliArgs::parse(&["chronos".into(), "new".into(), "-t".into()]) {
        Err(CliError::ParseError(m)) => assert_eq!(m, "missing template value"),
        other => panic!("unexpected {:?}", other),
    }
    match CliArgs::parse(&["chronos".into(), "new".into(), "-t".into(), "mmo".into()]) {
        Err(CliError::TemplateNotFound(t)) => assert_eq!(t, "mmo"),
        other => panic!("unexpected {:?}", other),
    }
    match CliArgs::parse(&["chronos".into(), "build".into(), "--target-dir".into()]) {
        Err(CliError::ParseError(m)) => assert_eq!(m, "missing target-dir value"),
        other => panic!("unexpected {:?}", other),
    }
}

#[test]
fn parse_keeps_first_name_and_skips_unknown_flags() {
    let args = CliArgs::parse(&[
        "chronos".into(),
        "new".into(),
        "--weird".into(),
        "first".into(),
        "second".into(),
        "--target-dir".into(),
        "out".into(),
        "-r".into(),
        "--features".into(),
        " a , b ,".into(),
    ])
    .unwrap();
    assert_eq!(args.project_name, Some("first".into()));
    assert_eq!(args.target_dir, Some("out".into()));
    assert!(args.release);
    assert_eq!(args.features, vec!["a", "b", ""]);
}

#[test]
fn features_are_split_and_trimmed() {
    assert_eq!(features_from(""), vec![""]);
    assert_eq!(features_from("x"), vec!["x"]);
    assert_eq!(features_from("render audio"), vec!["render audio"]);
}

#[test]
fn validate_name_messages() {
    let msg = |n: &str| match validate_project_name(n) {
        Err(CliError::InvalidProjectName(m)) => m,
        other => panic!("unexpected {:?}", other),
    };
    assert_eq!(msg(""), "empty name");
    assert_eq!(msg("a b"), "name cannot contain whitespace");
    assert_eq!(msg("a\tb"), "name cannot contain whitespace");
    assert_eq!(msg("_x"), "name must start with a letter");
    assert_eq!(msg("a.b"), "name can only contain letters, digits, underscores, and hyphens");
    assert!(validate_project_name("émile").is_ok());
}

#[test]
fn scaffolding_texts() {
    assert!(generate_main_rs(ProjectTemplate::Empty).contains("Hello, Chronos!"));
    assert!(generate_main_rs(ProjectTemplate::Rpg).contains("Spawn a hero"));
    assert_eq!(
        cargo_toml("g"),
        "[package]\nname = \"g\"\nversion = \"0.1.0\"\nedition = \"2021\"\n\n[dependencies]\nchronos-engine = { version = \"1.0\", features = [\"full\"] }\n"
    );
    assert!(readme("g").starts_with("# g\n\nA Chronos Engine game."));
}

#[test]
fn cargo_invocations() {
    let f = vec!["render".to_string(), "audio".to_string()];
    assert_eq!(cargo_args("build", true, &f, true), vec!["build", "--release", "--features", "render,audio", "--verbose"]);
    assert_eq!(cargo_args("test", false, &Vec::new(), false), vec!["test"]);
    assert_eq!(dist_dir_name("g"), "g-dist");
    assert_eq!(exe_name("g", true), "g.exe");
    assert_eq!(exe_name("g", false), "g");
    assert_eq!(exe_source(true, "g"), "target/release/g");
    assert_eq!(exe_source(false, "g"), "target/debug/g");
}

#[test]
fn project_name_parsing() {
    let text = "[package]\nname = \"my-cool-game\"\nversion = \"0.1.0\"\n";
    assert_eq!(package_name(text), "my-cool-game");
    assert_eq!(package_name("[dependencies]\nname = \"x\"\n"), "unknown");
    assert_eq!(package_name("[lib]\n[package]\r\n  name=\"crlf\"\r\n"), "crlf");
    assert_eq!(package_name(""), "unknown");
}
