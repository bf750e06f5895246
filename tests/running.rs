use pier::config::{Config, ConfigDefaultOpts};
use pier::defaults::{config_candidates, fallback_path, fallback_shell};
use pier::facade::Pier;
use pier::listing::{join_tags, render_rows, ScriptRow};
use pier::script::{Invocation, Script};
use pier::PierError;

fn script(alias: &str, command: &str, tags: Option<Vec<&str>>) -> Script {
    Script {
        alias: alias.to_string(),
        command: command.to_string(),
        description: None,
        reference: None,
        tags: tags.map(|t| t.iter().map(|s| s.to_string()).collect()),
    }
}

fn pier_with(scripts: Vec<Script>, default: ConfigDefaultOpts) -> Pier {
    let entries = scripts.into_iter().map(|s| (s.alias.clone(), s)).collect();
    Pier::from_config(Config::from_parsed(entries, default), "pier.toml".to_string(), false)
}

fn no_defaults() -> ConfigDefaultOpts {
    ConfigDefaultOpts { interpreter: None, command_width: None }
}

fn strings(v: &[&str]) -> Vec<String> {
    v.iter().map(|s| s.to_string()).collect()
}

#[test]
fn shebang_detection() {
    assert!(script("a", "#!/bin/sh\nexit 0", None).has_shebang());
    assert!(script("a", "#!", None).has_shebang());
    assert!(!script("a", "", None).has_shebang());
    assert!(!script("a", "#", None).has_shebang());
    assert!(!script("a", "echo #!", None).has_shebang());
    assert!(!script("a", "\n#!/bin/sh", None).has_shebang());
}

#[test]
fn display_cuts_the_first_line_to_the_width() {
    let line = "abcdefghijklmnopqrstuvwxyz0123";
    assert_eq!(line.chars().count(), 30);
    let s = script("a", line, None);
    assert_eq!(s.display_command(false, 20), "abcdefghijklmnopqrst");
    assert_eq!(s.display_command(true, 20), line);
}

#[test]
fn display_full_ignores_the_width() {
    let text = "first line that is long\nsecond line\nthird";
    let s = script("a", text, None);
    assert_eq!(s.display_command(true, 3), text);
    assert_eq!(s.display_command(false, 3), "fir");
    assert_eq!(s.display_command(false, 100), "first line that is long");
}

#[test]
fn display_counts_characters_not_bytes() {
    let s = script("a", "héllo wörld", None);
    assert_eq!(s.display_command(false, 5), "héllo");
    let exact = script("a", "abc", None);
    assert_eq!(exact.display_command(false, 3), "abc");
    assert_eq!(exact.display_command(false, 0), "");
}

#[test]
fn display_drops_the_line_ending() {
    let s = script("a", "one\r\ntwo", None);
    assert_eq!(s.display_command(false, 80), "one");
    let empty = script("a", "", None);
    assert_eq!(empty.display_command(false, 80), "");
    let blank_first = script("a", "\nsecond", None);
    assert_eq!(blank_first.display_command(false, 80), "");
}

#[test]
fn shebang_script_runs_as_an_executable() {
    let exits = script("test_exit_with_100", "#!/bin/sh\nexit 100\n", None);
    let lib = pier_with(vec![exits], no_defaults());
    match lib.invocation("test_exit_with_100", strings(&["x"]), None).unwrap() {
        Invocation::Executable { file_name, contents, args } => {
            assert_eq!(file_name, "test_exit_with_100");
            assert_eq!(contents, "#!/bin/sh\nexit 100\n");
            assert_eq!(args, strings(&["x"]));
        }
        Invocation::Inline { .. } => panic!("expected an executable"),
    }
}

#[test]
fn inline_script_passes_command_alias_and_args() {
    let s = script("inline-with-args", "echo \"$1--$2\"", None);
    let interpreter = strings(&["sh", "-c"]);
    match s.inline_invocation(&interpreter, strings(&["Hello!", "Hi."])).unwrap() {
        Invocation::Inline { program, args } => {
            assert_eq!(program, "sh");
            assert_eq!(
                args,
                strings(&["-c", "echo \"$1--$2\"", "inline-with-args", "Hello!", "Hi."])
            );
        }
        Invocation::Executable { .. } => panic!("expected inline"),
    }
}

#[test]
fn inline_with_empty_interpreter_cannot_start() {
    let s = script("a", "echo a", None);
    assert!(matches!(
        s.inline_invocation(&Vec::new(), Vec::new()),
        Err(PierError::CommandExec { .. })
    ));
}

#[test]
fn run_uses_the_registry_interpreter_first() {
    let default = ConfigDefaultOpts {
        interpreter: Some(strings(&["python3", "-c"])),
        command_width: None,
    };
    let lib = pier_with(vec![script("p", "print(1)", None)], default);
    match lib.invocation("p", Vec::new(), Some("/bin/zsh".to_string())).unwrap() {
        Invocation::Inline { program, args } => {
            assert_eq!(program, "python3");
            assert_eq!(args, strings(&["-c", "print(1)", "p"]));
        }
        Invocation::Executable { .. } => panic!("expected inline"),
    }
}

#[test]
fn run_falls_back_to_the_shell() {
    let lib = pier_with(vec![script("e", "echo hi", None)], no_defaults());
    match lib.invocation("e", strings(&["1"]), Some("/bin/bash".to_string())).unwrap() {
        Invocation::Inline { program, args } => {
            assert_eq!(program, "/bin/bash");
            assert_eq!(args, strings(&["-c", "echo hi", "e", "1"]));
        }
        Invocation::Executable { .. } => panic!("expected inline"),
    }
    match lib.invocation("e", Vec::new(), None).unwrap() {
        Invocation::Inline { program, .. } => assert_eq!(program, "/bin/sh"),
        Invocation::Executable { .. } => panic!("expected inline"),
    }
    assert!(matches!(
        lib.invocation("zzz", Vec::new(), None),
        Err(PierError::AliasNotFound { .. })
    ));
}

#[test]
fn run_with_empty_registry_interpreter_fails() {
    let default = ConfigDefaultOpts { interpreter: Some(Vec::new()), command_width: None };
    let lib = pier_with(vec![script("e", "echo hi", None)], default);
    assert!(matches!(lib.invocation("e", Vec::new(), None), Err(PierError::CommandExec { .. })));
}

#[test]
fn fallback_shell_values() {
    assert_eq!(fallback_shell(Some("/bin/zsh".to_string())), strings(&["/bin/zsh", "-c"]));
    assert_eq!(fallback_shell(None), strings(&["/bin/sh", "-c"]));
}

#[test]
fn tag_filter_lists_an_alias_once_per_matching_tag() {
    let lib = pier_with(
        vec![
            script("test_cmd_1", "echo test_1", Some(vec!["info", "echo", "grp_1"])),
            script("test_cmd_2", "echo test_2", Some(vec!["debug", "echo"])),
            script("untagged", "echo u", None),
        ],
        no_defaults(),
    );
    assert_eq!(lib.list_aliases(Some(strings(&["info"]))).unwrap(), strings(&["test_cmd_1"]));
    assert_eq!(
        lib.list_aliases(Some(strings(&["info", "echo"]))).unwrap(),
        strings(&["test_cmd_1", "test_cmd_1", "test_cmd_2"])
    );
    assert_eq!(
        lib.list_aliases(None).unwrap(),
        strings(&["test_cmd_1", "test_cmd_2", "untagged"])
    );
    assert_eq!(lib.list_aliases(Some(strings(&["none"]))).unwrap(), Vec::<String>::new());
}

#[test]
fn listing_rows() {
    let mut described = script("d", "echo a very long command indeed", Some(vec!["x", "y"]));
    described.description = Some("about it".to_string());
    let default = ConfigDefaultOpts { interpreter: None, command_width: Some(6) };
    let lib = pier_with(vec![described, script("n", "ls\nmore", None)], default);
    let rows = lib.script_rows(None, false, None).unwrap();
    assert_eq!(rows.len(), 2);
    assert_eq!(rows[0].alias, "d");
    assert_eq!(rows[0].tags, "x, y");
    assert_eq!(rows[0].description, "about it");
    assert_eq!(rows[0].command, "echo a");
    assert_eq!(rows[1].alias, "n");
    assert_eq!(rows[1].tags, "");
    assert_eq!(rows[1].description, "");
    assert_eq!(rows[1].command, "ls");
    let wide = lib.script_rows(None, false, Some(9)).unwrap();
    assert_eq!(wide[0].command, "echo a ve");
    let full = lib.script_rows(None, true, Some(2)).unwrap();
    assert_eq!(full[1].command, "ls\nmore");
    let filtered = lib.script_rows(Some(strings(&["y", "x", "z"])), false, None).unwrap();
    assert_eq!(filtered.len(), 2);
    assert_eq!(filtered[1].alias, "d");
}

#[test]
fn listing_width_falls_back_to_eighty() {
    let long: String = std::iter::repeat('x').take(100).collect();
    let lib = pier_with(vec![script("l", &long, None)], no_defaults());
    let rows = lib.script_rows(None, false, None).unwrap();
    assert_eq!(rows[0].command.chars().count(), 80);
}

#[test]
fn tags_are_joined_with_commas() {
    assert_eq!(join_tags(&strings(&["a", "b", "c"])), "a, b, c");
    assert_eq!(join_tags(&strings(&["only"])), "only");
    assert_eq!(join_tags(&Vec::new()), "");
}

#[test]
fn config_search_order() {
    let c = config_candidates(Some("/home/u/.config".to_string()), Some("/home/u/".to_string()));
    let expected = vec![
        Some("pier.toml".to_string()),
        Some("/home/u/.config/pier/config.toml".to_string()),
        Some("/home/u/.config/pier/config".to_string()),
        Some("/home/u/.config/pier.toml".to_string()),
        Some("/home/u/.pier.toml".to_string()),
        Some("/home/u/.pier".to_string()),
    ];
    assert_eq!(c, expected);
    let none = config_candidates(None, None);
    assert_eq!(none.len(), 6);
    assert!(none[1..].iter().all(|p| p.is_none()));
}

#[test]
fn fallback_path_takes_the_first_present_candidate() {
    let c = vec![Some("a".to_string()), None, Some("c".to_string()), Some("d".to_string())];
    assert_eq!(fallback_path(&c, &vec![false, true, true, true]).unwrap(), "c");
    assert!(matches!(
        fallback_path(&c, &vec![false, true, false, false]),
        Err(PierError::NoConfigFile)
    ));
}

#[test]
fn listing_is_drawn_as_a_table() {
    let mut s = script("test_cmd_1", "echo test_1", Some(vec!["info", "echo"]));
    s.description = Some("prints".to_string());
    let lib = pier_with(vec![s], no_defaults());
    let text = lib.list_scripts(None, false, None).unwrap();
    let lines: Vec<&str> = text.lines().collect();
    assert_eq!(lines.len(), 5);
    assert!(lines[0].starts_with("+-"));
    assert!(lines[1].contains("Alias"));
    assert!(lines[1].contains("Tag(s)"));
    assert!(lines[1].contains("Description"));
    assert!(lines[1].contains("Command"));
    assert!(lines[2].starts_with("+="));
    assert!(lines[3].contains("test_cmd_1"));
    assert!(lines[3].contains("info, echo"));
    assert!(lines[3].contains("prints"));
    assert!(lines[3].contains("echo test_1"));
    assert!(lines[3].starts_with("| "));
}

#[test]
fn rendering_rows_draws_every_cell() {
    let rows = vec![ScriptRow {
        alias: "a".to_string(),
        tags: "t".to_string(),
        description: "d".to_string(),
        command: "c".to_string(),
    }];
    let text = render_rows(rows);
    assert_eq!(
        text,
        "+-------+--------+-------------+---------+\n\
         | Alias | Tag(s) | Description | Command |\n\
         +=======+========+=============+=========+\n\
         | a     | t      | d           | c       |\n\
         +-------+--------+-------------+---------+\n"
    );
}

#[test]
fn rows_keep_escape_characters_and_the_table_shows_them() {
    let mut s = script("a\u{1b}b", "printf '\u{1b}[31mred'", Some(vec!["t\u{1b}"]));
    s.description = Some("\u{1b}[0m".to_string());
    let lib = pier_with(vec![s], no_defaults());
    let rows = lib.script_rows(None, true, None).unwrap();
    assert_eq!(rows[0].alias, "a\u{1b}b");
    assert_eq!(rows[0].tags, "t\u{1b}");
    assert_eq!(rows[0].description, "\u{1b}[0m");
    assert_eq!(rows[0].command, "printf '\u{1b}[31mred'");
    let text = lib.list_scripts(None, true, None).unwrap();
    assert!(text.contains("a\u{241b}b"));
    assert!(text.contains("\u{241b}[0m"));
    assert!(!text.contains('\u{1b}'));
    // Cells that would confuse the table's width check are drawn safely.
    let mut tricky = script("x", "\u{1b}[\u{644}\u{627}\u{644}\u{627}", None);
    tricky.description = Some("\u{1b}[\u{5d0}\u{200d}\u{5dc}".to_string());
    let lib = pier_with(vec![tricky], no_defaults());
    let text = lib.list_scripts(None, false, None).unwrap();
    assert!(text.contains('\u{241b}'));
    assert!(!text.contains('\u{1b}'));
}
