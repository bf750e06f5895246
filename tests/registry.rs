use pier::config::{Config, ConfigDefaultOpts};
use pier::facade::Pier;
use pier::script::Script;
use pier::PierError;

fn script(alias: &str, command: &str, tags: Option<Vec<&str>>) -> Script {
    Script {
        alias: alias.to_string(),
        command: command.to_string(),
        description: None,
        reference: None,
        tags: tags.map(|t| t.iter().map(|s| s.to_string()).collect()),
    }
}

fn pier_with(scripts: Vec<Script>) -> Pier {
    let entries = scripts.into_iter().map(|s| (s.alias.clone(), s)).collect();
    let default = ConfigDefaultOpts { interpreter: None, command_width: None };
    Pier::from_config(Config::from_parsed(entries, default), "pier.toml".to_string(), false)
}

fn aliases(p: &Pier) -> Vec<String> {
    p.config().scripts.iter().map(|(k, _)| k.clone()).collect()
}

#[test]
fn test_error_alias_not_found() {
    let mut lib = pier_with(vec![script("test_cmd_1", "echo test_1", None)]);
    assert!(matches!(lib.remove_script("non_existant"), Err(PierError::AliasNotFound { .. })));
    assert!(matches!(lib.fetch_script("non_existant"), Err(PierError::AliasNotFound { .. })));
}

#[test]
fn test_error_no_scripts_exists() {
    let mut lib = pier_with(vec![]);
    assert!(matches!(lib.remove_script(""), Err(PierError::NoScriptsExists)));
    assert!(matches!(lib.fetch_script(""), Err(PierError::NoScriptsExists)));
    assert!(matches!(lib.list_scripts(None, false, None), Err(PierError::NoScriptsExists)));
    assert!(matches!(lib.list_aliases(None), Err(PierError::NoScriptsExists)));
}

#[test]
fn alias_not_found_names_the_alias() {
    let lib = pier_with(vec![script("a", "echo a", None)]);
    match lib.fetch_script("zzz") {
        Err(PierError::AliasNotFound { alias }) => assert_eq!(alias, "zzz"),
        _ => panic!("expected AliasNotFound"),
    }
}

#[test]
fn add_then_fetch_gives_the_same_command() {
    let mut lib = pier_with(vec![script("a", "echo a", None)]);
    lib.add_script(script("b", "echo \"$1\" | tr a-z A-Z", None), false).unwrap();
    let got = lib.fetch_script("b").unwrap();
    assert_eq!(got.command, "echo \"$1\" | tr a-z A-Z");
    assert_eq!(aliases(&lib), vec!["a", "b"]);
}

#[test]
fn add_to_empty_registry_then_fetch() {
    let mut lib = Pier::new();
    lib.add_script(script("only", "true", None), false).unwrap();
    assert_eq!(lib.fetch_script("only").unwrap().command, "true");
}

#[test]
fn add_existing_alias_without_force_fails() {
    let mut lib = pier_with(vec![script("a", "echo a", None)]);
    match lib.add_script(script("a", "echo other", None), false) {
        Err(PierError::AliasAlreadyExists { alias }) => assert_eq!(alias, "a"),
        _ => panic!("expected AliasAlreadyExists"),
    }
    assert_eq!(lib.fetch_script("a").unwrap().command, "echo a");
}

#[test]
fn add_existing_alias_with_force_replaces() {
    let mut lib = pier_with(vec![script("a", "echo a", None), script("b", "echo b", None)]);
    lib.add_script(script("a", "echo other", None), true).unwrap();
    assert_eq!(lib.fetch_script("a").unwrap().command, "echo other");
    assert_eq!(aliases(&lib), vec!["a", "b"]);
}

#[test]
fn remove_then_fetch_is_not_found() {
    let mut lib = pier_with(vec![script("a", "echo a", None), script("b", "echo b", None)]);
    lib.remove_script("a").unwrap();
    assert!(matches!(lib.fetch_script("a"), Err(PierError::AliasNotFound { .. })));
    assert_eq!(aliases(&lib), vec!["b"]);
}

#[test]
fn remove_last_script_then_fetch_finds_no_scripts() {
    let mut lib = pier_with(vec![script("a", "echo a", None)]);
    lib.remove_script("a").unwrap();
    assert!(matches!(lib.fetch_script("a"), Err(PierError::NoScriptsExists)));
}

#[test]
fn edit_replaces_only_the_command() {
    let mut s = script("a", "echo a", Some(vec!["x"]));
    s.description = Some("desc".to_string());
    s.reference = Some("ref".to_string());
    let mut lib = pier_with(vec![s]);
    lib.edit_script("a", "echo edited".to_string()).unwrap();
    let got = lib.fetch_script("a").unwrap();
    assert_eq!(got.command, "echo edited");
    assert_eq!(got.description.as_deref(), Some("desc"));
    assert_eq!(got.reference.as_deref(), Some("ref"));
    assert_eq!(got.tags, Some(vec!["x".to_string()]));
}

#[test]
fn edit_missing_alias_fails() {
    let mut lib = pier_with(vec![script("a", "echo a", None)]);
    assert!(matches!(
        lib.edit_script("b", "x".to_string()),
        Err(PierError::AliasNotFound { .. })
    ));
    let mut empty = Pier::new();
    assert!(matches!(empty.edit_script("b", "x".to_string()), Err(PierError::NoScriptsExists)));
}

#[test]
fn copy_keeps_the_source_alias_field() {
    let mut lib = pier_with(vec![script("a", "echo a", None)]);
    lib.copy_script("a", "b").unwrap();
    let got = lib.fetch_script("b").unwrap();
    assert_eq!(got.alias, "a");
    assert_eq!(got.command, "echo a");
    assert_eq!(lib.fetch_script("a").unwrap().alias, "a");
}

#[test]
fn copy_errors() {
    let mut lib = pier_with(vec![script("a", "echo a", None), script("b", "echo b", None)]);
    match lib.copy_script("a", "b") {
        Err(PierError::AliasAlreadyExists { alias }) => assert_eq!(alias, "b"),
        _ => panic!("expected AliasAlreadyExists"),
    }
    match lib.copy_script("zzz", "c") {
        Err(PierError::AliasNotFound { alias }) => assert_eq!(alias, "zzz"),
        _ => panic!("expected AliasNotFound"),
    }
}

#[test]
fn move_renames_the_key_only() {
    let mut lib = pier_with(vec![script("a", "echo a", None), script("b", "echo b", None)]);
    lib.move_script("a", "c", false).unwrap();
    assert!(matches!(lib.fetch_script("a"), Err(PierError::AliasNotFound { .. })));
    let got = lib.fetch_script("c").unwrap();
    assert_eq!(got.alias, "a");
    assert_eq!(aliases(&lib), vec!["b", "c"]);
}

#[test]
fn move_onto_existing_alias_needs_force() {
    let mut lib = pier_with(vec![script("a", "echo a", None), script("b", "echo b", None)]);
    assert!(matches!(
        lib.move_script("a", "b", false),
        Err(PierError::AliasAlreadyExists { .. })
    ));
    lib.move_script("a", "b", true).unwrap();
    assert_eq!(lib.fetch_script("b").unwrap().command, "echo a");
    assert_eq!(aliases(&lib), vec!["b"]);
    assert!(matches!(lib.move_script("zzz", "y", true), Err(PierError::AliasNotFound { .. })));
}

#[test]
fn loading_sets_each_alias_to_its_key() {
    let entries = vec![("real".to_string(), script("stale", "echo x", None))];
    let default = ConfigDefaultOpts { interpreter: None, command_width: None };
    let c = Config::from_parsed(entries, default);
    let (k, s) = &c.scripts.entries()[0];
    assert_eq!(k, "real");
    assert_eq!(s.alias, "real");
}

#[test]
fn later_entry_under_a_key_wins_on_load() {
    let entries = vec![
        ("k".to_string(), script("k", "first", None)),
        ("k".to_string(), script("k", "second", None)),
    ];
    let default = ConfigDefaultOpts { interpreter: None, command_width: None };
    let c = Config::from_parsed(entries, default);
    assert_eq!(c.scripts.entries().len(), 1);
    assert_eq!(c.scripts.get("k").unwrap().command, "second");
}

#[test]
fn save_then_load_round_trip() {
    let mut s = script("b", "echo b", Some(vec!["t1", "t2"]));
    s.description = Some("d".to_string());
    s.reference = Some("r".to_string());
    let entries = vec![("a".to_string(), script("a", "echo a", None)), ("b".to_string(), s)];
    let default = ConfigDefaultOpts {
        interpreter: Some(vec!["bash".to_string(), "-c".to_string()]),
        command_width: Some(30),
    };
    let c = Config::from_parsed(entries, default);
    let saved: Vec<(String, Script)> =
        c.scripts.entries().iter().map(|(k, s)| (k.clone(), s.duplicate())).collect();
    let saved_default = ConfigDefaultOpts {
        interpreter: c.default.interpreter.clone(),
        command_width: c.default.command_width,
    };
    let back = Config::from_parsed(saved, saved_default);
    let a = c.scripts.entries();
    let b = back.scripts.entries();
    assert_eq!(a.len(), b.len());
    for ((ka, sa), (kb, sb)) in a.iter().zip(b.iter()) {
        assert_eq!(ka, kb);
        assert_eq!(sa.alias, sb.alias);
        assert_eq!(sa.command, sb.command);
        assert_eq!(sa.description, sb.description);
        assert_eq!(sa.reference, sb.reference);
        assert_eq!(sa.tags, sb.tags);
    }
    assert_eq!(back.default.interpreter, c.default.interpreter);
    assert_eq!(back.default.command_width, Some(30));
}

#[test]
fn empty_registry_round_trip() {
    let c = Config::new();
    let back = Config::from_parsed(Vec::new(), ConfigDefaultOpts::new());
    assert!(c.scripts.is_empty());
    assert!(back.scripts.is_empty());
    assert!(back.default.interpreter.is_none());
    assert!(back.default.command_width.is_none());
}

#[test]
fn initial_config_holds_the_example() {
    let c = Config::initial();
    let s = c.scripts.get("hello-pier").unwrap();
    assert_eq!(s.alias, "hello-pier");
    assert_eq!(s.command, "echo Hello, Pier!");
    assert_eq!(s.description.as_deref(), Some("This is an example command."));
    assert!(s.reference.is_none());
    assert!(s.tags.is_none());
    assert_eq!(c.scripts.entries().len(), 1);
}

#[test]
fn scripts_map_operations() {
    let mut c = Config::new();
    assert!(c.scripts.is_empty());
    assert!(c.scripts.insert("x".to_string(), script("x", "one", None)).is_none());
    assert!(c.scripts.contains_key("x"));
    let prev = c.scripts.insert("x".to_string(), script("x", "two", None)).unwrap();
    assert_eq!(prev.command, "one");
    if let Some(s) = c.scripts.get_mut("x") {
        s.command = "three".to_string();
    }
    assert_eq!(c.scripts.get("x").unwrap().command, "three");
    assert!(c.scripts.get_mut("y").is_none());
    assert_eq!(c.scripts.remove("x").unwrap().command, "three");
    assert!(c.scripts.remove("x").is_none());
    assert!(!c.scripts.contains_key("x"));
}

#[test]
fn scripts_stay_in_alias_order() {
    let mut lib = Pier::new();
    for alias in ["delta", "alpha", "charlie", "bravo", "alpha2", "Zulu"] {
        lib.add_script(script(alias, "true", None), false).unwrap();
    }
    assert_eq!(aliases(&lib), vec!["Zulu", "alpha", "alpha2", "bravo", "charlie", "delta"]);
    lib.copy_script("bravo", "aardvark").unwrap();
    lib.move_script("delta", "beta", false).unwrap();
    assert_eq!(
        aliases(&lib),
        vec!["Zulu", "aardvark", "alpha", "alpha2", "beta", "bravo", "charlie"]
    );
    assert_eq!(lib.list_aliases(None).unwrap()[1], "aardvark");
}

#[test]
fn loading_sorts_entries_by_alias() {
    let entries = vec![
        ("b".to_string(), script("b", "2", None)),
        ("é".to_string(), script("é", "3", None)),
        ("a".to_string(), script("a", "1", None)),
    ];
    let default = ConfigDefaultOpts { interpreter: None, command_width: None };
    let c = Config::from_parsed(entries, default);
    let keys: Vec<String> = c.scripts.iter().map(|(k, _)| k.clone()).collect();
    assert_eq!(keys, vec!["a", "b", "é"]);
}
