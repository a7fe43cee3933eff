use pyra::command::{
    parse_command, platform_named, platform_names, ui_plan, Command, Platform, UiChoice, UiError,
};

fn parse(word: Option<&str>) -> Command {
    parse_command(&word.map(|w| w.to_string()))
}

#[test]
fn no_word_means_open() {
    assert!(matches!(parse(None), Command::Open));
}

#[test]
fn known_words_name_their_commands() {
    assert!(matches!(parse(Some("open")), Command::Open));
    assert!(matches!(parse(Some("init")), Command::Init));
    assert!(matches!(parse(Some("add")), Command::Add));
    assert!(matches!(parse(Some("save")), Command::Add));
    assert!(matches!(parse(Some("remove")), Command::Remove));
    assert!(matches!(parse(Some("seteditor")), Command::SetEditor));
    assert!(matches!(parse(Some("run")), Command::Run));
    assert!(matches!(parse(Some("build")), Command::Build));
    assert!(matches!(parse(Some("interact")), Command::Interact));
    assert!(matches!(parse(Some("purge")), Command::Purge));
}

#[test]
fn other_words_are_unknown() {
    match parse(Some("deploy")) {
        Command::Unknown(w) => assert_eq!(w, "deploy"),
        _ => panic!("expected an unknown command"),
    }
    match parse(Some("Open")) {
        Command::Unknown(w) => assert_eq!(w, "Open"),
        _ => panic!("expected an unknown command"),
    }
    assert!(matches!(parse(Some("")), Command::Unknown(_)));
}

#[test]
fn substrate_is_the_only_platform() {
    assert_eq!(platform_names(), vec!["substrate".to_string()]);
    assert_eq!(platform_named(&"substrate".to_string()), Some(Platform::Substrate));
    assert_eq!(platform_named(&"ethereum".to_string()), None);
    assert_eq!(platform_named(&"Substrate".to_string()), None);
}

#[test]
fn gav_runs_in_the_ui_directory_on_port_8000() {
    let p = ui_plan("/p", "chain", &Some("gav".to_string())).ok().unwrap();
    assert_eq!(p.choice, UiChoice::Gav);
    assert_eq!(p.dir, "/p/chain-ui");
    assert_eq!(p.url, "http://localhost:8000");
}

#[test]
fn apps_run_in_the_apps_directory_on_port_3000() {
    let p = ui_plan("/p", "chain", &Some("apps".to_string())).ok().unwrap();
    assert_eq!(p.choice, UiChoice::Apps);
    assert_eq!(p.dir, "/p/apps");
    assert_eq!(p.url, "http://localhost:3000");
}

#[test]
fn missing_or_unknown_ui_is_refused() {
    assert!(matches!(ui_plan("/p", "chain", &None), Err(UiError::Missing)));
    assert!(matches!(ui_plan("/p", "chain", &Some("web".to_string())), Err(UiError::Unknown)));
}
