use pyra::registry::{
    add_directory_json, add_project_json, copy_settings, default_settings, delete_project_json, find_project_editor,
    find_project_path, find_project_platform, list_projects, open_plan, project_dir, project_exists,
    removal_plan, seteditor_project_json, OpenPlan, Project, RegistryError, Settings,
};

fn project(name: &str, path: &str, platform: &str, editor: &str) -> Project {
    Project {
        name: name.to_string(),
        path: path.to_string(),
        platform: platform.to_string(),
        editor: editor.to_string(),
    }
}

fn sample() -> Settings {
    Settings {
        command_to_open: "code".to_string(),
        projects: vec![
            project("alpha", "/home/u/alpha", "substrate", "vim"),
            project("beta", "/home/u/beta", "substrate", "default"),
            project("alpha", "/elsewhere/alpha", "other", "emacs"),
        ],
    }
}

fn names(s: &Settings) -> Vec<String> {
    list_projects(s)
}

#[test]
fn default_settings_open_with_code_and_hold_nothing() {
    let s = default_settings();
    assert_eq!(s.command_to_open, "code");
    assert!(s.projects.is_empty());
}

#[test]
fn list_projects_gives_names_in_order() {
    assert_eq!(names(&sample()), vec!["alpha", "beta", "alpha"]);
    assert!(names(&default_settings()).is_empty());
}

#[test]
fn project_exists_looks_at_names() {
    let s = sample();
    assert!(project_exists("alpha".to_string(), &s));
    assert!(project_exists("beta".to_string(), &s));
    assert!(!project_exists("gamma".to_string(), &s));
    assert!(!project_exists("".to_string(), &s));
    assert!(!project_exists("alpha".to_string(), &default_settings()));
}

#[test]
fn find_functions_use_the_first_match() {
    let s = sample();
    assert_eq!(find_project_path("alpha".to_string(), &s), "/home/u/alpha");
    assert_eq!(find_project_platform("alpha".to_string(), &s), "substrate");
    assert_eq!(find_project_editor("alpha".to_string(), &s), "vim");
    assert_eq!(find_project_path("beta".to_string(), &s), "/home/u/beta");
}

#[test]
fn find_project_editor_of_unknown_project_is_default() {
    assert_eq!(find_project_editor("gamma".to_string(), &sample()), "default");
}

#[test]
fn delete_takes_out_the_first_match_only() {
    let next = delete_project_json(sample(), "alpha".to_string());
    assert_eq!(names(&next), vec!["beta", "alpha"]);
    assert_eq!(find_project_path("alpha".to_string(), &next), "/elsewhere/alpha");
    assert_eq!(next.command_to_open, "code");
}

#[test]
fn seteditor_changes_only_the_first_match() {
    let next = seteditor_project_json(sample(), "alpha".to_string(), "nano".to_string());
    assert_eq!(next.projects[0].editor, "nano");
    assert_eq!(next.projects[2].editor, "emacs");
    assert_eq!(next.projects[0].path, "/home/u/alpha");
    assert_eq!(find_project_editor("alpha".to_string(), &next), "nano");
}

#[test]
fn seteditor_of_unknown_project_changes_nothing() {
    let next = seteditor_project_json(sample(), "gamma".to_string(), "nano".to_string());
    assert_eq!(names(&next), vec!["alpha", "beta", "alpha"]);
    assert_eq!(next.projects[0].editor, "vim");
    assert_eq!(next.projects[1].editor, "default");
    assert_eq!(next.projects[2].editor, "emacs");
}

#[test]
fn project_dir_joins_with_a_slash() {
    assert_eq!(project_dir("/home/u", "chain"), "/home/u/chain");
    assert_eq!(project_dir("", "chain"), "/chain");
}

#[test]
fn add_appends_a_project_that_opens_with_the_default_command() {
    let next = add_project_json(sample(), "gamma".to_string(), "/work", "substrate".to_string()).unwrap();
    assert_eq!(names(&next), vec!["alpha", "beta", "alpha", "gamma"]);
    let p = &next.projects[3];
    assert_eq!(p.name, "gamma");
    assert_eq!(p.path, "/work/gamma");
    assert_eq!(p.platform, "substrate");
    assert_eq!(p.editor, "code");
    assert_eq!(find_project_path("gamma".to_string(), &next), "/work/gamma");
}

#[test]
fn add_refuses_a_name_that_is_taken() {
    let r = add_project_json(sample(), "beta".to_string(), "/work", "substrate".to_string());
    assert!(matches!(r, Err(RegistryError::ProjectExists)));
}

#[test]
fn add_then_delete_gives_back_the_settings() {
    let next = add_project_json(sample(), "gamma".to_string(), "/work", "substrate".to_string()).unwrap();
    let back = delete_project_json(next, "gamma".to_string());
    assert_eq!(names(&back), names(&sample()));
    assert_eq!(back.projects.len(), 3);
    assert_eq!(back.projects[2].path, "/elsewhere/alpha");
}

#[test]
fn open_plan_uses_the_project_editor() {
    match open_plan(&sample(), "alpha") {
        OpenPlan::WithEditor { command, path } => {
            assert_eq!(command, "vim");
            assert_eq!(path, "/home/u/alpha");
        }
        _ => panic!("expected the project's editor"),
    }
}

#[test]
fn open_plan_falls_back_to_the_default_command() {
    match open_plan(&sample(), "beta") {
        OpenPlan::WithDefault { command, path } => {
            assert_eq!(command, "code");
            assert_eq!(path, "/home/u/beta");
        }
        _ => panic!("expected the default command"),
    }
}

#[test]
fn open_plan_reports_an_unknown_project() {
    match open_plan(&sample(), "gamma") {
        OpenPlan::NotFound { command } => assert_eq!(command, "code"),
        _ => panic!("expected no project"),
    }
}

#[test]
fn copy_settings_keeps_everything() {
    let c = copy_settings(&sample());
    assert_eq!(names(&c), names(&sample()));
    assert_eq!(c.projects[2].platform, "other");
    assert_eq!(c.command_to_open, "code");
}

#[test]
fn removal_plan_removes_the_picked_projects() {
    let s = sample();
    let plan = removal_plan(&s, &vec![1, 0]).unwrap();
    assert_eq!(names(&plan.settings), vec!["alpha"]);
    assert_eq!(plan.settings.projects[0].path, "/elsewhere/alpha");
    assert_eq!(plan.removed.len(), 2);
    assert_eq!(plan.removed[0].name, "beta");
    assert_eq!(plan.removed[0].path, "/home/u/beta");
    assert_eq!(plan.removed[1].name, "alpha");
    assert_eq!(plan.removed[1].path, "/home/u/alpha");
}

#[test]
fn removal_plan_records_paths_of_the_original_settings() {
    let s = sample();
    let plan = removal_plan(&s, &vec![0, 2]).unwrap();
    assert_eq!(names(&plan.settings), vec!["beta"]);
    assert_eq!(plan.removed[1].name, "alpha");
    assert_eq!(plan.removed[1].path, "/home/u/alpha");
}

#[test]
fn removal_plan_with_no_picks_changes_nothing() {
    let plan = removal_plan(&sample(), &vec![]).unwrap();
    assert_eq!(names(&plan.settings), names(&sample()));
    assert!(plan.removed.is_empty());
}

#[test]
fn removal_plan_refuses_a_pick_out_of_range() {
    assert!(removal_plan(&sample(), &vec![0, 3]).is_none());
}

#[test]
fn removal_plan_refuses_a_name_removed_already() {
    let s = Settings {
        command_to_open: "code".to_string(),
        projects: vec![project("solo", "/p", "substrate", "default")],
    };
    assert!(removal_plan(&s, &vec![0, 0]).is_none());
}

#[test]
fn add_keeps_what_is_known_of_other_projects() {
    let next = add_project_json(sample(), "gamma".to_string(), "/work", "substrate".to_string()).unwrap();
    assert_eq!(find_project_path("beta".to_string(), &next), "/home/u/beta");
    assert_eq!(find_project_platform("alpha".to_string(), &next), "substrate");
    assert_eq!(find_project_editor("alpha".to_string(), &next), "vim");
    assert!(!project_exists("delta".to_string(), &next));
}

fn unique() -> Settings {
    Settings {
        command_to_open: "code".to_string(),
        projects: vec![
            project("alpha", "/a", "substrate", "default"),
            project("beta", "/b", "substrate", "default"),
        ],
    }
}

#[test]
fn names_stay_unique_after_add_and_delete() {
    let added = add_project_json(unique(), "gamma".to_string(), "/w", "substrate".to_string()).unwrap();
    assert_eq!(names(&added), vec!["alpha", "beta", "gamma"]);
    let deleted = delete_project_json(added, "beta".to_string());
    assert_eq!(names(&deleted), vec!["alpha", "gamma"]);
    assert!(!project_exists("beta".to_string(), &deleted));
}

#[test]
fn add_to_empty_settings() {
    let next = add_project_json(default_settings(), "chain".to_string(), "/home/u", "substrate".to_string()).unwrap();
    assert_eq!(names(&next), vec!["chain"]);
    assert_eq!(find_project_path("chain".to_string(), &next), "/home/u/chain");
    assert_eq!(find_project_editor("chain".to_string(), &next), "code");
}

#[test]
fn removal_counts_match_the_picks() {
    let plan = removal_plan(&unique(), &vec![1]).unwrap();
    assert_eq!(plan.settings.projects.len() + 1, unique().projects.len());
    assert_eq!(plan.removed.len(), 1);
    assert_eq!(plan.settings.command_to_open, "code");
}

#[test]
fn add_registers_the_directory_itself() {
    let next = add_directory_json(sample(), "chain".to_string(), "/home/u/chain".to_string(), "substrate".to_string()).unwrap();
    assert_eq!(names(&next), vec!["alpha", "beta", "alpha", "chain"]);
    let p = &next.projects[3];
    assert_eq!(p.path, "/home/u/chain");
    assert_eq!(p.platform, "substrate");
    assert_eq!(p.editor, "code");
    assert_eq!(find_project_path("chain".to_string(), &next), "/home/u/chain");
}

#[test]
fn add_directory_refuses_a_name_that_is_taken() {
    let r = add_directory_json(sample(), "alpha".to_string(), "/x".to_string(), "substrate".to_string());
    assert!(matches!(r, Err(RegistryError::ProjectExists)));
}

fn three() -> Settings {
    Settings {
        command_to_open: "code".to_string(),
        projects: vec![
            project("a", "/a", "substrate", "default"),
            project("b", "/b", "substrate", "default"),
            project("c", "/c", "substrate", "default"),
        ],
    }
}

#[test]
fn removal_with_distinct_picks_keeps_the_unpicked_in_order() {
    let plan = removal_plan(&three(), &vec![2, 0]).unwrap();
    assert_eq!(names(&plan.settings), vec!["b"]);
    assert_eq!(plan.removed[0].name, "c");
    assert_eq!(plan.removed[0].path, "/c");
    assert_eq!(plan.removed[1].name, "a");
    assert_eq!(plan.removed[1].path, "/a");
    let plan = removal_plan(&three(), &vec![1]).unwrap();
    assert_eq!(names(&plan.settings), vec!["a", "c"]);
}
