use lsa::cli::{choose_action, Action, Request};
use lsa::themes::{choice_label, chosen_name, find_theme, Rgb, Theme};

fn none() -> Request {
    Request {
        help: false,
        theme: false,
        cpu: false,
        workspace_file: false,
        workspace_folder: false,
        workspace: false,
        tree: false,
        path: false,
        open: false,
    }
}

fn named(name: &str, description: &str) -> Theme {
    let c = Rgb(0, 0, 0);
    Theme {
        name: name.to_string(),
        description: description.to_string(),
        header: c,
        border: c,
        row_number: c,
        file_name: c,
        dir_name: c,
        file_type: c,
        dir_type: c,
        file_size: c,
        dir_size: c,
        modified: c,
        permissions: c,
    }
}

#[test]
fn no_flag_lists_the_directory() {
    assert_eq!(choose_action(&none()), Action::List);
}

#[test]
fn each_flag_alone_leads_to_its_action() {
    assert_eq!(choose_action(&Request { help: true, ..none() }), Action::Help);
    assert_eq!(choose_action(&Request { theme: true, ..none() }), Action::SetTheme);
    assert_eq!(choose_action(&Request { cpu: true, ..none() }), Action::Cpu);
    assert_eq!(choose_action(&Request { workspace_file: true, ..none() }), Action::CopyFile);
    assert_eq!(choose_action(&Request { workspace_folder: true, ..none() }), Action::CopyFolder);
    assert_eq!(choose_action(&Request { workspace: true, ..none() }), Action::CopyWorkspace);
    assert_eq!(choose_action(&Request { tree: true, ..none() }), Action::Tree);
    assert_eq!(choose_action(&Request { path: true, ..none() }), Action::PathTable);
    assert_eq!(choose_action(&Request { open: true, ..none() }), Action::OpenData);
}

#[test]
fn earlier_flags_win_over_later_ones() {
    let all = Request {
        help: true,
        theme: true,
        cpu: true,
        workspace_file: true,
        workspace_folder: true,
        workspace: true,
        tree: true,
        path: true,
        open: true,
    };
    assert_eq!(choose_action(&all), Action::Help);
    assert_eq!(choose_action(&Request { help: false, ..all }), Action::SetTheme);
    assert_eq!(choose_action(&Request { workspace_file: true, workspace: true, ..none() }), Action::CopyFile);
    assert_eq!(choose_action(&Request { workspace: true, tree: true, ..none() }), Action::CopyWorkspace);
    assert_eq!(choose_action(&Request { path: true, open: true, ..none() }), Action::PathTable);
}

#[test]
fn themes_are_found_by_name() {
    let themes = vec![named("a", "first"), named("b", "second"), named("a", "third")];
    assert_eq!(find_theme(&themes, "a"), Some(0));
    assert_eq!(find_theme(&themes, "b"), Some(1));
    assert_eq!(find_theme(&themes, "c"), None);
    assert_eq!(find_theme(&themes, "A"), None);
    assert_eq!(find_theme(&Vec::new(), "a"), None);
}

#[test]
fn a_choice_names_the_theme_before_its_description() {
    let t = named("nord", "Arctic, north-bluish palette");
    assert_eq!(choice_label(&t), "nord - Arctic, north-bluish palette");
    assert_eq!(chosen_name(&choice_label(&t)), "nord");
}

#[test]
fn the_chosen_name_ends_at_the_first_separator() {
    let samples = ["", "nord", "a - b - c", " - x", "x - ", "a -b", "a- b", "a  -  b", " -", "- ", "a - ", "é - ü"];
    for s in samples {
        assert_eq!(chosen_name(s), s.split(" - ").next().unwrap(), "line {:?}", s);
    }
}
