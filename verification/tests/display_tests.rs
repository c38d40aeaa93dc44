use lsa::display::{
    entry_order, order_texts, parse_cpu_info, path_mark, path_status, row_color, status_color,
    path_color, strip_ansi_codes, tree_branch, tree_indent, tree_order, tree_shows, within_depth,
    ListedEntry, Order, PathStatus, SortBy,
};
use lsa::themes::{Rgb, Theme};

fn theme() -> Theme {
    Theme {
        name: "t".to_string(),
        description: "d".to_string(),
        header: Rgb(1, 1, 1),
        border: Rgb(10, 20, 30),
        row_number: Rgb(2, 2, 2),
        file_name: Rgb(3, 3, 3),
        dir_name: Rgb(4, 4, 4),
        file_type: Rgb(5, 5, 5),
        dir_type: Rgb(6, 6, 6),
        file_size: Rgb(7, 7, 7),
        dir_size: Rgb(8, 8, 8),
        modified: Rgb(9, 9, 9),
        permissions: Rgb(11, 11, 11),
    }
}

fn std_strip(input: &str) -> String {
    let mut result = String::new();
    let mut chars = input.chars();
    while let Some(ch) = chars.next() {
        if ch == '\x1b' {
            while let Some(next_ch) = chars.next() {
                if next_ch.is_ascii_alphabetic() {
                    break;
                }
            }
        } else {
            result.push(ch);
        }
    }
    result
}

#[test]
fn escape_sequences_are_removed() {
    assert_eq!(strip_ansi_codes("\x1b[38;2;1;2;3mhello\x1b[0m"), "hello");
    assert_eq!(strip_ansi_codes("plain"), "plain");
    assert_eq!(strip_ansi_codes(""), "");
    assert_eq!(strip_ansi_codes("a\x1b[1mb\x1b[0mc"), "abc");
}

#[test]
fn an_unfinished_sequence_swallows_the_rest() {
    assert_eq!(strip_ansi_codes("ab\x1b[38;2;"), "ab");
    assert_eq!(strip_ansi_codes("\x1b"), "");
    assert_eq!(strip_ansi_codes("\x1b\x1bmx"), "x");
}

#[test]
fn stripping_agrees_with_the_character_loop() {
    let samples = [
        "╭──╮\n│ \x1b[1mx\x1b[0m │\n╰──╯",
        "\x1b[0m\x1b[0m",
        "é\x1bé\x1bzé",
        "\x1b[12;34HZ",
        "no escapes at all",
    ];
    for s in samples {
        assert_eq!(strip_ansi_codes(s), std_strip(s));
    }
}

#[test]
fn path_states_follow_the_file_system() {
    assert_eq!(path_status(false, false, false), PathStatus::Missing);
    assert_eq!(path_status(false, false, true), PathStatus::BrokenSymlink);
    assert_eq!(path_status(true, true, true), PathStatus::SymlinkToDirectory);
    assert_eq!(path_status(true, false, true), PathStatus::SymlinkToFile);
    assert_eq!(path_status(true, false, false), PathStatus::NotADirectory);
    assert_eq!(path_status(true, true, false), PathStatus::Usable);
}

#[test]
fn path_states_have_their_words() {
    assert_eq!(PathStatus::Usable.label(), "OK");
    assert_eq!(PathStatus::Missing.label(), "Missing");
    assert_eq!(PathStatus::BrokenSymlink.label(), "Broken symlink");
    assert_eq!(PathStatus::SymlinkToDirectory.label(), "Symlink to directory");
    assert_eq!(PathStatus::SymlinkToFile.label(), "Symlink to file");
    assert_eq!(PathStatus::NotADirectory.label(), "Not a directory");
}

#[test]
fn path_marks_and_colours() {
    let t = theme();
    assert_eq!(path_mark(true, true, false), None);
    assert_eq!(path_mark(true, true, true), Some("↪"));
    assert_eq!(path_mark(false, false, true), Some("↪"));
    assert_eq!(path_mark(true, false, false), Some("✗"));
    assert_eq!(path_mark(false, false, false), Some("✗"));
    assert_eq!(path_color(&t, true, true, false), t.dir_name);
    assert_eq!(path_color(&t, false, false, true), t.permissions);
    assert_eq!(path_color(&t, false, false, false), t.file_name);
    assert_eq!(status_color(&t, PathStatus::Usable), t.file_size);
    assert_eq!(status_color(&t, PathStatus::Missing), t.modified);
}

#[test]
fn rows_alternate_between_two_colours() {
    let a = Rgb(1, 2, 3);
    let b = Rgb(4, 5, 6);
    assert_eq!(row_color(0, a, b), a);
    assert_eq!(row_color(1, a, b), b);
    assert_eq!(row_color(2, a, b), a);
    assert_eq!(row_color(usize::MAX, a, b), b);
}

#[test]
fn tree_depth_and_hidden_names() {
    assert!(within_depth(0, None));
    assert!(within_depth(1000, None));
    assert!(within_depth(0, Some(1)));
    assert!(!within_depth(1, Some(1)));
    assert!(!within_depth(0, Some(0)));
    assert!(tree_shows("a.rs", false));
    assert!(!tree_shows(".git", false));
    assert!(tree_shows(".git", true));
    assert!(tree_shows("", false));
}

#[test]
fn tree_branches_and_indents() {
    let t = theme();
    assert_eq!(tree_branch(true), "└── ");
    assert_eq!(tree_branch(false), "├── ");
    assert_eq!(tree_indent("  ", true, &t), "      ");
    assert_eq!(tree_indent("", false, &t), format!("\x1b[38;2;10;20;30m│\x1b[0m{:3}", ""));
}

#[test]
fn texts_are_ordered_as_strings_are() {
    let samples = ["", "a", "A", "ab", "abc", "b", "é", "z", "ab\u{10000}", "ab\u{ffff}", "Z", "aa"];
    for x in samples {
        for y in samples {
            let expected = match x.cmp(y) {
                std::cmp::Ordering::Less => Order::Before,
                std::cmp::Ordering::Equal => Order::Same,
                std::cmp::Ordering::Greater => Order::After,
            };
            assert_eq!(order_texts(x, y), expected, "{:?} against {:?}", x, y);
        }
    }
}

#[test]
fn directories_come_first_in_a_tree() {
    assert_eq!(tree_order(true, "z", false, "a"), Order::Before);
    assert_eq!(tree_order(false, "a", true, "z"), Order::After);
    assert_eq!(tree_order(true, "a", true, "b"), Order::Before);
    assert_eq!(tree_order(false, "b", false, "a"), Order::After);
    assert_eq!(tree_order(false, "a", false, "a"), Order::Same);
}

#[test]
fn entries_are_ordered_by_the_sort_key() {
    let a = ListedEntry { name: "b".to_string(), size: 10, modified: 5, is_dir: false };
    let b = ListedEntry { name: "a".to_string(), size: 20, modified: 5, is_dir: true };
    assert_eq!(entry_order(&a, &b, SortBy::Name), Order::After);
    assert_eq!(entry_order(&a, &b, SortBy::Size), Order::Before);
    assert_eq!(entry_order(&a, &b, SortBy::Modified), Order::Same);
    assert_eq!(entry_order(&a, &b, SortBy::Type), Order::After);
    assert_eq!(entry_order(&b, &a, SortBy::Type), Order::Before);
}

fn std_cpu_info(output: &str) -> Vec<(String, String)> {
    let mut cpu_info = Vec::new();
    for line in output.lines() {
        if line.trim().is_empty() {
            continue;
        }
        if let Some((key, value)) = line.split_once(':') {
            cpu_info.push((key.trim().to_string(), value.trim().to_string()));
        }
    }
    cpu_info
}

#[test]
fn cpu_report_is_read_line_by_line() {
    let out = "Architecture:        x86_64\nCPU(s):  8\n\nModel name: Some CPU @ 3.0GHz: turbo\nno colon here\n   \nFlags:\n";
    let fields = parse_cpu_info(out);
    let got: Vec<(String, String)> = fields.into_iter().map(|f| (f.key, f.value)).collect();
    assert_eq!(
        got,
        vec![
            ("Architecture".to_string(), "x86_64".to_string()),
            ("CPU(s)".to_string(), "8".to_string()),
            ("Model name".to_string(), "Some CPU @ 3.0GHz: turbo".to_string()),
            ("Flags".to_string(), "".to_string()),
        ]
    );
}

#[test]
fn cpu_report_agrees_with_line_splitting_and_trimming() {
    let samples = [
        "",
        "a:b",
        "a:b\r\nc : d\r\n",
        "\u{a0}key\u{2003}:\u{3000}value\t\n:only value\nonly key:\n::\n",
        "x:y\r",
        "\n\n:\n",
        " \u{85}:\u{1680} ",
    ];
    for s in samples {
        let got: Vec<(String, String)> = parse_cpu_info(s).into_iter().map(|f| (f.key, f.value)).collect();
        assert_eq!(got, std_cpu_info(s), "report {:?}", s);
    }
}
