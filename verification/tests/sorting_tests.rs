use lsa::display::{entry_order, tree_line, tree_root_line, kind_color, kind_label, ListedEntry, Order, SortBy};
use lsa::sorting::sorted_positions;
use lsa::themes::{Rgb, Theme};

fn entry(name: &str, size: u64, modified: u128, is_dir: bool) -> ListedEntry {
    ListedEntry { name: name.to_string(), size, modified, is_dir }
}

fn listing() -> Vec<ListedEntry> {
    vec![
        entry("zeta", 10, 300, false),
        entry("alpha", 30, 100, true),
        entry("Beta", 20, 200, false),
        entry("alpha", 10, 100, false),
        entry("src", 0, 50, true),
        entry("beta", 20, 200, false),
        entry("", 5, 0, false),
        entry("é", 30, 300, true),
    ]
}

fn std_sorted(entries: &[ListedEntry], by: SortBy) -> Vec<usize> {
    let mut positions: Vec<usize> = (0..entries.len()).collect();
    positions.sort_by(|&x, &y| {
        let (a, b) = (&entries[x], &entries[y]);
        match by {
            SortBy::Name => a.name.cmp(&b.name),
            SortBy::Size => a.size.cmp(&b.size),
            SortBy::Modified => a.modified.cmp(&b.modified),
            SortBy::Type => match (a.is_dir, b.is_dir) {
                (true, false) => std::cmp::Ordering::Less,
                (false, true) => std::cmp::Ordering::Greater,
                _ => a.name.cmp(&b.name),
            },
        }
    });
    positions
}

#[test]
fn sorting_by_name() {
    let names: Vec<String> = sorted_positions(&listing(), SortBy::Name)
        .into_iter()
        .map(|i| listing()[i].name.clone())
        .collect();
    assert_eq!(names, vec!["", "Beta", "alpha", "alpha", "beta", "src", "zeta", "é"]);
}

#[test]
fn sorting_keeps_the_order_of_equals() {
    assert_eq!(sorted_positions(&listing(), SortBy::Size), vec![4, 6, 0, 3, 2, 5, 1, 7]);
    assert_eq!(sorted_positions(&listing(), SortBy::Name)[2..4], [1, 3]);
}

#[test]
fn sorting_by_type_puts_directories_first() {
    assert_eq!(sorted_positions(&listing(), SortBy::Type), vec![1, 4, 7, 6, 2, 3, 5, 0]);
}

#[test]
fn sorting_agrees_with_a_stable_sort() {
    let entries = listing();
    for by in [SortBy::Name, SortBy::Size, SortBy::Modified, SortBy::Type] {
        assert_eq!(sorted_positions(&entries, by), std_sorted(&entries, by));
    }
    let mut many = Vec::new();
    let mut seed: u64 = 12345;
    for _ in 0..200 {
        seed = seed.wrapping_mul(6364136223846793005).wrapping_add(1442695040888963407);
        let name = format!("n{}", (seed >> 33) % 17);
        many.push(entry(&name, (seed >> 20) % 5, ((seed >> 10) % 7) as u128, seed % 3 == 0));
    }
    for by in [SortBy::Name, SortBy::Size, SortBy::Modified, SortBy::Type] {
        assert_eq!(sorted_positions(&many, by), std_sorted(&many, by));
    }
}

#[test]
fn sorting_nothing_and_one() {
    assert!(sorted_positions(&Vec::new(), SortBy::Name).is_empty());
    assert_eq!(sorted_positions(&vec![entry("a", 1, 1, false)], SortBy::Size), vec![0]);
}

#[test]
fn sorted_neighbours_are_in_order() {
    let entries = listing();
    for by in [SortBy::Name, SortBy::Size, SortBy::Modified, SortBy::Type] {
        let r = sorted_positions(&entries, by);
        for w in r.windows(2) {
            assert_ne!(entry_order(&entries[w[0]], &entries[w[1]], by), Order::After);
        }
    }
}

fn theme() -> Theme {
    Theme {
        name: "t".to_string(),
        description: "d".to_string(),
        header: Rgb(1, 1, 1),
        border: Rgb(10, 20, 30),
        row_number: Rgb(2, 2, 2),
        file_name: Rgb(3, 3, 3),
        dir_name: Rgb(4, 4, 4),
        file_type: Rgb(5, 5, 5),
        dir_type: Rgb(6, 6, 6),
        file_size: Rgb(7, 7, 7),
        dir_size: Rgb(8, 8, 8),
        modified: Rgb(9, 9, 9),
        permissions: Rgb(11, 11, 11),
    }
}

#[test]
fn tree_lines_are_coloured_by_kind() {
    let t = theme();
    assert_eq!(
        tree_line("  ", false, "I", "main.rs", false, &t),
        "  \x1b[38;2;10;20;30m├── \x1b[0m\x1b[38;2;3;3;3mI main.rs\x1b[0m"
    );
    assert_eq!(
        tree_line("", true, "D", "src", true, &t),
        "\x1b[38;2;10;20;30m└── \x1b[0m\x1b[38;2;4;4;4mD src\x1b[38;2;6;6;6m/\x1b[0m"
    );
    assert_eq!(tree_root_line("D", "proj", &t), "\x1b[38;2;4;4;4mD proj\x1b[0m");
}

#[test]
fn kinds_have_words_and_colours() {
    assert_eq!(kind_label(true), "Directory");
    assert_eq!(kind_label(false), "File");
    assert_eq!(kind_color(true, Rgb(1, 1, 1), Rgb(2, 2, 2)), Rgb(1, 1, 1));
    assert_eq!(kind_color(false, Rgb(1, 1, 1), Rgb(2, 2, 2)), Rgb(2, 2, 2));
}
