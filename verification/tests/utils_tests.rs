use lsa::themes::{Rgb, Theme};
use lsa::utils::{colorize_borders, foreground_code, format_permissions, format_size, format_time, tenths_of};

fn float_size(size: u64) -> String {
    const KB: u64 = 1024;
    const MB: u64 = KB * 1024;
    const GB: u64 = MB * 1024;
    if size >= GB {
        format!("{:.1} GB", size as f64 / GB as f64)
    } else if size >= MB {
        format!("{:.1} MB", size as f64 / MB as f64)
    } else if size >= KB {
        format!("{:.1} KB", size as f64 / KB as f64)
    } else {
        format!("{} B", size)
    }
}

#[test]
fn sizes_below_a_kilobyte_are_in_bytes() {
    assert_eq!(format_size(0), "0 B");
    assert_eq!(format_size(1), "1 B");
    assert_eq!(format_size(512), "512 B");
    assert_eq!(format_size(1023), "1023 B");
}

#[test]
fn sizes_use_the_largest_unit_reached() {
    assert_eq!(format_size(1024), "1.0 KB");
    assert_eq!(format_size(1536), "1.5 KB");
    assert_eq!(format_size(1024 * 1024), "1.0 MB");
    assert_eq!(format_size(5 * 1024 * 1024 + 512 * 1024), "5.5 MB");
    assert_eq!(format_size(1024 * 1024 * 1024), "1.0 GB");
    assert_eq!(format_size(1024 * 1024 - 1), "1024.0 KB");
    assert_eq!(format_size(u64::MAX), "17179869184.0 GB");
}

#[test]
fn ties_in_the_decimal_go_to_the_even_digit() {
    // 1280 / 1024 = 1.25 and 1792 / 1024 = 1.75, both exactly.
    assert_eq!(format_size(1280), "1.2 KB");
    assert_eq!(format_size(1792), "1.8 KB");
    assert_eq!(format_size(1280), float_size(1280));
    assert_eq!(format_size(1792), float_size(1792));
}

#[test]
fn sizes_agree_with_float_formatting() {
    let mut n: u64 = 0;
    while n < 3_000_000 {
        assert_eq!(format_size(n), float_size(n), "size {}", n);
        n += 7;
    }
    let mut n: u64 = 1 << 20;
    while n < (1 << 40) {
        assert_eq!(format_size(n), float_size(n), "size {}", n);
        assert_eq!(format_size(n + 52_429), float_size(n + 52_429));
        n = n + n / 3 + 1;
    }
}

#[test]
fn sizes_agree_with_float_formatting_beyond_exact_floats() {
    let base: u64 = 1 << 53;
    for k in 0..4096u64 {
        let n = base + k;
        assert_eq!(format_size(n), float_size(n), "size {}", n);
        let m = u64::MAX - k * 997;
        assert_eq!(format_size(m), float_size(m), "size {}", m);
        let p = (1u64 << 60) + k * 53_687_091;
        assert_eq!(format_size(p), float_size(p), "size {}", p);
    }
}

#[test]
fn tenths_are_rounded_quotients() {
    assert_eq!(tenths_of(1024, 1024), 10);
    assert_eq!(tenths_of(256, 1024), 2);
    assert_eq!(tenths_of(768, 1024), 8);
    assert_eq!(tenths_of(0, 1024), 0);
    assert_eq!(tenths_of(32_768, 1024), 320);
}

#[test]
fn permissions_show_nine_signs() {
    assert_eq!(format_permissions(0o755), "rwxr-xr-x");
    assert_eq!(format_permissions(0o644), "rw-r--r--");
    assert_eq!(format_permissions(0o000), "---------");
    assert_eq!(format_permissions(0o777), "rwxrwxrwx");
    assert_eq!(format_permissions(0o421), "r---w---x");
}

#[test]
fn permissions_ignore_the_bits_above() {
    assert_eq!(format_permissions(0o100644), "rw-r--r--");
    assert_eq!(format_permissions(0o40755), "rwxr-xr-x");
    assert_eq!(format_permissions(u32::MAX), "rwxrwxrwx");
}

#[test]
fn ages_use_the_largest_unit_reached() {
    assert_eq!(format_time(Some(0)), "0 seconds ago");
    assert_eq!(format_time(Some(59)), "59 seconds ago");
    assert_eq!(format_time(Some(60)), "1 minutes ago");
    assert_eq!(format_time(Some(3599)), "59 minutes ago");
    assert_eq!(format_time(Some(3600)), "1 hours ago");
    assert_eq!(format_time(Some(86_399)), "23 hours ago");
    assert_eq!(format_time(Some(86_400)), "1 days ago");
    assert_eq!(format_time(Some(604_799)), "6 days ago");
    assert_eq!(format_time(Some(604_800)), "1 weeks ago");
    assert_eq!(format_time(Some(2_419_199)), "3 weeks ago");
    assert_eq!(format_time(Some(2_419_200)), "0 months ago");
    assert_eq!(format_time(Some(2_592_000)), "1 months ago");
    assert_eq!(format_time(Some(31_535_999)), "12 months ago");
    assert_eq!(format_time(Some(31_536_000)), "1 years ago");
    assert_eq!(format_time(Some(u64::MAX)), "584942417355 years ago");
}

#[test]
fn an_age_ahead_of_the_clock_is_unknown() {
    assert_eq!(format_time(None), "Unknown");
}

fn theme_with_border(border: Rgb) -> Theme {
    Theme {
        name: "t".to_string(),
        description: "d".to_string(),
        header: Rgb(0, 0, 0),
        border,
        row_number: Rgb(0, 0, 0),
        file_name: Rgb(0, 0, 0),
        dir_name: Rgb(0, 0, 0),
        file_type: Rgb(0, 0, 0),
        dir_type: Rgb(0, 0, 0),
        file_size: Rgb(0, 0, 0),
        dir_size: Rgb(0, 0, 0),
        modified: Rgb(0, 0, 0),
        permissions: Rgb(0, 0, 0),
    }
}

fn std_colorize(table_str: &str, border: (u8, u8, u8)) -> String {
    let border_color = format!("\x1b[38;2;{};{};{}m", border.0, border.1, border.2);
    let reset_color = "\x1b[0m";
    table_str
        .lines()
        .map(|line| {
            let mut colored_line = String::new();
            for ch in line.chars() {
                match ch {
                    '╭' | '╮' | '╰' | '╯' | '│' | '─' | '┼' | '├' | '┤' | '┬' | '┴' | '═' | '╞'
                    | '╡' => {
                        colored_line.push_str(&format!("{border_color}{ch}{reset_color}"));
                    }
                    _ => {
                        colored_line.push(ch);
                    }
                }
            }
            colored_line
        })
        .collect::<Vec<_>>()
        .join("\n")
}

#[test]
fn colour_codes_name_red_green_blue() {
    assert_eq!(foreground_code(Rgb(0, 0, 0)), "\x1b[38;2;0;0;0m");
    assert_eq!(foreground_code(Rgb(255, 128, 7)), "\x1b[38;2;255;128;7m");
}

#[test]
fn border_characters_are_wrapped_in_colour() {
    let t = theme_with_border(Rgb(1, 2, 3));
    assert_eq!(colorize_borders("│a│", &t), "\x1b[38;2;1;2;3m│\x1b[0ma\x1b[38;2;1;2;3m│\x1b[0m");
    assert_eq!(colorize_borders("plain", &t), "plain");
    assert_eq!(colorize_borders("", &t), "");
    assert_eq!(colorize_borders("|-+", &t), "|-+");
}

#[test]
fn colouring_agrees_with_line_by_line_painting() {
    let t = theme_with_border(Rgb(137, 180, 250));
    let samples = [
        "╭───┬───╮\n│ a ┼ b │\n╞═══╡\n├───┤\n╰───┴───╯",
        "╭─╮\n│x│\n╰─╯\n",
        "a\r\nb\r\n",
        "a\rb\n\nc",
        "\n",
        "\n\n",
        "\r\n",
        "tail\r",
        "│\r",
        "\r",
        "x\n\r",
        "é│✓\n",
    ];
    for s in samples {
        assert_eq!(colorize_borders(s, &t), std_colorize(s, (137, 180, 250)), "table {:?}", s);
    }
}
