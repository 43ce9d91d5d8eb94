use dsh_pet::term::clean_line;

#[test]
fn strips_csi_color_codes() {
    assert_eq!(clean_line("\u{1b}[1;32m✓ done\u{1b}[0m"), "✓ done");
}

#[test]
fn strips_carriage_return() {
    assert_eq!(clean_line("progress 10%\r"), "progress 10%");
}

#[test]
fn keeps_plain_text() {
    assert_eq!(clean_line("Packages: +14"), "Packages: +14");
}

#[test]
fn strips_osc_title_sequence() {
    assert_eq!(clean_line("\u{1b}]0;title\u{7}after"), "after");
}

#[test]
fn unterminated_sequences_run_to_the_end() {
    assert_eq!(clean_line("abc\u{1b}[12;"), "abc");
    assert_eq!(clean_line("abc\u{1b}]no bell"), "abc");
}

#[test]
fn lone_escape_is_dropped() {
    assert_eq!(clean_line("a\u{1b}b"), "ab");
    assert_eq!(clean_line("a\u{1b}"), "a");
}

#[test]
fn cleaning_twice_changes_nothing() {
    let once = clean_line("\r\u{1b}[31mred\u{1b}[0m \u{1b}]8;;x\u{7}link\r\n");
    assert_eq!(once, "red link\n");
    assert_eq!(clean_line(&once), once);
}

#[test]
fn cleaned_line_is_a_subsequence_of_the_line() {
    let line = "a\u{1b}[31mb\rc\u{1b}]0;t\u{7}d";
    let out = clean_line(line);
    assert_eq!(out, "abcd");
    let mut rest = line.chars();
    for c in out.chars() {
        assert!(rest.any(|x| x == c));
    }
}
