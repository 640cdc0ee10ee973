use appimg_igniter::desktop_entry::{parse_desktop_lines, parse_desktop_text, split_lines};

fn strings(ls: &[&str]) -> Vec<String> {
    ls.iter().map(|s| s.to_string()).collect()
}

fn pairs(ps: &[(&str, &str)]) -> Vec<(String, String)> {
    ps.iter().map(|(k, v)| (k.to_string(), v.to_string())).collect()
}

#[test]
fn splits_on_line_feeds() {
    assert_eq!(split_lines("a\nb\n"), strings(&["a", "b"]));
    assert_eq!(split_lines("a\nb"), strings(&["a", "b"]));
    assert_eq!(split_lines(""), strings(&[]));
    assert_eq!(split_lines("\n\n"), strings(&["", ""]));
}

#[test]
fn splits_drop_one_carriage_return() {
    assert_eq!(split_lines("a\r\nb\r\r\nc\r"), strings(&["a", "b\r", "c\r"]));
}

#[test]
fn first_value_of_a_key_wins() {
    let doc = parse_desktop_text("[Desktop Entry]\nName=A\nName=B\n");
    assert_eq!(doc.entries, pairs(&[("Name", "A")]));
    assert_eq!(doc.get(&"Name".to_string()), Some("A".to_string()));
}

#[test]
fn other_sections_are_not_interpreted() {
    let text = "[Other Section]\nName=Other\n[Desktop Entry]\nExec=run\n[Actions]\nIcon=x\n";
    let doc = parse_desktop_text(text);
    assert_eq!(doc.entries, pairs(&[("Exec", "run")]));
    assert_eq!(
        doc.lines,
        strings(&["[Other Section]", "Name=Other", "[Desktop Entry]", "Exec=run", "[Actions]", "Icon=x"])
    );
}

#[test]
fn comments_are_skipped_but_kept() {
    let doc = parse_desktop_text("[Desktop Entry]\n  # Name=Ignored\nName=Kept\n");
    assert_eq!(doc.entries, pairs(&[("Name", "Kept")]));
    assert_eq!(doc.lines.len(), 3);
    assert_eq!(doc.lines[1], "  # Name=Ignored");
}

#[test]
fn keys_and_values_are_trimmed_and_split_at_first_equals() {
    let doc = parse_desktop_text("[Desktop Entry]\n  Exec = env A=1 run \t\nno pair here\n=empty key\n");
    assert_eq!(doc.entries, pairs(&[("Exec", "env A=1 run"), ("", "empty key")]));
}

#[test]
fn header_is_matched_by_prefix() {
    let doc = parse_desktop_text("[Desktop Entry extra]\nName=X\n[Desktop Entr]\nName=Y\n");
    assert_eq!(doc.entries, pairs(&[("Name", "X")]));
    let doc = parse_desktop_text("[Desktop Entr\nName=Y\n");
    assert!(doc.entries.is_empty());
}

#[test]
fn lines_before_any_header_are_ignored() {
    let doc = parse_desktop_lines(strings(&["Name=Before", "[Desktop Entry]", "Name=After"]));
    assert_eq!(doc.entries, pairs(&[("Name", "After")]));
}

#[test]
fn reparsing_written_lines_gives_the_same_entries() {
    let text = "# top\r\n[Desktop Entry]\r\nName = Demo \r\r\nVersion=1\rX\n[Other]\nName=No\nIcon=i\r";
    let doc = parse_desktop_text(text);
    let written: String = doc.lines.iter().map(|l| format!("{}\n", l)).collect();
    let again = parse_desktop_text(&written);
    assert_eq!(again.entries, doc.entries);
    assert_eq!(doc.entries, pairs(&[("Name", "Demo"), ("Version", "1\rX")]));
}

#[test]
fn unicode_whitespace_is_trimmed() {
    let doc = parse_desktop_text("[Desktop Entry]\n\u{3000}Name\u{A0}=\u{2003}Ünï\u{85}\n");
    assert_eq!(doc.entries, pairs(&[("Name", "Ünï")]));
}
