use ccchat::chunk::split_message;
use ccchat::chunk::truncate;

/// Restore the newlines a split dropped: parts beyond the first were cut
/// either at a newline run (restored here with a single separator pass)
/// or at the hard limit.  For texts without newlines the parts simply
/// concatenate.
fn concat(parts: &[String]) -> String {
    let mut s = String::new();
    for p in parts {
        s.push_str(p);
    }
    s
}

#[test]
fn split_short_text_is_identity() {
    let parts = split_message("hello", 4000);
    assert_eq!(parts, vec!["hello".to_string()]);
}

#[test]
fn split_empty_text_is_single_empty_part() {
    let parts = split_message("", 10);
    assert_eq!(parts, vec!["".to_string()]);
}

#[test]
fn split_long_text_without_newlines_cuts_at_hard_limit() {
    let text = "a".repeat(6000);
    let parts = split_message(&text, 4000);
    assert_eq!(parts.len(), 2);
    assert_eq!(parts[0].len(), 4000);
    assert_eq!(parts[1].len(), 2000);
    assert_eq!(concat(&parts), text);
}

#[test]
fn split_prefers_paragraph_boundary() {
    let mut text = "x".repeat(50);
    text.push_str("\n\n");
    text.push_str(&"y".repeat(50));
    let parts = split_message(&text, 60);
    assert_eq!(parts.len(), 2);
    assert_eq!(parts[0], "x".repeat(50));
    assert_eq!(parts[1], "y".repeat(50));
    // the two dropped newlines restore the original exactly
    let restored = format!("{}\n\n{}", parts[0], parts[1]);
    assert_eq!(restored, text);
}

#[test]
fn split_falls_back_to_line_boundary() {
    let mut text = "x".repeat(50);
    text.push('\n');
    text.push_str(&"y".repeat(50));
    let parts = split_message(&text, 60);
    assert_eq!(parts.len(), 2);
    assert_eq!(parts[0], "x".repeat(50));
    assert_eq!(parts[1], "y".repeat(50));
    let restored = format!("{}\n{}", parts[0], parts[1]);
    assert_eq!(restored, text);
}

#[test]
fn split_every_part_fits_the_limit() {
    let mut text = String::new();
    for i in 0..300 {
        text.push_str(&format!("line {}\n", i));
    }
    let parts = split_message(&text, 100);
    assert!(parts.len() > 1);
    for p in &parts {
        assert!(p.len() <= 100);
    }
}

#[test]
fn split_round_trip_with_newline_runs_restored() {
    // Rebuild the original by walking it alongside the parts: each part
    // must reappear literally, separated only by runs of newlines.
    let text = "first paragraph\n\nsecond paragraph that is a bit longer\n\nthird";
    let parts = split_message(text, 20);
    let original: Vec<char> = text.chars().collect();
    let mut pos = 0;
    for p in &parts {
        let chars: Vec<char> = p.chars().collect();
        assert_eq!(&original[pos..pos + chars.len()], &chars[..]);
        pos += chars.len();
        while pos < original.len() && original[pos] == '\n' {
            pos += 1;
        }
    }
    assert_eq!(pos, original.len());
}

#[test]
fn truncate_keeps_short_text() {
    assert_eq!(truncate("hello", 10), "hello");
}

#[test]
fn truncate_marks_elision() {
    assert_eq!(truncate("hello world", 5), "hello...");
}
