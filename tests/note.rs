use notes_reminder::note::{MaterialTypes, RemindNote};
use notes_reminder::text::decimal;
use notes_reminder::time::{repeated_ago_text, Timestamp};

fn at(year: i32, month: u32, day: u32, hour: u32, minute: u32, second: u32) -> Timestamp {
    Timestamp::new(year, month, day, hour, minute, second, 0).unwrap()
}

fn book_note() -> RemindNote {
    RemindNote {
        note_id: 0x0123456789abcdef0123456789abcdef,
        content: "**Key** idea".to_string(),
        chapter: "3".to_string(),
        page: 12,
        added_at: at(2023, 5, 6, 0, 0, 0),
        tags: vec!["rust".to_string(), "verus".to_string()],
        notes_count: 42,
        material_title: Some("The Book".to_string()),
        material_authors: Some("Ann Author".to_string()),
        material_type: Some(MaterialTypes::Book),
        material_pages: 300,
        material_status: "reading".to_string(),
        material_repeats_count: Some(2),
        material_last_repeated_at: Some(at(2023, 1, 1, 10, 0, 0)),
    }
}

fn bare_note() -> RemindNote {
    RemindNote {
        note_id: 1,
        content: "plain".to_string(),
        chapter: String::new(),
        page: 0,
        added_at: at(2022, 12, 31, 23, 5, 9),
        tags: vec![],
        notes_count: 7,
        material_title: None,
        material_authors: None,
        material_type: None,
        material_pages: 0,
        material_status: "queue".to_string(),
        material_repeats_count: None,
        material_last_repeated_at: None,
    }
}

#[test]
fn full_note_text() {
    let note = book_note();
    let now = at(2024, 2, 5, 10, 0, 0);
    let expected = "«The Book» – Ann Author\n\n<b>Key</b> idea\n\n#rust #verus\n\nChapter: 3\nPage: 12/300\nMaterial status: reading\nAdded at (UTC): 2023-05-06\nRepeats count: 2\nLast repeated: 2023-01-01, 1 years, 1 months, 11 days ago\nTotal notes count: 42";
    assert_eq!(note.text_at(&now), expected);
}

#[test]
fn note_without_repeat_omits_repeat_lines() {
    let note = bare_note();
    let now = at(2024, 2, 5, 10, 0, 0);
    let text = note.text_at(&now);
    assert_eq!(text, "plain\n\nAdded at (UTC): 2022-12-31 23:05:09\nTotal notes count: 7");
    assert!(!text.contains("Repeats count"));
    assert!(!text.contains("Last repeated"));
    assert_eq!(note.repeated_ago_at(&now), "-");
    assert_eq!(note.repeated_ago(), "-");
}

#[test]
fn ago_of_four_hundred_days() {
    let note = book_note();
    assert_eq!(note.repeated_ago_at(&at(2024, 2, 5, 10, 0, 0)), "1 years, 1 months, 11 days ago");
    // one hour short of 400 days is 399 whole days
    assert_eq!(note.repeated_ago_at(&at(2024, 2, 5, 9, 0, 0)), "1 years, 1 months, 10 days ago");
}

#[test]
fn ago_leaves_out_zero_parts() {
    assert_eq!(string(repeated_ago_text(0)), "1 days ago");
    assert_eq!(string(repeated_ago_text(29)), "1 months ago");
    assert_eq!(string(repeated_ago_text(364)), "1 years, 5 days ago");
    assert_eq!(string(repeated_ago_text(-1)), " ago");
    assert_eq!(string(repeated_ago_text(-32)), "-1 months, -1 days ago");
}

#[test]
fn chapter_and_page_labels() {
    assert_eq!(MaterialTypes::Book.as_chapter(), "Chapter");
    assert_eq!(MaterialTypes::Course.as_chapter(), "Part");
    assert_eq!(MaterialTypes::Audiobook.as_page(), "Minute");
    assert_eq!(MaterialTypes::Course.as_page(), "Lecture");
    assert_eq!(MaterialTypes::Article.as_page(), "Page");
}

#[test]
fn lecture_note_uses_its_labels() {
    let mut note = book_note();
    note.material_type = Some(MaterialTypes::Lecture);
    note.chapter = String::new();
    note.tags = vec![];
    note.material_last_repeated_at = None;
    note.added_at = at(2023, 5, 6, 0, 0, 1);
    let text = note.text_at(&at(2024, 1, 1, 0, 0, 0));
    assert_eq!(text, "«The Book» – Ann Author\n\n<b>Key</b> idea\n\nMinute: 12/300\nMaterial status: reading\nAdded at (UTC): 2023-05-06 00:00:01\nTotal notes count: 42");
}

#[test]
fn url_holds_the_hyphenated_id() {
    let note = book_note();
    assert_eq!(
        note.get_url("http://tracker.lan"),
        "http://tracker.lan/notes/note?note_id=01234567-89ab-cdef-0123-456789abcdef"
    );
    assert_eq!(note.note_id(), 0x0123456789abcdef0123456789abcdef);
}

#[test]
fn getters() {
    let note = book_note();
    assert_eq!(note.material_title(), "The Book");
    assert_eq!(note.material_authors(), "Ann Author");
    assert_eq!(note.tags(), vec!["#rust".to_string(), "#verus".to_string()]);
    assert_eq!(note.content_html(), "<b>Key</b> idea");
    assert!(note.has_material());
    assert!(note.has_material_repeat());
    let bare = bare_note();
    assert_eq!(bare.material_title(), "");
    assert!(!bare.has_material());
    assert!(!bare.has_material_repeat());
}

#[test]
fn timestamps_must_name_a_real_time() {
    assert!(Timestamp::new(2023, 2, 29, 0, 0, 0, 0).is_none());
    assert!(Timestamp::new(2024, 2, 29, 0, 0, 0, 0).is_some());
    assert!(Timestamp::new(1900, 2, 29, 0, 0, 0, 0).is_none());
    assert!(Timestamp::new(2000, 2, 29, 0, 0, 0, 0).is_some());
    assert!(Timestamp::new(2024, 4, 31, 0, 0, 0, 0).is_none());
    assert!(Timestamp::new(2024, 1, 1, 24, 0, 0, 0).is_none());
    assert!(Timestamp::new(2024, 1, 1, 0, 0, 0, 1_000_000_000).is_none());
}

#[test]
fn years_outside_four_digits_carry_a_sign() {
    let mut note = bare_note();
    note.added_at = at(10000, 1, 2, 0, 0, 0);
    assert_eq!(note.text_at(&at(2024, 1, 1, 0, 0, 0)), "plain\n\nAdded at (UTC): +10000-01-02\nTotal notes count: 7");
    note.added_at = at(33, 3, 4, 0, 0, 0);
    assert_eq!(note.text_at(&at(2024, 1, 1, 0, 0, 0)), "plain\n\nAdded at (UTC): 0033-03-04\nTotal notes count: 7");
}

#[test]
fn decimal_notation() {
    assert_eq!(string(decimal(0)), "0");
    assert_eq!(string(decimal(-45)), "-45");
    assert_eq!(string(decimal(i128::MIN)), i128::MIN.to_string());
}

fn string(v: Vec<char>) -> String {
    v.into_iter().collect()
}

#[test]
fn note_without_repeat_reads_the_same_at_any_time() {
    let note = bare_note();
    assert_eq!(note.text_at(&at(2024, 2, 5, 10, 0, 0)), note.text_at(&at(1999, 1, 1, 0, 0, 0)));
    assert_eq!(note.to_text(), note.text_at(&at(2030, 6, 7, 8, 9, 10)));
}

#[test]
fn age_at_the_current_time() {
    let mut note = bare_note();
    note.material_last_repeated_at = Some(at(2000, 1, 1, 0, 0, 0));
    let ago = note.repeated_ago();
    assert!(ago.contains(" years") && ago.ends_with(" ago"), "{}", ago);
    let text = note.to_text();
    assert!(text.contains("Last repeated: 2000-01-01, "), "{}", text);
    assert!(text.contains("Repeats count: 0"), "{}", text);
}
