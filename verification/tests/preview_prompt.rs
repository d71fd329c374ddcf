use dbdm::preview::{preview_file, FilePreview, MAX_PREVIEW_SIZE};
use dbdm::prompt::{parse_choice, parse_confirm};
use dbdm::plan::Choice;

#[test]
fn small_text_file_is_shown_verbatim() {
    let bytes: Vec<u8> = Vec::from("old file".as_bytes());
    let p = preview_file(8, &bytes);
    assert_eq!(p, FilePreview::Text { content: String::from("old file") });
}

#[test]
fn empty_file_is_reported_empty() {
    let bytes: Vec<u8> = Vec::new();
    assert_eq!(preview_file(0, &bytes), FilePreview::Empty);
}

#[test]
fn file_with_a_null_byte_is_binary() {
    let bytes: Vec<u8> = vec![104, 105, 0, 33];
    assert_eq!(preview_file(4, &bytes), FilePreview::Binary);
}

#[test]
fn file_with_invalid_encoding_is_binary() {
    let bytes: Vec<u8> = vec![0xFF, 0xFE, 0x41];
    assert_eq!(preview_file(3, &bytes), FilePreview::Binary);
}

#[test]
fn oversized_file_is_reported_by_size_alone() {
    let bytes: Vec<u8> = Vec::new();
    let len = MAX_PREVIEW_SIZE + 1;
    assert_eq!(preview_file(len, &bytes), FilePreview::TooLarge { len });
}

#[test]
fn file_at_the_size_limit_is_still_shown() {
    let bytes: Vec<u8> = vec![97; 4];
    assert_eq!(
        preview_file(MAX_PREVIEW_SIZE, &bytes),
        FilePreview::Text { content: String::from("aaaa") }
    );
}

#[test]
fn choice_accepts_single_letters_and_words_case_insensitively() {
    assert_eq!(parse_choice("r"), Some(Choice::Replace));
    assert_eq!(parse_choice("Replace"), Some(Choice::Replace));
    assert_eq!(parse_choice("  b \n"), Some(Choice::Backup));
    assert_eq!(parse_choice("BACKUP"), Some(Choice::Backup));
    assert_eq!(parse_choice("s"), Some(Choice::Skip));
    assert_eq!(parse_choice("Skip"), Some(Choice::Skip));
}

#[test]
fn choice_rejects_anything_else() {
    assert_eq!(parse_choice("q"), None);
    assert_eq!(parse_choice(""), None);
    assert_eq!(parse_choice("replace it"), None);
}

#[test]
fn confirmation_accepts_yes_and_declines_the_rest() {
    assert!(parse_confirm("y"));
    assert!(parse_confirm("YES\n"));
    assert!(!parse_confirm("n"));
    assert!(!parse_confirm(""));
    assert!(!parse_confirm("maybe"));
}
