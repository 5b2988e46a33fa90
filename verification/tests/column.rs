use sir::column::{resolve, InvalidColumn};
use sir::Column;

#[test]
fn column() {
    assert!("".try_into_index().is_err());
    assert_eq!("W".try_into_index().unwrap(), 22);
    assert_eq!("AA".try_into_index().unwrap(), 26);
    assert_eq!("CY".try_into_index().unwrap(), 102);
}

#[test]
fn single_letters_count_from_zero() {
    assert_eq!(resolve("A"), Ok(0));
    assert_eq!(resolve("B"), Ok(1));
    assert_eq!(resolve("Z"), Ok(25));
}

#[test]
fn two_letters_follow_z() {
    assert_eq!(resolve("AA"), Ok(26));
    assert_eq!(resolve("AZ"), Ok(51));
    assert_eq!(resolve("BA"), Ok(52));
    assert_eq!(resolve("ZZ"), Ok(701));
    assert_eq!(resolve("AAA"), Ok(702));
}

#[test]
fn lower_case_reads_as_upper_case() {
    assert_eq!(resolve("w"), Ok(22));
    assert_eq!(resolve("aa"), Ok(26));
    assert_eq!(resolve("cY"), Ok(102));
}

#[test]
fn other_characters_are_ignored() {
    assert_eq!(resolve("A1"), Ok(0));
    assert_eq!(resolve(" C-Y "), Ok(102));
    assert_eq!(resolve("\u{e4}W"), Ok(22));
}

#[test]
fn empty_label_is_rejected() {
    assert_eq!(resolve(""), Err(InvalidColumn::Empty));
    assert_eq!(String::new().try_into_index(), Err(InvalidColumn::Empty));
}

#[test]
fn label_without_letters_is_rejected() {
    assert_eq!(resolve("123"), Err(InvalidColumn::NoLetters));
    assert_eq!(resolve(" "), Err(InvalidColumn::NoLetters));
}

#[test]
fn label_beyond_the_last_index_is_rejected() {
    // 26 + 26^2 + ... + 26^7 columns have at most seven letters.
    assert_eq!(resolve("MWLQKWU"), Ok(4_294_967_294));
    assert_eq!(resolve("MWLQKWV"), Err(InvalidColumn::OutOfRange));
    assert_eq!(resolve("ZZZZZZZZZZZZZZZZZZZZZZZZZZZZZZ"), Err(InvalidColumn::OutOfRange));
}

#[test]
fn string_labels_resolve_like_slices() {
    assert_eq!(String::from("CY").try_into_index(), Ok(102));
    assert_eq!("CY".try_into_index(), Ok(102));
}
