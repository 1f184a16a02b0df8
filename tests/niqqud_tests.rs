use niqqud::remove;
use niqqud::remove_thorough;

#[test]
fn test_normal_remove() {
    let string = remove("שָׁלוֹם עוֹלָם");

    assert_eq!("שלום עולם", string);
}

#[test]
fn empty_input_gives_empty_output() {
    assert_eq!("", remove(""));
    assert_eq!("", remove_thorough(""));
}

#[test]
fn remove_strips_niqqud_from_word() {
    assert_eq!("נקוד", remove("נִקּוּד"));
}

#[test]
fn remove_keeps_gershayim() {
    assert_eq!("״שלום עולם״", remove("״שָׁלוֹם עוֹלָם״"));
}

#[test]
fn remove_thorough_strips_gershayim() {
    assert_eq!("שלום עולם", remove_thorough("״שָׁלוֹם עוֹלָם״"));
}

#[test]
fn remove_thorough_word_in_gershayim() {
    assert_eq!("גרשים", remove_thorough("״גֵּרְשַׁיִם״"));
}

#[test]
fn non_hebrew_text_is_unchanged() {
    assert_eq!("hello world", remove("hello world"));
    assert_eq!("hello world", remove_thorough("hello world"));
}

#[test]
fn only_diacritics_gives_empty_output() {
    assert_eq!("", remove("\u{05B8}\u{05BC}\u{05C1}"));
    assert_eq!("", remove_thorough("\u{05B8}\u{05BC}\u{05C1}"));
}

#[test]
fn diacritic_range_boundaries() {
    assert_eq!("\u{058F}\u{05D0}", remove("\u{058F}\u{0590}\u{05CF}\u{05D0}"));
}

#[test]
fn special_range_boundaries() {
    let input = "\u{05EA}\u{05EB}\u{05F3}\u{05F4}\u{05FF}\u{0600}";
    assert_eq!(input, remove(input));
    assert_eq!("\u{05EA}\u{0600}", remove_thorough(input));
}

#[test]
fn thorough_result_is_within_remove_result() {
    let input = "א\u{05B8}׳ב\u{05F4}ג";
    assert_eq!("א׳ב״ג", remove(input));
    assert_eq!("אבג", remove_thorough(input));
}

#[test]
fn removing_twice_is_removing_once() {
    let input = "״שָׁלוֹם עוֹלָם״";
    let once = remove(input).into_owned();
    assert_eq!(once, remove(&once));
    let once_thorough = remove_thorough(input).into_owned();
    assert_eq!(once_thorough, remove_thorough(&once_thorough));
}

#[test]
fn other_scripts_and_maqaf() {
    assert_eq!("ביתספר école", remove("בֵּית\u{05BE}סֵפֶר école"));
    assert_eq!("ביתספר", remove("בֵּית\u{05BE}סֵפֶר"));
}
