use quiettools::reading::{
    choose_reading, merge_readings, ocr_bitmap, recognition_outcome, recognition_plan, recognize_region,
    EngineReadings, Preprocess,
};
use quiettools::text::{fix_ocr_result, normalize_fullwidth};
use quiettools::image::pick_scale;

fn strings(v: &[&str]) -> Vec<String> {
    v.iter().map(|s| s.to_string()).collect()
}

/// Readings of one bitmap: the first is the profile engine's, the rest the
/// per-language engines'; `None` stands for an engine that failed.
fn engines(profile: Option<&str>, langs: &[Option<&str>]) -> EngineReadings {
    EngineReadings {
        profile: profile.map(|s| s.to_string()),
        languages: Some(langs.iter().map(|o| o.map(|s| s.to_string())).collect()),
    }
}

fn bitmap_of(v: &[&str]) -> EngineReadings {
    engines(None, &v.iter().map(|s| Some(*s)).collect::<Vec<_>>())
}

#[test]
fn normalize_folds_fullwidth_forms() {
    assert_eq!(normalize_fullwidth("\u{FF08}\u{FF21}\u{FF22}\u{FF43}\u{FF11}\u{FF12}\u{FF10}\u{FF09}"), "(ABc120)");
    assert_eq!(normalize_fullwidth("\u{FF3B}x\u{FF3D}\u{FF5B}\u{FF5D}\u{FF1A}\u{FF1B}\u{FF0C}\u{FF0E}"), "[x]{}:;,.");
}

#[test]
fn normalize_folds_cyrillic_lookalikes() {
    // Т е с т : the last letter has no Latin twin and stays
    assert_eq!(normalize_fullwidth("\u{0422}\u{0435}\u{0441}\u{0442}"), "Tec\u{0442}");
    assert_eq!(normalize_fullwidth("\u{0410}\u{0412}\u{0415}\u{0406}\u{041A}\u{041C}\u{041D}\u{041E}\u{0420}\u{0421}\u{0422}\u{0425}"), "ABEIKMHOPCTX");
    assert_eq!(normalize_fullwidth("\u{0430}\u{0435}\u{0456}\u{043E}\u{0440}\u{0441}\u{0443}\u{0445}"), "aeiopcyx");
    assert_eq!(normalize_fullwidth("plain text 42"), "plain text 42");
}

#[test]
fn normalize_twice_is_normalize_once() {
    let s = "\u{FF21}\u{0410}x\u{4E2D}";
    let once = normalize_fullwidth(s);
    assert_eq!(normalize_fullwidth(&once), once);
    assert_eq!(once.chars().count(), s.chars().count());
}

#[test]
fn fix_turns_letter_between_digits_into_times() {
    assert_eq!(fix_ocr_result("1920\u{0445}1080"), "1920\u{00D7}1080");
    assert_eq!(fix_ocr_result("3*4"), "3\u{00D7}4");
    assert_eq!(fix_ocr_result("a*b"), "a*b");
    assert_eq!(fix_ocr_result("\u{0445}1"), "\u{0445}1");
    assert_eq!(fix_ocr_result("1\u{0445}"), "1\u{0445}");
}

#[test]
fn fix_turns_cyrillic_px_after_number_into_unit() {
    assert_eq!(fix_ocr_result("12\u{0440}\u{0445}"), "12px");
    assert_eq!(fix_ocr_result("12   \u{0440}\u{0445} wide"), "12   px wide");
    assert_eq!(fix_ocr_result("a \u{0440}\u{0445}"), "a \u{0440}\u{0445}");
    assert_eq!(fix_ocr_result("\u{0440}\u{0445}"), "\u{0440}\u{0445}");
}

#[test]
fn fix_keeps_length() {
    let s = "8\u{0445}8 \u{0440}\u{0445} 1*2 \u{0440}\u{0445}";
    assert_eq!(fix_ocr_result(s).chars().count(), s.chars().count());
    assert_eq!(fix_ocr_result(s), "8\u{00D7}8 px 1\u{00D7}2 px");
}

#[test]
fn merge_trims_and_skips_blank_readings() {
    assert_eq!(merge_readings(&strings(&["  hello \n", "", "   "])), Some("hello".to_string()));
    assert_eq!(merge_readings(&strings(&["", " \t "])), None);
    assert_eq!(merge_readings(&strings(&[])), None);
    // U+3000 is white space too
    assert_eq!(merge_readings(&strings(&["\u{3000}abc\u{3000}"])), Some("abc".to_string()));
}

#[test]
fn merge_prefers_non_latin_script_then_more_letters() {
    let r = merge_readings(&strings(&["abc", "\u{041F}\u{0440}\u{0438}\u{0432}\u{0435}\u{0442}"]));
    assert_eq!(r, Some("\u{041F}p\u{0438}\u{0432}e\u{0442}".to_string()));
    let r = merge_readings(&strings(&["ab", "abcd", "abc"]));
    assert_eq!(r, Some("abcd".to_string()));
    // equal rank: the first reading wins
    let r = merge_readings(&strings(&["xy", "zw"]));
    assert_eq!(r, Some("xy".to_string()));
}

#[test]
fn merge_restores_a_lost_opening_bracket() {
    let r = merge_readings(&strings(&["foo bar)", "foo (bar)"]));
    assert_eq!(r, Some("foo (bar)".to_string()));
    let r = merge_readings(&strings(&["see item2]", "see [item2]"]));
    assert_eq!(r, Some("see [item2]".to_string()));
    // the bracket goes before the whole word found
    let r = merge_readings(&strings(&["call fooBar)", "(Bar)"]));
    assert_eq!(r, Some("call (fooBar)".to_string()));
    // nothing to restore when the best reading already holds both
    let r = merge_readings(&strings(&["(a) b", "[a] c"]));
    assert_eq!(r, Some("(a) b".to_string()));
}

#[test]
fn merge_applies_fixes_to_the_result() {
    // folding comes first, so the Cyrillic letters are Latin by then
    let r = merge_readings(&strings(&["100\u{0445}200 \u{0440}\u{0445}"]));
    assert_eq!(r, Some("100x200 px".to_string()));
    let r = merge_readings(&strings(&["3*4 cm"]));
    assert_eq!(r, Some("3\u{00D7}4 cm".to_string()));
}

#[test]
fn choose_reading_picks_first_with_most_letters() {
    assert_eq!(choose_reading(&strings(&["ab", "abc1", "xyz9"])), Some("abc1".to_string()));
    assert_eq!(choose_reading(&strings(&["--", "??"])), Some("--".to_string()));
    assert_eq!(choose_reading(&strings(&[])), None);
    // counted after folding: two full-width letters beat one ASCII letter
    assert_eq!(choose_reading(&strings(&["a", "\u{FF21}\u{FF22}"])), Some("\u{FF21}\u{FF22}".to_string()));
}

#[test]
fn recognize_region_merges_each_pass_then_chooses() {
    let passes = vec![bitmap_of(&["  ab "]), bitmap_of(&[]), bitmap_of(&["abc", "ab)"])];
    assert_eq!(recognize_region(&passes), Ok("abc".to_string()));
    let empty = vec![bitmap_of(&["  "]), bitmap_of(&[])];
    assert_eq!(recognize_region(&empty), Err("No text found".to_string()));
    assert_eq!(recognize_region(&vec![]), Err("No text found".to_string()));
}

#[test]
fn recognize_region_leaves_out_passes_without_language_list() {
    let no_list = EngineReadings { profile: Some("abcdef".to_string()), languages: None };
    let passes = vec![no_list, bitmap_of(&["ab"])];
    assert_eq!(recognize_region(&passes), Ok("ab".to_string()));
    let only = vec![EngineReadings { profile: Some("abcdef".to_string()), languages: None }];
    assert_eq!(recognize_region(&only), Err("No text found".to_string()));
}

#[test]
fn ocr_bitmap_without_language_list_asks_for_a_language_pack() {
    let e = EngineReadings { profile: Some("  hello ".to_string()), languages: None };
    assert_eq!(ocr_bitmap(&e), Err("OCR: install a language pack".to_string()));
    let e = EngineReadings { profile: None, languages: None };
    assert_eq!(ocr_bitmap(&e), Err("OCR: install a language pack".to_string()));
}

#[test]
fn ocr_bitmap_merges_profile_and_language_readings() {
    assert_eq!(ocr_bitmap(&engines(Some("  hello "), &[])), Ok("hello".to_string()));
    assert_eq!(ocr_bitmap(&engines(None, &[None, Some(" \t"), None])), Err("No text found".to_string()));
    assert_eq!(ocr_bitmap(&engines(None, &[])), Err("No text found".to_string()));
    // the profile reading takes part in the merge like the others
    assert_eq!(ocr_bitmap(&engines(Some("foo bar)"), &[None, Some("foo (bar)")])), Ok("foo (bar)".to_string()));
    assert_eq!(ocr_bitmap(&engines(Some("ab"), &[Some("abcd")])), Ok("abcd".to_string()));
}

#[test]
fn recognition_outcome_cases() {
    assert_eq!(recognition_outcome(&Ok("hi".to_string())), (true, "hi".to_string()));
    assert_eq!(recognition_outcome(&Ok(" \n".to_string())), (false, "No text found".to_string()));
    assert_eq!(recognition_outcome(&Err("OCR failed".to_string())), (false, "OCR failed".to_string()));
}

#[test]
fn scale_and_plan_depend_on_region_size() {
    assert_eq!(pick_scale(10, 79), 8);
    assert_eq!(pick_scale(80, 10), 5);
    assert_eq!(pick_scale(159, 159), 5);
    assert_eq!(pick_scale(160, 1), 3);
    assert_eq!(recognition_plan(50, 60), vec![Preprocess::AsIs, Preprocess::Gray, Preprocess::GrayFixed]);
    assert_eq!(recognition_plan(200, 30), vec![Preprocess::AsIs, Preprocess::GrayOtsu]);
}

#[test]
fn fix_twice_is_fix_once() {
    for s in ["1\u{0445}2", "3 \u{0440}\u{0445}\u{0445}4", "1*\u{0445}2", "9\u{0440}\u{0445}*1"] {
        let once = fix_ocr_result(s);
        assert_eq!(fix_ocr_result(&once), once);
    }
}

#[test]
fn recognized_text_is_trimmed_and_folded() {
    let passes = vec![bitmap_of(&["\u{3000}\u{FF08}ab\u{FF09} 3*4\u{00A0}", "  "])];
    let r = recognize_region(&passes).unwrap();
    assert_eq!(r, "(ab) 3\u{00D7}4");
    assert_eq!(r.trim(), r);
    assert_eq!(normalize_fullwidth(&r), r);
}
