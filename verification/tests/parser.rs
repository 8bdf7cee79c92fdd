use tsttr::common::Failure;
use tsttr::hotkey::compile_modifiers;
use tsttr::hotkey::vkcode_from_scan;
use tsttr::hotkey::CompiledHotkey;
use tsttr::hotkey::KeyCombination;
use tsttr::hotkey::Modifier;
use tsttr::hotkey::MOD_ALT;
use tsttr::hotkey::MOD_CONTROL;
use tsttr::hotkey::MOD_SHIFT;
use tsttr::hotkey::MOD_WIN;
use tsttr::hotkey::VK_RETURN;
use tsttr::text::same_text;
use tsttr::text::split_trimmed;
use tsttr::text::split_words;
use tsttr::text::trim;
use tsttr::text::trim_range;

fn strings(items: &[&str]) -> Vec<String> {
    items.iter().map(|s| s.to_string()).collect()
}

#[test]
fn single_token_is_too_short() {
    assert_eq!(KeyCombination::parse("W"), Err(Failure::InvalidCombinationLength));
}

#[test]
fn empty_text_is_too_short() {
    assert_eq!(KeyCombination::parse(""), Err(Failure::InvalidCombinationLength));
}

#[test]
fn six_tokens_are_too_long() {
    assert_eq!(
        KeyCombination::parse("CTRL+ALT+SHIFT+WIN+CTRL+W"),
        Err(Failure::InvalidCombinationLength)
    );
}

#[test]
fn length_is_judged_before_the_modifiers() {
    assert_eq!(
        KeyCombination::parse("A+B+C+D+E+F"),
        Err(Failure::InvalidCombinationLength)
    );
}

#[test]
fn five_tokens_are_accepted() {
    let combo = KeyCombination::parse("CTRL+ALT+SHIFT+WIN+W").unwrap();
    assert_eq!(
        combo.modifiers,
        vec![Modifier::Ctrl, Modifier::Alt, Modifier::Shift, Modifier::Win]
    );
    assert_eq!(combo.terminal, "W");
    assert_eq!(combo.modifier_mask(), 15);
}

#[test]
fn two_tokens_are_accepted() {
    let combo = KeyCombination::parse("ALT+RETURN").unwrap();
    assert_eq!(combo.modifiers, vec![Modifier::Alt]);
    assert_eq!(combo.terminal, "RETURN");
}

#[test]
fn unknown_modifier_is_refused() {
    assert_eq!(KeyCombination::parse("CTRL+FOO+W"), Err(Failure::InvalidModifier));
}

#[test]
fn modifiers_are_case_sensitive() {
    assert_eq!(KeyCombination::parse("ctrl+W"), Err(Failure::InvalidModifier));
}

#[test]
fn modifier_is_judged_before_the_key() {
    assert_eq!(KeyCombination::parse("FOO+"), Err(Failure::InvalidModifier));
}

#[test]
fn empty_terminal_token_has_no_key() {
    assert_eq!(KeyCombination::parse("CTRL+"), Err(Failure::UnresolvableKey));
    assert_eq!(KeyCombination::parse("CTRL+   "), Err(Failure::UnresolvableKey));
}

#[test]
fn tokens_are_trimmed() {
    let combo = KeyCombination::parse("  CTRL +\tALT+ W ").unwrap();
    assert_eq!(combo.modifiers, vec![Modifier::Ctrl, Modifier::Alt]);
    assert_eq!(combo.terminal, "W");
}

#[test]
fn mask_is_the_or_of_the_flags() {
    let combo = KeyCombination::parse("CTRL+ALT+W").unwrap();
    assert_eq!(combo.modifier_mask(), MOD_CONTROL | MOD_ALT);
    assert_eq!(combo.modifier_mask(), 3);
    let combo = KeyCombination::parse("SHIFT+WIN+W").unwrap();
    assert_eq!(combo.modifier_mask(), MOD_SHIFT | MOD_WIN);
    assert_eq!(combo.modifier_mask(), 12);
}

#[test]
fn mask_does_not_depend_on_the_order() {
    let a = KeyCombination::parse("CTRL+ALT+W").unwrap().compile(0x0157).unwrap();
    let b = KeyCombination::parse("ALT+CTRL+W").unwrap().compile(0x0157).unwrap();
    assert_eq!(a.modifier_mask, b.modifier_mask);
    assert_eq!(a, b);
}

#[test]
fn repeated_modifier_counts_once() {
    let combo = KeyCombination::parse("CTRL+CTRL+W").unwrap();
    assert_eq!(combo.modifier_mask(), MOD_CONTROL);
}

#[test]
fn return_has_its_fixed_code_under_every_layout() {
    let combo = KeyCombination::parse("ALT+RETURN").unwrap();
    assert_eq!(combo.layout_query(), None);
    for scan in [0i16, -1, 0x0157, i16::MIN, i16::MAX] {
        assert_eq!(
            combo.compile(scan),
            Ok(CompiledHotkey { modifier_mask: MOD_ALT, key_code: VK_RETURN })
        );
    }
    assert_eq!(VK_RETURN, 0x0D);
}

#[test]
fn return_is_matched_exactly() {
    let combo = KeyCombination::parse("ALT+Return").unwrap();
    assert_eq!(combo.layout_query(), Some('R' as u16));
}

#[test]
fn layout_is_asked_for_the_first_character() {
    let combo = KeyCombination::parse("CTRL+ALT+W").unwrap();
    assert_eq!(combo.layout_query(), Some(0x57));
    let combo = KeyCombination::parse("CTRL+we").unwrap();
    assert_eq!(combo.layout_query(), Some('w' as u16));
}

#[test]
fn layout_query_keeps_the_low_sixteen_bits() {
    let combo = KeyCombination::parse("CTRL+\u{1F600}").unwrap();
    assert_eq!(combo.layout_query(), Some(0xF600));
}

#[test]
fn key_code_is_the_low_byte_of_the_answer() {
    let combo = KeyCombination::parse("CTRL+ALT+W").unwrap();
    assert_eq!(
        combo.compile(0x0157),
        Ok(CompiledHotkey { modifier_mask: 3, key_code: 0x57 })
    );
}

#[test]
fn unresolved_character_fails() {
    let combo = KeyCombination::parse("CTRL+ALT+W").unwrap();
    assert_eq!(combo.compile(-1), Err(Failure::UnresolvableKey));
}

#[test]
fn vkcode_from_scan_values() {
    assert_eq!(vkcode_from_scan(-1), Err(Failure::UnresolvableKey));
    assert_eq!(vkcode_from_scan(0), Ok(0));
    assert_eq!(vkcode_from_scan(0x0157), Ok(0x57));
    assert_eq!(vkcode_from_scan(0x00FF), Ok(0xFF));
    assert_eq!(vkcode_from_scan(-2), Ok(0xFE));
    assert_eq!(vkcode_from_scan(i16::MIN), Ok(0));
    assert_eq!(vkcode_from_scan(i16::MAX), Ok(0xFF));
    for scan in [-300i16, -256, -255, 1, 255, 256, 0x7F41] {
        assert_eq!(vkcode_from_scan(scan), Ok(scan.to_be_bytes()[1] as u32));
    }
}

#[test]
fn compile_modifiers_values() {
    assert_eq!(compile_modifiers(&strings(&[])), Ok(0));
    assert_eq!(compile_modifiers(&strings(&["ALT"])), Ok(1));
    assert_eq!(compile_modifiers(&strings(&["CTRL"])), Ok(2));
    assert_eq!(compile_modifiers(&strings(&["SHIFT"])), Ok(4));
    assert_eq!(compile_modifiers(&strings(&["WIN"])), Ok(8));
    assert_eq!(compile_modifiers(&strings(&["WIN", "ALT", "WIN"])), Ok(9));
    assert_eq!(
        compile_modifiers(&strings(&["ALT", "alt"])),
        Err(Failure::InvalidModifier)
    );
}

#[test]
fn modifier_names_and_bits() {
    assert_eq!(Modifier::parse("ALT"), Some(Modifier::Alt));
    assert_eq!(Modifier::parse("CTRL"), Some(Modifier::Ctrl));
    assert_eq!(Modifier::parse("SHIFT"), Some(Modifier::Shift));
    assert_eq!(Modifier::parse("WIN"), Some(Modifier::Win));
    assert_eq!(Modifier::parse("RETURN"), None);
    assert_eq!(Modifier::parse(""), None);
    assert_eq!(Modifier::Alt.bit(), 1);
    assert_eq!(Modifier::Ctrl.bit(), 2);
    assert_eq!(Modifier::Shift.bit(), 4);
    assert_eq!(Modifier::Win.bit(), 8);
}

#[test]
fn from_tokens_takes_the_tokens_as_given() {
    assert_eq!(
        KeyCombination::from_tokens(&strings(&["CTRL", "W"])),
        Ok(KeyCombination { modifiers: vec![Modifier::Ctrl], terminal: "W".to_string() })
    );
    assert_eq!(
        KeyCombination::from_tokens(&strings(&[" CTRL", "W"])),
        Err(Failure::InvalidModifier)
    );
    assert_eq!(
        KeyCombination::from_tokens(&strings(&["W"])),
        Err(Failure::InvalidCombinationLength)
    );
}

#[test]
fn a_modifier_name_may_be_the_terminal_token() {
    let combo = KeyCombination::parse("ALT+CTRL").unwrap();
    assert_eq!(combo.modifiers, vec![Modifier::Alt]);
    assert_eq!(combo.layout_query(), Some('C' as u16));
}

#[test]
fn split_trimmed_pieces() {
    assert_eq!(split_trimmed("", '+'), strings(&[""]));
    assert_eq!(split_trimmed("+", '+'), strings(&["", ""]));
    assert_eq!(split_trimmed("a", '+'), strings(&["a"]));
    assert_eq!(split_trimmed(" a + b b +c ", '+'), strings(&["a", "b b", "c"]));
    assert_eq!(split_trimmed("a++b", '+'), strings(&["a", "", "b"]));
    assert_eq!(split_trimmed("\u{A0}x\u{3000}+\u{2003}y", '+'), strings(&["x", "y"]));
    for text in ["CTRL+ALT+W", " +  + ", "a + b", "++", "é+ü +\t"] {
        let expected: Vec<String> = text.split('+').map(|s| s.trim().to_string()).collect();
        assert_eq!(split_trimmed(text, '+'), expected);
    }
}

#[test]
fn trim_removes_white_space_at_both_ends_only() {
    assert_eq!(trim("  a b \t\n"), "a b");
    assert_eq!(trim(""), "");
    assert_eq!(trim(" \u{A0} "), "");
    assert_eq!(trim("x"), "x");
    assert_eq!(trim("\u{2028}é \u{2029}"), "é");
    assert_eq!(trim_range(" ab  cd ", 0, 8), (1, 7));
    assert_eq!(trim_range(" ab  cd ", 3, 5), (5, 5));
    assert_eq!(trim_range(" ab  cd ", 2, 6), (2, 6));
}

#[test]
fn split_words_runs() {
    assert_eq!(split_words(""), strings(&[]));
    assert_eq!(split_words("   "), strings(&[]));
    assert_eq!(split_words("notepad"), strings(&["notepad"]));
    assert_eq!(split_words("  git   commit\t-m\nhello "), strings(&["git", "commit", "-m", "hello"]));
    for text in ["a b", " a  b ", "\u{A0}x\u{3000}y", "é ü"] {
        let expected: Vec<String> = text.split_whitespace().map(|s| s.to_string()).collect();
        assert_eq!(split_words(text), expected);
    }
}

#[test]
fn same_text_compares_characters() {
    assert!(same_text("", ""));
    assert!(same_text("RETURN", "RETURN"));
    assert!(!same_text("RETURN", "RETURn"));
    assert!(!same_text("RETURN", "RETUR"));
    assert!(!same_text("é", "e"));
}
