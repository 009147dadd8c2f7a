use cpu_temp::text::{
    chars_of, found_at, has_substring, is_blank_char, lower_char, same_chars, to_lower, trim,
};

fn chars(text: &str) -> Vec<char> {
    text.chars().collect()
}

#[test]
fn characters_come_out_in_order() {
    assert_eq!(chars_of(""), Vec::<char>::new());
    assert_eq!(chars_of("a°C"), vec!['a', '°', 'C']);
    assert_eq!(chars_of("k10temp"), chars("k10temp"));
}

#[test]
fn substrings_are_found_wherever_they_stand() {
    assert!(has_substring(&chars("coretemp-isa-0000"), &chars("coretemp")));
    assert!(has_substring(&chars("acpi-cpu-0"), &chars("cpu")));
    assert!(has_substring(&chars("xk10"), &chars("k10")));
    assert!(has_substring(&chars("abc"), &chars("")));
    assert!(has_substring(&chars(""), &chars("")));
    assert!(!has_substring(&chars(""), &chars("a")));
    assert!(!has_substring(&chars("cp"), &chars("cpu")));
    assert!(!has_substring(&chars("c-p-u"), &chars("cpu")));
    assert!(!has_substring(&chars("CPU"), &chars("cpu")));
    assert!(has_substring(&chars("aab"), &chars("ab")));
}

#[test]
fn a_pattern_is_found_at_its_place_only() {
    assert!(found_at(&chars("abcabc"), &chars("abc"), 0));
    assert!(found_at(&chars("abcabc"), &chars("abc"), 3));
    assert!(!found_at(&chars("abcabc"), &chars("abc"), 1));
    assert!(found_at(&chars("abc"), &chars(""), 3));
    assert!(!found_at(&chars("abc"), &chars(""), 4));
    assert!(!found_at(&chars("abc"), &chars("bc"), 2));
    assert!(!found_at(&chars("ab"), &chars("abc"), 0));
    assert!(!found_at(&chars("abc"), &chars("c"), usize::MAX));
}

#[test]
fn only_ascii_capitals_are_lowered() {
    assert_eq!(lower_char('A'), 'a');
    assert_eq!(lower_char('Z'), 'z');
    assert_eq!(lower_char('a'), 'a');
    assert_eq!(lower_char('@'), '@');
    assert_eq!(lower_char('['), '[');
    assert_eq!(lower_char('É'), 'É');
    assert_eq!(to_lower(&chars("Package id 0")), chars("package id 0"));
    assert_eq!(to_lower(&chars("TCTL")), chars("tctl"));
    assert_eq!(to_lower(&chars("")), chars(""));
}

#[test]
fn equal_sequences_are_told_from_others() {
    assert!(same_chars(&chars("tctl"), &chars("tctl")));
    assert!(same_chars(&chars(""), &chars("")));
    assert!(!same_chars(&chars("tctl"), &chars("tctl ")));
    assert!(!same_chars(&chars("tctl"), &chars("tctL")));
}

#[test]
fn blanks_are_the_white_space_characters() {
    for c in [' ', '\t', '\n', '\r', '\u{b}', '\u{c}', '\u{85}', '\u{a0}', '\u{1680}', '\u{2000}',
        '\u{200a}', '\u{2028}', '\u{2029}', '\u{202f}', '\u{205f}', '\u{3000}']
    {
        assert!(is_blank_char(c), "{:?}", c);
        assert!(c.is_whitespace());
    }
    for c in ['a', '0', '\u{8}', '\u{e}', '\u{200b}', '\u{feff}', '_'] {
        assert!(!is_blank_char(c), "{:?}", c);
        assert!(!c.is_whitespace());
    }
}

#[test]
fn trimming_takes_blanks_from_both_ends_only() {
    assert_eq!(trim(&chars("45230\n")), &chars("45230")[..]);
    assert_eq!(trim(&chars("  \t45 230 \r\n")), &chars("45 230")[..]);
    assert_eq!(trim(&chars("\u{a0}x\u{3000}")), &chars("x")[..]);
    assert_eq!(trim(&chars("abc")), &chars("abc")[..]);
    assert_eq!(trim(&chars(" \n ")), &chars("")[..]);
    assert_eq!(trim(&chars("")), &chars("")[..]);
}

#[test]
fn trimming_agrees_with_the_standard_library() {
    for text in ["", " ", "a", " a", "a ", " a b ", "\n\n7\n", "\u{2003}4\u{2003}", "\t\t"] {
        assert_eq!(trim(&chars(text)), &chars(text.trim())[..], "{:?}", text);
    }
}
