use spotifast::bidi::{bidi_category, cuts, halign_for, has_rtl, is_rtl, BidiCategory, TextAlign};

#[test]
fn detects_rtl() {
    assert!(is_rtl("غيوم في السماء"));
    assert!(is_rtl("מה נשמע"));
    assert!(is_rtl("السماء"));
    assert!(!is_rtl("Hello world"));
    assert!(!is_rtl("Hello غيوم")); // base LTR
    assert!(is_rtl("غيوم Hello")); // base RTL
    assert!(is_rtl("2024 غيوم")); // digits are weak
    assert!(!is_rtl(""));
    assert!(!is_rtl("   "));
    assert!(!is_rtl("123"));
    assert!(!is_rtl("Ça va"));
}

#[test]
fn halign() {
    assert_eq!(halign_for("غيوم"), TextAlign::Right);
    assert_eq!(halign_for("Hello"), TextAlign::Left);
}

#[test]
fn any_rtl_letter_needs_reordering() {
    assert!(has_rtl("Hello غيوم"));
    assert!(has_rtl("(שלום) עולם"));
    assert!(!has_rtl("Ça va"));
    assert!(!has_rtl("Hello world"));
}

#[test]
fn words_are_not_cut_inside_a_joined_sequence() {
    assert_eq!(cuts("abc"), vec![0, 1, 2]);
    // Two-byte letters step two bytes at a time.
    assert_eq!(cuts("שלו"), vec![0, 2, 4]);
    // A combining mark rides on the letter before it.
    assert_eq!(cuts("e\u{301}x"), vec![0, 3]);
    // Nothing is cut just after a zero-width joiner.
    assert_eq!(cuts("a\u{200d}b"), vec![0]);
    assert_eq!(cuts(""), Vec::<usize>::new());
}

#[test]
fn ascii_text_never_holds_or_reads_right_to_left() {
    for text in ["", "Hello", "123 !?", "\t\n~"] {
        assert!(!has_rtl(text));
        assert!(!is_rtl(text));
    }
    assert!(has_rtl("Hello غيوم"));
    assert!(!is_rtl("Hello غيوم"));
}

#[test]
fn ascii_characters_have_the_table_classes() {
    for v in 0u32..128 {
        let c = char::from_u32(v).unwrap();
        let expected = match v {
            0x00..=0x08 | 0x0e..=0x1b | 0x7f => BidiCategory::BN,
            0x09 | 0x0b | 0x1f => BidiCategory::S,
            0x0a | 0x0d | 0x1c..=0x1e => BidiCategory::B,
            0x0c | 0x20 => BidiCategory::WS,
            0x23..=0x25 => BidiCategory::ET,
            0x2b | 0x2d => BidiCategory::ES,
            0x2c | 0x2e | 0x2f | 0x3a => BidiCategory::CS,
            0x30..=0x39 => BidiCategory::EN,
            0x41..=0x5a | 0x61..=0x7a => BidiCategory::L,
            _ => BidiCategory::ON,
        };
        assert_eq!(bidi_category(c), expected, "{v:#x}");
    }
}
