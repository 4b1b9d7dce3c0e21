use sa2_piece_gen::hint_lookup::{concat_text, HintLookup, TextElement};

fn texts(n: usize) -> Vec<Vec<TextElement>> {
    (0..n)
        .map(|i| vec![TextElement::Text(format!("t{}", i)), TextElement::Control, TextElement::Text("!".to_string())])
        .collect()
}

#[test]
fn concat_text_skips_control_codes() {
    let t = vec![TextElement::Control, TextElement::Text("ab".to_string()), TextElement::Control, TextElement::Text("c".to_string())];
    assert_eq!(concat_text(&t), "abc");
    assert_eq!(concat_text(&Vec::new()), "");
}

#[test]
fn lookup_piece_by_major_and_minor() {
    let h = HintLookup::from_texts(&texts(444)).unwrap();
    let first = h.lookup_piece(0x0000);
    assert_eq!((first.h1.as_str(), first.h2.as_str(), first.h3.as_str()), ("t0!", "t1!", "t2!"));
    // major 1 starts at hint 8
    assert_eq!(h.lookup_piece(0x0102).h1, "t30!");
    // major 9 starts at hint 104
    assert_eq!(h.lookup_piece(0x0902).h3, format!("t{}!", 3 * 106 + 2));
    // major 0x0A starts at hint 107, and has 41 hints
    assert_eq!(h.lookup_piece(0x0A28).h2, format!("t{}!", 3 * 147 + 1));
}

#[test]
fn hint_file_must_hold_whole_hints() {
    assert!(HintLookup::from_texts(&texts(443)).is_none());
    assert!(HintLookup::from_texts(&texts(445)).is_none());
    assert!(HintLookup::from_texts(&texts(441)).is_none());
    assert!(HintLookup::from_texts(&texts(447)).is_some());
}

#[test]
fn has_hints_follows_category_sizes() {
    let h = HintLookup::from_texts(&texts(444)).unwrap();
    assert!(h.has_hints(0x0007));
    assert!(!h.has_hints(0x0008));
    assert!(h.has_hints(0x0117));
    assert!(!h.has_hints(0x0118));
    assert!(h.has_hints(0x0A28));
    assert!(!h.has_hints(0x0A29));
    assert!(!h.has_hints(0x0B00));
}
