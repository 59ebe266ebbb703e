use flat_template::string_interner::StringInterner;

#[test]
fn deduplicates_strings() {
    let (interner, first) = StringInterner::<16>::new().intern("div");
    let (interner, second) = interner.intern("div");

    assert_eq!(first, second);
    assert_eq!(interner.str_at(first), "div");
}

#[test]
fn stores_distinct_strings() {
    let (interner, first) = StringInterner::<16>::new().intern("div");
    let (interner, second) = interner.intern("span");

    assert_ne!(first, second);
    assert_eq!(interner.str_at(first), "div");
    assert_eq!(interner.str_at(second), "span");
}

#[test]
fn indices_follow_first_interning_order() {
    let (interner, a) = StringInterner::<16>::new().intern("a");
    let (interner, b) = interner.intern("bc");
    let (interner, a2) = interner.intern("a");
    let (interner, d) = interner.intern("");
    assert_eq!((a, b, a2, d), (0, 1, 0, 2));
    assert_eq!(interner.str_at(1), "bc");
    assert_eq!(interner.str_at(2), "");
}

#[test]
fn non_ascii_strings_round_trip() {
    let (interner, i) = StringInterner::<16>::new().intern("héllo");
    assert_eq!(interner.str_at(i), "héllo");
}

#[test]
fn values_lists_strings_in_order() {
    let (interner, _) = StringInterner::<16>::new().intern("div");
    let (interner, _) = interner.intern("span");
    let (interner, i) = interner.intern("div");
    assert_eq!(i, 0);
    assert_eq!(interner.values(), vec!["div", "span"]);
}

#[test]
fn debug_text_lists_the_strings_quoted() {
    let (interner, _) = StringInterner::<32>::new().intern("div");
    let (interner, _) = interner.intern("say \"hi\"");
    assert_eq!(
        interner.debug_string(),
        "StringInterner { values: [\"div\", \"say \\\"hi\\\"\"] }"
    );
    assert_eq!(
        StringInterner::<8>::new().debug_string(),
        "StringInterner { values: [] }"
    );
}
