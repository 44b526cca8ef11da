use rcronym::{
    default_pattern, index_width, key_before, pattern_or_default, sort_by_key, thread_of_link,
    Acronym,
};

#[test]
fn default_pattern_wraps_key_in_word_boundaries() {
    assert_eq!(default_pattern("IMO"), r"\bIMO\b");
    assert_eq!(pattern_or_default("IMO", None), r"\bIMO\b");
    assert_eq!(pattern_or_default("IMO", Some("(?i)imo".to_string())), "(?i)imo");
}

#[test]
fn thread_of_link_drops_prefixes() {
    assert_eq!(thread_of_link("t3_8abc12"), "8abc12");
    assert_eq!(thread_of_link("t3_t3_x"), "x");
    assert_eq!(thread_of_link("t1_abc"), "t1_abc");
    assert_eq!(thread_of_link("t3"), "t3");
    assert_eq!(thread_of_link(""), "");
}

#[test]
fn index_width_counts_decimal_digits() {
    assert_eq!(index_width(0), 1);
    assert_eq!(index_width(9), 1);
    assert_eq!(index_width(10), 2);
    assert_eq!(index_width(12345), 5);
    assert_eq!(index_width(usize::MAX), usize::MAX.to_string().len());
}

#[test]
fn keys_compare_by_code_point() {
    assert!(key_before("ABI", "IMO"));
    assert!(!key_before("IMO", "ABI"));
    assert!(key_before("IMO", "IMO"));
    assert!(key_before("IM", "IMO"));
    assert!(!key_before("IMO", "IM"));
    assert!(key_before("", ""));
    assert!(key_before("Z", "a"));
}

#[test]
fn sort_by_key_orders_and_keeps_everything() {
    let make = |id: i32, key: &str| Acronym {
        id,
        key: key.to_string(),
        regex: String::new(),
        value: String::new(),
    };
    let v = vec![make(1, "RAII"), make(2, "ABI"), make(3, "IMO"), make(4, "ABI")];
    let sorted = sort_by_key(&v);
    let ids: Vec<i32> = sorted.iter().map(|a| a.id).collect();
    assert_eq!(ids, vec![2, 4, 3, 1]);
}

#[test]
fn edit_replaces_only_given_fields() {
    let a = Acronym {
        id: 5,
        key: "IMO".to_string(),
        regex: r"\bIMO\b".to_string(),
        value: "In my opinion".to_string(),
    };
    let b = a.edited(None, None, Some("In my humble opinion".to_string()));
    assert_eq!(b.id, 5);
    assert_eq!(b.key, "IMO");
    assert_eq!(b.regex, r"\bIMO\b");
    assert_eq!(b.value, "In my humble opinion");
    let c = a.edited(Some("IMHO".to_string()), Some(r"\bIMHO\b".to_string()), None);
    assert_eq!(c.key, "IMHO");
    assert_eq!(c.regex, r"\bIMHO\b");
    assert_eq!(c.value, "In my opinion");
}
