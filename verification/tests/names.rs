use schema_migration::name::name_less;

#[test]
fn a_name_sorts_before_a_later_timestamp() {
    assert!(name_less("m20220101_000001_create_event", "m20251223_125421_create_venue"));
    assert!(!name_less("m20251223_125421_create_venue", "m20220101_000001_create_event"));
}

#[test]
fn no_name_sorts_before_itself() {
    assert!(!name_less("m1", "m1"));
    assert!(!name_less("", ""));
}

#[test]
fn a_proper_prefix_sorts_first() {
    assert!(name_less("m1", "m10"));
    assert!(!name_less("m10", "m1"));
    assert!(name_less("", "a"));
    assert!(!name_less("a", ""));
}

#[test]
fn names_sort_byte_by_byte() {
    assert!(name_less("m10", "m2"));
    assert!(name_less("A", "a"));
    assert!(name_less("a", "é"));
    assert!(name_less("z", "é"));
    assert!(!name_less("é", "z"));
}

#[test]
fn name_order_agrees_with_string_order() {
    let names = ["", "a", "ab", "b", "m1", "m10", "m2", "é", "日本", "zz"];
    for a in names.iter() {
        for b in names.iter() {
            assert_eq!(name_less(a, b), a < b);
        }
    }
}
