use fpl::groups::push_to_group;
use fpl::sorting::sort_by_key_desc;
use fpl::text::{decimal_string, push_decimal, str_eq, text_less};

#[test]
fn decimals_match_display() {
    for n in [0i64, 7, -7, 10, 1234567, -1234567, i64::MAX, i64::MIN] {
        assert_eq!(decimal_string(n), n.to_string());
    }
    let mut s = String::from("GW");
    push_decimal(&mut s, 38);
    assert_eq!(s, "GW38");
}

#[test]
fn text_order_is_code_point_order() {
    assert!(text_less("Alisson", "Salah"));
    assert!(!text_less("Salah", "Alisson"));
    assert!(text_less("Sala", "Salah"));
    assert!(!text_less("Salah", "Salah"));
    assert!(text_less("Zed", "alpha"));
    assert!(str_eq("Salah", "Salah"));
    assert!(!str_eq("Salah", "Saka"));
}

#[test]
fn stable_sort_keeps_ties_in_order() {
    let items = vec![(1i64, "a"), (3, "b"), (1, "c"), (3, "d"), (2, "e")];
    let sorted = sort_by_key_desc(items);
    assert_eq!(sorted, vec![(3, "b"), (3, "d"), (2, "e"), (1, "a"), (1, "c")]);
}

#[test]
fn groups_keep_first_appearance_order() {
    let mut groups: Vec<(String, Vec<u32>)> = Vec::new();
    push_to_group(&mut groups, "b".to_string(), 1);
    push_to_group(&mut groups, "a".to_string(), 2);
    push_to_group(&mut groups, "b".to_string(), 3);
    assert_eq!(groups, vec![("b".to_string(), vec![1, 3]), ("a".to_string(), vec![2])]);
}
