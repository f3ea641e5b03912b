use category_catalog::category::Categories;
use category_catalog::consistency::check_consistency;
use category_catalog::detail::CategoryDetails;
use category_catalog::error::LoadError;
use category_catalog::num::{i64_to_string, parse_i64, u64_to_string};

fn category_load_err(text: &str) -> LoadError {
    match Categories::load_from(text) {
        Err(e) => e,
        Ok(_) => panic!("expected a load failure for {:?}", text),
    }
}

fn detail_load_err(text: &str) -> LoadError {
    match CategoryDetails::load_from(text) {
        Err(e) => e,
        Ok(_) => panic!("expected a load failure for {:?}", text),
    }
}

#[test]
fn test_categories() {
    let categories = Categories::new().expect("the embedded dataset loads");
    assert_eq!(categories.get_categories(1).len(), 1);
    assert_eq!(categories.get_categories(2).len(), 2);
    assert_eq!(categories.get_categories(3).len(), 3);
}

#[test]
fn test_category() {
    let categories = Categories::new().expect("the embedded dataset loads");
    let category = categories.get_category(2);
    assert_eq!(category.id, 2);
    assert_eq!(category.title, "baseball");
}

#[test]
fn prefix_keeps_source_order() {
    let categories = Categories::new().expect("the embedded dataset loads");
    let total = categories.total();
    assert_eq!(total, 6);
    for n in 1..=total {
        let prefix = categories.get_categories(n);
        assert_eq!(prefix.len(), n);
        let all = categories.get_categories(total);
        for i in 0..n {
            assert_eq!(prefix[i].id, all[i].id);
            assert_eq!(prefix[i].title, all[i].title);
        }
    }
}

#[test]
fn shorter_prefix_is_a_prefix_of_longer() {
    let categories = Categories::new().expect("the embedded dataset loads");
    let one = categories.get_categories(1);
    let two = categories.get_categories(2);
    assert_eq!(one[0].id, two[0].id);
    assert_eq!(one[0].title, two[0].title);
    assert_eq!(one[0].fields, two[0].fields);
}

#[test]
fn every_known_id_is_served_back() {
    let categories = Categories::new().expect("the embedded dataset loads");
    let ids = categories.ids();
    assert_eq!(ids, vec![2, 3, 4, 5, 6, 7]);
    for id in ids {
        let record = categories.get_category(id);
        assert_eq!(record.id, id);
    }
}

#[test]
fn detail_keys_equal_known_ids() {
    let categories = Categories::new().expect("the embedded dataset loads");
    let details = CategoryDetails::new().expect("the embedded dataset loads");
    let mut keys = details.keys();
    let mut ids = categories.ids();
    keys.sort();
    ids.sort();
    assert_eq!(keys, ids);
    assert!(check_consistency(&categories, &details));
}

#[test]
fn loading_twice_yields_identical_content() {
    let a = Categories::new().expect("the embedded dataset loads");
    let b = Categories::new().expect("the embedded dataset loads");
    assert_eq!(a.total(), b.total());
    let left = a.get_categories(a.total());
    let right = b.get_categories(b.total());
    for (x, y) in left.iter().zip(right.iter()) {
        assert_eq!(x.id, y.id);
        assert_eq!(x.title, y.title);
        assert_eq!(x.fields, y.fields);
    }
    let da = CategoryDetails::new().expect("the embedded dataset loads");
    let db = CategoryDetails::new().expect("the embedded dataset loads");
    assert_eq!(da.get_details(), db.get_details());
}

#[test]
fn malformed_category_dataset_is_rejected() {
    assert_eq!(category_load_err("not json"), LoadError::Malformed);
    assert_eq!(category_load_err("{\"id\": 2}"), LoadError::Malformed);
    assert_eq!(category_load_err("[{\"title\": \"chess\"}]"), LoadError::Malformed);
    assert_eq!(category_load_err("[{\"id\": 2, \"title\": 7}]"), LoadError::Malformed);
}

#[test]
fn duplicate_ids_are_rejected() {
    let text = "[{\"id\": 2, \"title\": \"a\"}, {\"id\": 2, \"title\": \"b\"}]";
    assert_eq!(category_load_err(text), LoadError::DuplicateId);
}

#[test]
fn malformed_detail_dataset_is_rejected() {
    assert_eq!(detail_load_err("[1, 2]"), LoadError::Malformed);
    assert_eq!(detail_load_err("{\"two\": 5}"), LoadError::Malformed);
    assert_eq!(detail_load_err("{\"02\": 5}"), LoadError::Malformed);
}

#[test]
fn inconsistent_catalogs_are_detected() {
    let categories = Categories::new().expect("the embedded dataset loads");
    let details = CategoryDetails::load_from("{\"2\": 1, \"3\": 2}").expect("loads");
    assert!(!check_consistency(&categories, &details));
}

#[test]
fn decimal_formatting_is_canonical() {
    assert_eq!(u64_to_string(0), "0");
    assert_eq!(u64_to_string(7), "7");
    assert_eq!(u64_to_string(1234), "1234");
    assert_eq!(u64_to_string(u64::MAX), "18446744073709551615");
    assert_eq!(i64_to_string(-7), "-7");
    assert_eq!(i64_to_string(42), "42");
    assert_eq!(i64_to_string(i64::MIN), "-9223372036854775808");
}

#[test]
fn parsing_accepts_exactly_canonical_decimals() {
    assert_eq!(parse_i64("2"), Some(2));
    assert_eq!(parse_i64("25"), Some(25));
    assert_eq!(parse_i64("0"), Some(0));
    assert_eq!(parse_i64("-5"), Some(-5));
    assert_eq!(parse_i64("9223372036854775807"), Some(i64::MAX));
    assert_eq!(parse_i64("-9223372036854775808"), Some(i64::MIN));
    assert_eq!(parse_i64(""), None);
    assert_eq!(parse_i64("02"), None);
    assert_eq!(parse_i64("-0"), None);
    assert_eq!(parse_i64("+2"), None);
    assert_eq!(parse_i64("2a"), None);
    assert_eq!(parse_i64(" 2"), None);
    assert_eq!(parse_i64("9223372036854775808"), None);
    assert_eq!(parse_i64("-9223372036854775809"), None);
    assert_eq!(parse_i64("99999999999999999999999"), None);
}

#[test]
fn formatting_round_trips_through_parsing() {
    for n in [0i64, 1, -1, 2, 25, 1000, i64::MAX, i64::MIN] {
        assert_eq!(parse_i64(i64_to_string(n).as_str()), Some(n));
    }
}
