use category_catalog::category::Categories;
use category_catalog::detail::CategoryDetails;
use category_catalog::response::{
    get_categories, get_category, get_category_detail, get_category_details,
    ApiCategoriesResponse, ApiCategoryDetailsResponse, ErrorKind,
};

fn catalogs() -> (Categories, CategoryDetails) {
    let categories = Categories::new().expect("the embedded dataset loads");
    let details = CategoryDetails::new().expect("the embedded dataset loads");
    (categories, details)
}

#[test]
fn test_get_categories() {
    let (categories, _) = catalogs();
    match get_categories(&categories, None) {
        ApiCategoriesResponse::Success(p) => {
            assert_eq!(p.categories.len(), categories.total());
        },
        ApiCategoriesResponse::Error(_, e) => panic!("unexpected error: {}", e.error),
    }
}

#[test]
fn test_get_categories_with_count() {
    let (categories, _) = catalogs();
    let count = 5;
    match get_categories(&categories, Some(count)) {
        ApiCategoriesResponse::Success(p) => {
            assert_eq!(p.categories.len(), count as usize);
        },
        ApiCategoriesResponse::Error(_, e) => panic!("unexpected error: {}", e.error),
    }
}

#[test]
fn test_get_category() {
    let (categories, _) = catalogs();
    match get_category(&categories, 2) {
        ApiCategoriesResponse::Success(p) => {
            assert_eq!(p.categories.len(), 1);
            assert_eq!(p.categories[0].id, 2);
            assert_eq!(p.categories[0].title, "baseball");
        },
        ApiCategoriesResponse::Error(_, e) => panic!("unexpected error: {}", e.error),
    }
}

#[test]
fn test_invalid_count() {
    let (categories, _) = catalogs();
    match get_categories(&categories, Some(0)) {
        ApiCategoriesResponse::Success(_) => panic!("a count of zero must be rejected"),
        ApiCategoriesResponse::Error(kind, e) => {
            assert_eq!(kind, ErrorKind::InvalidCount);
            assert!(kind.is_client_input());
            assert_eq!(e.error, "Invalid count. Count must be between 1 and 6; got 0");
        },
    }
}

#[test]
fn count_past_total_is_rejected() {
    let (categories, _) = catalogs();
    let past = categories.total() as i32 + 1;
    match get_categories(&categories, Some(past)) {
        ApiCategoriesResponse::Success(_) => panic!("a count past the total must be rejected"),
        ApiCategoriesResponse::Error(kind, e) => {
            assert_eq!(kind, ErrorKind::InvalidCount);
            assert!(kind.is_client_input());
            assert_eq!(e.error, "Invalid count. Count must be between 1 and 6; got 7");
        },
    }
}

#[test]
fn test_invalid_id() {
    let (categories, _) = catalogs();
    match get_category(&categories, 25) {
        ApiCategoriesResponse::Success(_) => panic!("an unknown id must be rejected"),
        ApiCategoriesResponse::Error(kind, e) => {
            assert_eq!(kind, ErrorKind::InvalidId);
            assert!(kind.is_client_input());
            assert_eq!(e.error, "Invalid id. ID must be in [2, 3, 4, 5, 6, 7]; got 25");
        },
    }
}

#[test]
fn test_get_category_details() {
    let (_, details) = catalogs();
    match get_category_details(&details) {
        ApiCategoryDetailsResponse::Success(p) => {
            assert_eq!(p.details.len(), 6);
        },
        ApiCategoryDetailsResponse::Error(_, e) => panic!("unexpected error: {}", e.error),
    }
}

#[test]
fn test_get_category_detail() {
    let (categories, details) = catalogs();
    match get_category_detail(&categories, &details, "2") {
        ApiCategoryDetailsResponse::Success(p) => {
            assert_eq!(p.details.len(), 1);
            assert_eq!(p.details[0].0, 2);
        },
        ApiCategoryDetailsResponse::Error(_, e) => panic!("unexpected error: {}", e.error),
    }
}

#[test]
fn test_invalid_category_number() {
    let (categories, details) = catalogs();
    match get_category_detail(&categories, &details, "1") {
        ApiCategoryDetailsResponse::Success(_) => panic!("an unknown number must be rejected"),
        ApiCategoryDetailsResponse::Error(kind, e) => {
            assert_eq!(kind, ErrorKind::InvalidId);
            assert!(kind.is_client_input());
            assert_eq!(
                e.error,
                "Invalid category number. Category number must be one of [2, 3, 4, 5, 6, 7]"
            );
        },
    }
}

#[test]
fn non_canonical_category_number_is_rejected() {
    let (categories, details) = catalogs();
    for number in ["02", "two", "", "-2", "2 "] {
        match get_category_detail(&categories, &details, number) {
            ApiCategoryDetailsResponse::Success(_) => {
                panic!("{:?} must be rejected", number)
            },
            ApiCategoryDetailsResponse::Error(kind, _) => {
                assert_eq!(kind, ErrorKind::InvalidId);
            },
        }
    }
}

#[test]
fn single_detail_matches_full_listing() {
    let (categories, details) = catalogs();
    let all = match get_category_details(&details) {
        ApiCategoryDetailsResponse::Success(p) => p.details,
        ApiCategoryDetailsResponse::Error(_, e) => panic!("unexpected error: {}", e.error),
    };
    for id in categories.ids() {
        let one = match get_category_detail(&categories, &details, &id.to_string()) {
            ApiCategoryDetailsResponse::Success(p) => p.details,
            ApiCategoryDetailsResponse::Error(_, e) => panic!("unexpected error: {}", e.error),
        };
        assert_eq!(one.len(), 1);
        assert_eq!(one[0].0, id);
        let full_entry = all.iter().find(|p| p.0 == id).expect("entry exists");
        assert_eq!(one[0].1, full_entry.1);
    }
}

#[test]
fn missing_detail_for_known_id_is_an_internal_error() {
    let categories = Categories::new().expect("the embedded dataset loads");
    let details = CategoryDetails::load_from("{\"2\": 1}").expect("loads");
    match get_category_detail(&categories, &details, "3") {
        ApiCategoryDetailsResponse::Success(_) => panic!("a missing entry must be reported"),
        ApiCategoryDetailsResponse::Error(kind, e) => {
            assert_eq!(kind, ErrorKind::InternalInconsistency);
            assert!(!kind.is_client_input());
            assert_eq!(
                e.error,
                "Internal inconsistency. No detail entry for known category id 3"
            );
        },
    }
}

#[test]
fn default_count_on_empty_catalog_is_rejected() {
    let categories = Categories::load_from("[]").expect("an empty array loads");
    match get_categories(&categories, None) {
        ApiCategoriesResponse::Success(_) => panic!("an empty catalog serves no listing"),
        ApiCategoriesResponse::Error(kind, e) => {
            assert_eq!(kind, ErrorKind::InvalidCount);
            assert_eq!(e.error, "Invalid count. Count must be between 1 and 0; got 0");
        },
    }
}
