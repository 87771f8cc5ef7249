use canvas_api::text::{str_eq, str_le, str_starts_with};
use canvas_api::urls::{
    account_courses_endpoint, aktivitetstillfallen_url, course_enrollments_endpoint,
    course_offerings_url, enrollments_endpoint, ensure_trailing_slash, i32_dec_str, u32_dec_str,
};

#[test]
fn decimal_rendering_is_exact() {
    assert_eq!(u32_dec_str(0), "0");
    assert_eq!(u32_dec_str(7), "7");
    assert_eq!(u32_dec_str(42), "42");
    assert_eq!(u32_dec_str(250), "250");
    assert_eq!(u32_dec_str(u32::MAX), "4294967295");
    assert_eq!(i32_dec_str(0), "0");
    assert_eq!(i32_dec_str(123456), "123456");
    assert_eq!(i32_dec_str(-17), "-17");
    assert_eq!(i32_dec_str(i32::MIN), "-2147483648");
    assert_eq!(i32_dec_str(i32::MAX), "2147483647");
}

#[test]
fn trailing_slash_is_added_once() {
    assert_eq!(ensure_trailing_slash("https://a.test/x"), "https://a.test/x/");
    assert_eq!(ensure_trailing_slash("https://a.test/x/"), "https://a.test/x/");
    assert_eq!(ensure_trailing_slash(""), "/");
}

#[test]
fn course_offerings_url_joins_under_base() {
    let with_slash = course_offerings_url("https://api.test/kopps/v2/", "20201");
    assert_eq!(
        with_slash.as_deref(),
        Some("https://api.test/kopps/v2/courses/offerings?from=20201&skip_coordinator_info=true")
    );
    let without_slash = course_offerings_url("https://api.test/kopps/v2", "20201");
    assert_eq!(with_slash, without_slash);
    assert_eq!(course_offerings_url("not a url", "20201"), None);
}

#[test]
fn activities_url_carries_the_date_twice() {
    let url = aktivitetstillfallen_url("https://akt.test/api", "2022-01-15");
    assert_eq!(
        url.as_deref(),
        Some("https://akt.test/api/aktivitetstillfallen/students?fromDate=2022-01-15&toDate=2022-01-15")
    );
}

#[test]
fn endpoint_paths_are_exact() {
    assert_eq!(
        enrollments_endpoint("SF1624202011"),
        "/sections/sis_section_id:SF1624202011/enrollments"
    );
    assert_eq!(account_courses_endpoint("104"), "/accounts/104/courses");
    assert_eq!(course_enrollments_endpoint(17458), "/courses/17458/enrollments");
}

#[test]
fn string_comparisons() {
    assert!(str_eq("Godkänt", "Godkänt"));
    assert!(!str_eq("Godkänt", "Godkant"));
    assert!(!str_eq("abc", "abcd"));
    assert!(str_starts_with("Canvas>site>channels>SF", "Canvas>site>channels"));
    assert!(!str_starts_with("Canvas>site", "Canvas>site>channels"));
    assert!(str_le("2020-03-20", "2020-03-20"));
    assert!(str_le("2020-03-20", "2020-06-01"));
    assert!(!str_le("2020-06-01", "2020-03-20"));
    assert!(str_le("abc", "abcd"));
    assert!(!str_le("abcd", "abc"));
}
