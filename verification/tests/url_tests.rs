use canvas_fuzzy_finder::numeral::u32_to_decimal;
use canvas_fuzzy_finder::url::{modules_url, user_url};

#[test]
fn modules_url_names_the_course_by_its_identifier() {
    let url = modules_url("https://school.example", 101);
    assert_eq!(
        url,
        "https://school.example/api/v1/courses/101/modules?include[]=items&per_page=100"
    );
}

#[test]
fn user_url_points_at_the_own_record() {
    assert_eq!(user_url("https://school.example"), "https://school.example/api/v1/users/self");
}

#[test]
fn decimal_rendering_is_canonical() {
    assert_eq!(u32_to_decimal(0), "0");
    assert_eq!(u32_to_decimal(7), "7");
    assert_eq!(u32_to_decimal(101), "101");
    assert_eq!(u32_to_decimal(u32::MAX), "4294967295");
}
