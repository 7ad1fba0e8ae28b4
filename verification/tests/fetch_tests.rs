use canvas_fuzzy_finder::fetch::{parse_course_response, parse_user_response, ApiError};
use canvas_fuzzy_finder::listing::{build_listing, Course};

#[test]
fn two_course_scenario_keeps_only_the_complete_item() {
    let body_algorithms = r#"[{"items":[{"title":"Syllabus","html_url":"https://x/1"}]}]"#;
    let body_databases = r#"[{"items":[{"title":"Dangling"}]}]"#;
    let courses = vec![
        Course { id: 101, name: "Algorithms".to_string() },
        Course { id: 202, name: "Databases".to_string() },
    ];
    let data = vec![
        parse_course_response(body_algorithms).unwrap(),
        parse_course_response(body_databases).unwrap(),
    ];
    let listing = build_listing(&courses, &data);
    assert_eq!(listing, "Syllabus || https://x/1 || Algorithms\n");
}

#[test]
fn malformed_json_body_is_invalid_json() {
    assert_eq!(parse_course_response("not json").unwrap_err(), ApiError::InvalidJson);
    assert_eq!(parse_course_response("[{").unwrap_err(), ApiError::InvalidJson);
}

#[test]
fn non_array_body_is_the_wrong_shape() {
    assert_eq!(
        parse_course_response(r#"{"items":[]}"#).unwrap_err(),
        ApiError::UnexpectedShape
    );
}

#[test]
fn module_without_items_array_is_the_wrong_shape() {
    assert_eq!(parse_course_response(r#"[{}]"#).unwrap_err(), ApiError::UnexpectedShape);
    assert_eq!(
        parse_course_response(r#"[{"items":3}]"#).unwrap_err(),
        ApiError::UnexpectedShape
    );
}

#[test]
fn non_string_fields_count_as_absent() {
    let body = r#"[{"items":[{"title":7,"html_url":"https://x/1"},{"title":"T","html_url":"https://x/2"}]}]"#;
    let courses = vec![Course { id: 1, name: "C".to_string() }];
    let data = vec![parse_course_response(body).unwrap()];
    assert_eq!(build_listing(&courses, &data), "T || https://x/2 || C\n");
}

#[test]
fn escaped_json_strings_are_decoded() {
    let body = r#"[{"items":[{"title":"A \"B\"","html_url":"https://x/1"}]}]"#;
    let courses = vec![Course { id: 1, name: "C".to_string() }];
    let data = vec![parse_course_response(body).unwrap()];
    assert_eq!(build_listing(&courses, &data), "A \"B\" || https://x/1 || C\n");
}

#[test]
fn modules_of_one_response_keep_their_order() {
    let body = r#"[{"items":[{"title":"m1a","html_url":"https://x/1"}]},{"items":[{"title":"m2a","html_url":"https://x/2"},{"title":"m2b","html_url":"https://x/3"}]}]"#;
    let courses = vec![Course { id: 1, name: "C".to_string() }];
    let data = vec![parse_course_response(body).unwrap()];
    assert_eq!(
        build_listing(&courses, &data),
        "m1a || https://x/1 || C\nm2a || https://x/2 || C\nm2b || https://x/3 || C\n"
    );
}

#[test]
fn empty_module_array_yields_no_records() {
    let body = "[]";
    let modules = parse_course_response(body).unwrap();
    assert_eq!(modules.len(), 0);
}

#[test]
fn user_response_yields_the_numeric_id() {
    assert_eq!(parse_user_response(r#"{"id":42}"#), Ok(42));
}

#[test]
fn user_response_without_numeric_id_is_the_wrong_shape() {
    assert_eq!(parse_user_response(r#"{"id":"42"}"#), Err(ApiError::UnexpectedShape));
    assert_eq!(parse_user_response(r#"{}"#), Err(ApiError::UnexpectedShape));
    assert_eq!(parse_user_response("nope"), Err(ApiError::InvalidJson));
}
