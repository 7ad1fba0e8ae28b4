use canvas_fuzzy_finder::listing::{
    build_listing, format_line, Course, ModuleData, PageEntry,
};

fn course(id: u32, name: &str) -> Course {
    Course { id, name: name.to_string() }
}

fn entry(title: Option<&str>, link: Option<&str>) -> PageEntry {
    PageEntry { title: title.map(|s| s.to_string()), link: link.map(|s| s.to_string()) }
}

#[test]
fn format_line_joins_fields_with_separator_and_newline() {
    let line = format_line("Syllabus", "https://x/1", "Algorithms");
    assert_eq!(line, "Syllabus || https://x/1 || Algorithms\n");
}

#[test]
fn format_line_keeps_fields_verbatim() {
    let line = format_line("Week 1: Intro", "https://x/a?b=c", "Data & More");
    assert_eq!(line, "Week 1: Intro || https://x/a?b=c || Data & More\n");
}

#[test]
fn items_lacking_title_or_link_are_excluded() {
    let courses = vec![course(101, "Algorithms")];
    let data = vec![vec![ModuleData {
        items: vec![
            entry(Some("Kept"), Some("https://x/1")),
            entry(None, Some("https://x/2")),
            entry(Some("No link"), None),
            entry(None, None),
        ],
    }]];
    let listing = build_listing(&courses, &data);
    assert_eq!(listing, "Kept || https://x/1 || Algorithms\n");
}

#[test]
fn included_items_keep_exact_field_values() {
    let courses = vec![course(7, "C")];
    let data = vec![vec![ModuleData {
        items: vec![entry(Some("  padded  "), Some("https://x/%20"))],
    }]];
    let listing = build_listing(&courses, &data);
    assert_eq!(listing, "  padded   || https://x/%20 || C\n");
}

#[test]
fn aggregation_preserves_configured_course_order() {
    let courses = vec![course(101, "Algorithms"), course(202, "Databases")];
    let data = vec![
        vec![ModuleData { items: vec![entry(Some("A1"), Some("https://x/a1"))] }],
        vec![ModuleData { items: vec![entry(Some("B1"), Some("https://x/b1"))] }],
    ];
    let listing = build_listing(&courses, &data);
    assert_eq!(
        listing,
        "A1 || https://x/a1 || Algorithms\nB1 || https://x/b1 || Databases\n"
    );
}

#[test]
fn aggregation_preserves_module_and_item_order() {
    let courses = vec![course(1, "C")];
    let data = vec![vec![
        ModuleData {
            items: vec![
                entry(Some("first"), Some("https://x/1")),
                entry(Some("second"), Some("https://x/2")),
            ],
        },
        ModuleData { items: vec![entry(Some("third"), Some("https://x/3"))] },
    ]];
    let listing = build_listing(&courses, &data);
    assert_eq!(
        listing,
        "first || https://x/1 || C\nsecond || https://x/2 || C\nthird || https://x/3 || C\n"
    );
}

#[test]
fn empty_configuration_yields_empty_listing() {
    let courses: Vec<Course> = Vec::new();
    let data: Vec<Vec<ModuleData>> = Vec::new();
    assert_eq!(build_listing(&courses, &data), "");
}

#[test]
fn duplicate_lines_across_courses_are_preserved() {
    let courses = vec![course(1, "Same"), course(2, "Same")];
    let data = vec![
        vec![ModuleData { items: vec![entry(Some("T"), Some("https://x/1"))] }],
        vec![ModuleData { items: vec![entry(Some("T"), Some("https://x/1"))] }],
    ];
    let listing = build_listing(&courses, &data);
    assert_eq!(listing, "T || https://x/1 || Same\nT || https://x/1 || Same\n");
}
