use labexs::links::{
    collect_links, is_exercise_icon, lab_item_selector, lab_links, strip_marker, Anchor,
    LinksError, ACTIVITY_SELECTOR, ANCHOR_SELECTOR, ICON_URL,
};

const MARKED_ICON: &str =
    "https://elearning.studenti.math.unipd.it/labs/theme/image.php/_s/boost/vpl/1591223608/icon";

fn anchor(icon: Option<&str>, href: Option<&str>) -> Anchor {
    Anchor { icon: icon.map(str::to_owned), href: href.map(str::to_owned) }
}

fn exercise(href: &str, icon: &str) -> String {
    format!("<div class=\"activityinstance\"><a onclick=\"\" href=\"{href}\"><img src=\"{icon}\"><span>task</span></a></div>")
}

fn page(items: &[(&str, String)]) -> String {
    let mut body = String::new();
    for (label, content) in items {
        body.push_str(&format!("<li aria-label=\"{label}\"><div class=\"content\">{content}</div></li>"));
    }
    format!("<!DOCTYPE html><html><head><title>course</title></head><body><ul>{body}</ul></body></html>")
}

fn chars(s: &str) -> Vec<char> {
    s.chars().collect()
}

#[test]
fn strip_marker_leaves_plain_text_alone() {
    assert_eq!(strip_marker(""), chars(""));
    assert_eq!(strip_marker("abc"), chars("abc"));
    assert_eq!(strip_marker(ICON_URL), chars(ICON_URL));
    assert_eq!(strip_marker("_s"), chars("_s"));
    assert_eq!(strip_marker("s/_"), chars("s/_"));
}

#[test]
fn strip_marker_removes_every_occurrence() {
    assert_eq!(strip_marker("_s/"), chars(""));
    assert_eq!(strip_marker("a_s/b"), chars("ab"));
    assert_eq!(strip_marker("_s/a_s/_s/b_s/"), chars("ab"));
    assert_eq!(strip_marker(MARKED_ICON), chars(ICON_URL));
}

#[test]
fn strip_marker_scans_once_from_the_left() {
    assert_eq!(strip_marker("__s/"), chars("_"));
    assert_eq!(strip_marker("_s_s//"), chars("_s/"));
    assert_eq!(strip_marker("_s/s/"), chars("s/"));
    assert_eq!(strip_marker("\u{e9}_s/\u{1f600}"), chars("\u{e9}\u{1f600}"));
}

#[test]
fn strip_marker_agrees_with_replace() {
    for src in ["", "_", "_s/", "x_s/y_s/z", "__s//", "_s_s//_s/", "_S/", "a/_s", MARKED_ICON] {
        assert_eq!(strip_marker(src), chars(&src.replace("_s/", "")));
    }
}

#[test]
fn icon_is_recognised_with_and_without_marker() {
    assert!(is_exercise_icon(ICON_URL));
    assert!(is_exercise_icon(MARKED_ICON));
    assert!(is_exercise_icon(&format!("_s/{ICON_URL}_s/")));
}

#[test]
fn other_images_are_not_the_icon() {
    assert!(!is_exercise_icon(""));
    assert!(!is_exercise_icon("icon"));
    assert!(!is_exercise_icon(&format!("{ICON_URL}/")));
    assert!(!is_exercise_icon(&ICON_URL[1..]));
    assert!(!is_exercise_icon(&ICON_URL.replace("vpl", "quiz")));
    assert!(!is_exercise_icon(&ICON_URL.to_uppercase()));
}

#[test]
fn collect_links_keeps_targets_of_icon_anchors_in_order() {
    let anchors = vec![
        anchor(Some(ICON_URL), Some("https://e/3")),
        anchor(Some("https://e/other.png"), Some("https://e/forum")),
        anchor(Some(MARKED_ICON), Some("https://e/1")),
        anchor(None, Some("https://e/plain")),
        anchor(Some(ICON_URL), Some("https://e/2")),
    ];
    assert_eq!(
        collect_links(&anchors),
        Ok(vec!["https://e/3".to_owned(), "https://e/1".to_owned(), "https://e/2".to_owned()])
    );
}

#[test]
fn collect_links_of_nothing_is_empty() {
    assert_eq!(collect_links(&Vec::new()), Ok(Vec::new()));
    let others = vec![anchor(None, None), anchor(Some("x"), None), anchor(Some("y"), Some("z"))];
    assert_eq!(collect_links(&others), Ok(Vec::new()));
}

#[test]
fn collect_links_keeps_repeated_targets() {
    let anchors = vec![anchor(Some(ICON_URL), Some("a")), anchor(Some(ICON_URL), Some("a"))];
    assert_eq!(collect_links(&anchors), Ok(vec!["a".to_owned(), "a".to_owned()]));
}

#[test]
fn collect_links_rejects_icon_anchor_without_target() {
    let anchors = vec![
        anchor(Some(ICON_URL), Some("https://e/1")),
        anchor(Some(MARKED_ICON), None),
        anchor(Some(ICON_URL), Some("https://e/2")),
    ];
    assert_eq!(collect_links(&anchors), Err(LinksError::MissingTarget));
}

#[test]
fn collect_links_is_unchanged_by_an_anchor_without_icon() {
    let with = vec![
        anchor(Some(ICON_URL), Some("a")),
        anchor(Some("https://e/other.png"), None),
        anchor(Some(ICON_URL), Some("b")),
    ];
    let without = vec![anchor(Some(ICON_URL), Some("a")), anchor(Some(ICON_URL), Some("b"))];
    assert_eq!(collect_links(&with), collect_links(&without));
}

#[test]
fn selector_for_a_lab_names_its_label() {
    assert_eq!(lab_item_selector("4"), "li[aria-label=\"Laboratorio 4\"]");
    assert_eq!(lab_item_selector(""), "li[aria-label=\"Laboratorio \"]");
    assert_eq!(ACTIVITY_SELECTOR, ".activityinstance");
    assert_eq!(ANCHOR_SELECTOR, "a[onclick=\"\"]");
}

#[test]
fn page_with_three_exercises_gives_three_links_in_document_order() {
    let lab = exercise("https://e/mod/vpl/view.php?id=30", ICON_URL)
        + &exercise("https://e/mod/vpl/view.php?id=10", MARKED_ICON)
        + &exercise("https://e/mod/vpl/view.php?id=20", ICON_URL);
    let text = page(&[("Laboratorio 3", exercise("https://e/wrong", ICON_URL)), ("Laboratorio 4", lab)]);
    assert_eq!(
        lab_links(&text, "4"),
        Ok(vec![
            "https://e/mod/vpl/view.php?id=30".to_owned(),
            "https://e/mod/vpl/view.php?id=10".to_owned(),
            "https://e/mod/vpl/view.php?id=20".to_owned(),
        ])
    );
}

#[test]
fn anchors_with_another_icon_are_excluded() {
    let lab = exercise("https://e/1", ICON_URL)
        + &exercise("https://e/forum", "https://elearning.studenti.math.unipd.it/labs/theme/image.php/boost/forum/1591223608/icon")
        + &exercise("https://e/almost", &format!("{ICON_URL}s"))
        + &exercise("https://e/2", ICON_URL);
    let text = page(&[("Laboratorio 1", lab)]);
    assert_eq!(lab_links(&text, "1"), Ok(vec!["https://e/1".to_owned(), "https://e/2".to_owned()]));
}

#[test]
fn anchors_that_do_not_start_with_an_image_are_excluded() {
    let lab = format!(
        "<div class=\"activityinstance\"><a onclick=\"\" href=\"https://e/empty\"></a></div>\
         <div class=\"activityinstance\"><a onclick=\"\" href=\"https://e/text\">first<img src=\"{ICON_URL}\"></a></div>\
         <div class=\"activityinstance\"><a onclick=\"\" href=\"https://e/nosrc\"><img alt=\"x\"></a></div>\
         <div class=\"activityinstance\"><a onclick=\"\" href=\"https://e/comment\"><!-- c --><img src=\"{ICON_URL}\"></a></div>\
         <div class=\"activityinstance\"><a onclick=\"\" href=\"https://e/good\"><img src=\"{ICON_URL}\"></a></div>"
    );
    let text = page(&[("Laboratorio 2", lab)]);
    assert_eq!(lab_links(&text, "2"), Ok(vec!["https://e/good".to_owned()]));
}

#[test]
fn anchors_outside_the_selectors_are_excluded() {
    let lab = format!(
        "<a onclick=\"\" href=\"https://e/loose\"><img src=\"{ICON_URL}\"></a>\
         <div class=\"activityinstance\"><a href=\"https://e/noclick\"><img src=\"{ICON_URL}\"></a></div>\
         <div class=\"activityinstance\"><a onclick=\"go()\" href=\"https://e/script\"><img src=\"{ICON_URL}\"></a></div>\
         <div class=\"activity\"><a onclick=\"\" href=\"https://e/otherclass\"><img src=\"{ICON_URL}\"></a></div>\
         <div class=\"box activityinstance\"><p><a onclick=\"\" href=\"https://e/deep\"><img src=\"{ICON_URL}\"></a></p></div>"
    );
    let text = page(&[("Laboratorio 2", lab)]);
    assert_eq!(lab_links(&text, "2"), Ok(vec!["https://e/deep".to_owned()]));
}

#[test]
fn missing_lab_is_an_error_and_empty_lab_is_not() {
    let text = page(&[
        ("Laboratorio 1", exercise("https://e/1", ICON_URL)),
        ("Laboratorio 2", String::new()),
    ]);
    assert_eq!(lab_links(&text, "2"), Ok(Vec::new()));
    assert_eq!(lab_links(&text, "3"), Err(LinksError::LabNotFound));
    assert_eq!(lab_links(&text, ""), Err(LinksError::LabNotFound));
    assert_eq!(lab_links("", "1"), Err(LinksError::LabNotFound));
}

#[test]
fn label_must_match_exactly() {
    let text = page(&[("Laboratorio 10", exercise("https://e/10", ICON_URL))]);
    assert_eq!(lab_links(&text, "1"), Err(LinksError::LabNotFound));
    assert_eq!(lab_links(&text, "10 "), Err(LinksError::LabNotFound));
    assert_eq!(lab_links(&text, "10"), Ok(vec!["https://e/10".to_owned()]));
}

#[test]
fn only_the_first_matching_list_item_is_read() {
    let text = page(&[
        ("Laboratorio 5", exercise("https://e/first", ICON_URL)),
        ("Laboratorio 5", exercise("https://e/second", ICON_URL)),
    ]);
    assert_eq!(lab_links(&text, "5"), Ok(vec!["https://e/first".to_owned()]));
}

#[test]
fn anchor_under_nested_containers_is_read_once_for_each() {
    let lab = format!(
        "<div class=\"activityinstance\"><div class=\"activityinstance\"><a onclick=\"\" href=\"https://e/in\"><img src=\"{ICON_URL}\"></a></div>\
         <a onclick=\"\" href=\"https://e/out\"><img src=\"{ICON_URL}\"></a></div>"
    );
    let text = page(&[("Laboratorio 6", lab)]);
    assert_eq!(
        lab_links(&text, "6"),
        Ok(vec!["https://e/in".to_owned(), "https://e/out".to_owned(), "https://e/in".to_owned()])
    );
}

#[test]
fn icon_anchor_without_target_fails_the_page() {
    let lab = exercise("https://e/1", ICON_URL)
        + &format!("<div class=\"activityinstance\"><a onclick=\"\"><img src=\"{ICON_URL}\"></a></div>");
    let text = page(&[("Laboratorio 7", lab)]);
    assert_eq!(lab_links(&text, "7"), Err(LinksError::MissingTarget));
}

#[test]
fn lab_name_that_breaks_the_selector_is_refused() {
    let text = page(&[("Laboratorio 1", exercise("https://e/1", ICON_URL))]);
    assert_eq!(lab_links(&text, "\""), Err(LinksError::Selector));
    assert_eq!(lab_links(&text, "1\"] li["), Err(LinksError::Selector));
}
