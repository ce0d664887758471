use labexs::lab::{directory_path, exercise_path, label_of};
use labexs::session::{session_cookie, COURSE_URL};
use labexs::text::{chars_of, same_chars};

#[test]
fn cookie_carries_the_token() {
    assert_eq!(session_cookie("abcdefghijklm"), Some("MoodleSession=abcdefghijklm".to_owned()));
    assert_eq!(session_cookie(""), Some("MoodleSession=".to_owned()));
}

#[test]
fn cookie_accepts_what_a_header_can_carry() {
    assert_eq!(session_cookie("a b\tc"), Some("MoodleSession=a b\tc".to_owned()));
    assert_eq!(session_cookie("~!;="), Some("MoodleSession=~!;=".to_owned()));
    assert_eq!(session_cookie("caf\u{e9}"), Some("MoodleSession=caf\u{e9}".to_owned()));
}

#[test]
fn cookie_refuses_control_characters() {
    assert_eq!(session_cookie("abc\n"), None);
    assert_eq!(session_cookie("a\r\nSet-Cookie: x"), None);
    assert_eq!(session_cookie("\u{0}"), None);
    assert_eq!(session_cookie("a\u{1f}b"), None);
    assert_eq!(session_cookie("a\u{7f}"), None);
}

#[test]
fn course_address_is_fixed() {
    assert_eq!(COURSE_URL, "https://elearning.studenti.math.unipd.it/labs/course/view.php?id=25");
}

#[test]
fn lab_names_on_the_page_and_on_disk() {
    assert_eq!(label_of("4"), "Laboratorio 4");
    assert_eq!(directory_path("4"), "../../Laboratorio 4");
    assert_eq!(exercise_path("4", "ex1.c"), "../../Laboratorio 4/ex1.c");
    assert_eq!(label_of(""), "Laboratorio ");
    assert_eq!(exercise_path("12", ""), "../../Laboratorio 12/");
}

#[test]
fn characters_of_a_text() {
    assert_eq!(chars_of(""), Vec::<char>::new());
    assert_eq!(chars_of("a\u{e9}\u{1f600}"), vec!['a', '\u{e9}', '\u{1f600}']);
}

#[test]
fn character_vectors_compare_by_content() {
    assert!(same_chars(&vec![], &vec![]));
    assert!(same_chars(&vec!['a', 'b'], &vec!['a', 'b']));
    assert!(!same_chars(&vec!['a', 'b'], &vec!['a']));
    assert!(!same_chars(&vec!['a', 'b'], &vec!['a', 'c']));
    assert!(!same_chars(&vec![], &vec!['a']));
}
