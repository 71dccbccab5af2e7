use arxide::crypt::Crypt;
use arxide::string_set::StringSet;

fn listed(text: &str) -> Vec<String> {
    let list = Crypt::load_file_list(text);
    list.items().clone()
}

#[test]
fn manifest_lists_one_path_on_each_line() {
    assert_eq!(listed("a.txt\nb/c.bin\n"), vec!["a.txt", "b/c.bin"]);
}

#[test]
fn manifest_takes_a_last_line_without_line_feed() {
    assert_eq!(listed("a.txt\nb/c.bin"), vec!["a.txt", "b/c.bin"]);
}

#[test]
fn manifest_ignores_blank_lines() {
    assert_eq!(listed("\n\na.txt\n\n\nb.txt\n\n"), vec!["a.txt", "b.txt"]);
}

#[test]
fn manifest_of_nothing_is_empty() {
    assert!(listed("").is_empty());
    assert!(listed("\n").is_empty());
    assert!(listed("\r\n\r\n").is_empty());
}

#[test]
fn manifest_drops_the_carriage_return_before_a_line_feed() {
    assert_eq!(listed("a.txt\r\nb.txt\r\n"), vec!["a.txt", "b.txt"]);
}

#[test]
fn manifest_drops_only_one_carriage_return() {
    assert_eq!(listed("a.txt\r\r\nb.txt\n"), vec!["a.txt\r", "b.txt"]);
}

#[test]
fn manifest_keeps_a_carriage_return_inside_a_line() {
    assert_eq!(listed("a\rb\n"), vec!["a\rb"]);
}

#[test]
fn manifest_keeps_a_carriage_return_that_ends_the_text() {
    assert_eq!(listed("a.txt\r"), vec!["a.txt\r"]);
    assert_eq!(listed("\r"), vec!["\r"]);
}

#[test]
fn manifest_keeps_spaces_as_they_are() {
    assert_eq!(listed(" a.txt \n \n"), vec![" a.txt ", " "]);
}

#[test]
fn manifest_keeps_a_path_once() {
    assert_eq!(listed("a.txt\nb.txt\na.txt\r\nb.txt"), vec!["a.txt", "b.txt"]);
}

#[test]
fn manifest_has_no_comment_or_escape_syntax() {
    assert_eq!(listed("# a\n\\n\n"), vec!["# a", "\\n"]);
}

#[test]
fn manifest_takes_paths_outside_ascii() {
    assert_eq!(listed("é/ü.txt\n日本語.bin\n"), vec!["é/ü.txt", "日本語.bin"]);
}

#[test]
fn string_set_starts_empty() {
    let set = StringSet::new();
    assert_eq!(set.len(), 0);
    assert!(!set.contains("a"));
    assert!(set.items().is_empty());
}

#[test]
fn string_set_keeps_each_string_once() {
    let mut set = StringSet::new();
    assert!(set.insert(String::from("b")));
    assert!(set.insert(String::from("a")));
    assert!(!set.insert(String::from("b")));
    assert_eq!(set.len(), 2);
    assert!(set.contains("a"));
    assert!(set.contains("b"));
    assert!(!set.contains("c"));
    assert!(!set.contains(""));
    assert_eq!(set.items(), &vec![String::from("b"), String::from("a")]);
}

#[test]
fn string_set_tells_case_apart() {
    let mut set = StringSet::new();
    set.insert(String::from("abc"));
    assert!(!set.contains("ABC"));
}
