use shell_engine::search::{candidate_paths, is_listed, join_path, search_path};

fn files(paths: &[&str]) -> Vec<String> {
    paths.iter().map(|p| p.to_string()).collect()
}

#[test]
fn search_prefers_the_earlier_directory() {
    let present = files(&["/x/foo", "/y/foo"]);
    assert_eq!(search_path("foo", Some("/x:/y"), &present), Some("/x/foo".to_string()));
    assert_eq!(search_path("foo", Some("/y:/x"), &present), Some("/y/foo".to_string()));
}

#[test]
fn search_skips_directories_without_the_file() {
    let present = files(&["/y/foo", "/x/bar"]);
    assert_eq!(search_path("foo", Some("/x:/y"), &present), Some("/y/foo".to_string()));
    assert_eq!(search_path("bar", Some("/x:/y"), &present), Some("/x/bar".to_string()));
}

#[test]
fn search_finds_nothing_where_no_candidate_is_a_file() {
    let present = files(&["/z/foo", "/x/foobar", "/x"]);
    assert_eq!(search_path("foo", Some("/x:/y"), &present), None);
    assert_eq!(search_path("foo", Some("/x:/y"), &files(&[])), None);
}

#[test]
fn search_finds_nothing_without_a_search_path() {
    let present = files(&["/x/foo", "foo"]);
    assert_eq!(search_path("foo", None, &present), None);
}

#[test]
fn search_reads_an_empty_entry_as_the_name_itself() {
    let present = files(&["foo"]);
    assert_eq!(search_path("foo", Some(""), &present), Some("foo".to_string()));
    assert_eq!(search_path("foo", Some("/x::/y"), &present), Some("foo".to_string()));
}

#[test]
fn search_returns_an_absolute_name_as_given() {
    let present = files(&["/bin/ls"]);
    assert_eq!(search_path("/bin/ls", Some("/x:/y"), &present), Some("/bin/ls".to_string()));
    assert_eq!(search_path("/bin/ls", None, &present), None);
}

#[test]
fn join_puts_one_separator_between_directory_and_name() {
    assert_eq!(join_path("/usr/bin", "ls"), "/usr/bin/ls");
    assert_eq!(join_path("/usr/bin/", "ls"), "/usr/bin/ls");
    assert_eq!(join_path("/", "ls"), "/ls");
    assert_eq!(join_path("", "ls"), "ls");
    assert_eq!(join_path("rel", "ls"), "rel/ls");
    assert_eq!(join_path("/x", ""), "/x/");
    assert_eq!(join_path("/x", "a/b"), "/x/a/b");
}

#[test]
fn join_lets_an_absolute_name_stand_for_itself() {
    assert_eq!(join_path("/usr/bin", "/bin/ls"), "/bin/ls");
    assert_eq!(join_path("", "/ls"), "/ls");
}

#[test]
fn join_agrees_with_std_on_examples() {
    for dir in ["", "/", "/x", "/x/", "x", "x/y/", "/é"] {
        for name in ["ls", "", "/bin/ls", "a/b", "ü", "."] {
            let expected = std::path::Path::new(dir).join(name);
            assert_eq!(join_path(dir, name), expected.to_str().unwrap());
        }
    }
}

#[test]
fn candidates_follow_the_order_of_the_search_path() {
    assert_eq!(candidate_paths("foo", Some("/x:/y/:")), files(&["/x/foo", "/y/foo", "foo"]));
    assert_eq!(candidate_paths("foo", Some("")), files(&["foo"]));
    assert_eq!(candidate_paths("foo", None), files(&[]));
}

#[test]
fn is_listed_looks_for_the_exact_path() {
    let present = files(&["/x/foo", "/y/bar"]);
    assert!(is_listed(&present, "/y/bar"));
    assert!(!is_listed(&present, "/y/ba"));
    assert!(!is_listed(&present, "/x/foo/"));
    assert!(!is_listed(&files(&[]), ""));
}
