use devshell::path::{join_path, parent_or_self, root_label};
use devshell::text::{is_space, tokenize, trim_text};

#[test]
fn tokenize_splits_on_whitespace() {
    assert_eq!(tokenize("  ls \t -la\n/tmp  "), vec!["ls", "-la", "/tmp"]);
    assert_eq!(tokenize(""), Vec::<String>::new());
    assert_eq!(tokenize("   "), Vec::<String>::new());
    assert_eq!(tokenize("cd\u{2003}dir"), vec!["cd", "dir"]);
    assert_eq!(tokenize("a\"b c\"d"), vec!["a\"b", "c\"d"]);
}

#[test]
fn whitespace_matches_std() {
    for c in ['\t', '\n', '\r', ' ', '\u{85}', '\u{a0}', '\u{2000}', '\u{3000}', 'a', '_', '\u{200b}'] {
        assert_eq!(is_space(c), c.is_whitespace());
    }
}

#[test]
fn trim_removes_surrounding_whitespace() {
    assert_eq!(trim_text("  a b \n"), "a b");
    assert_eq!(trim_text(" \t "), "");
    assert_eq!(trim_text("x"), "x");
}

#[test]
fn join_follows_push_rules() {
    assert_eq!(join_path("/home/u", "src"), "/home/u/src");
    assert_eq!(join_path("/home/u/", "src"), "/home/u/src");
    assert_eq!(join_path("/home/u", "/etc"), "/etc");
    assert_eq!(join_path("", "src"), "src");
    assert_eq!(join_path("/", "tmp"), "/tmp");
}

#[test]
fn parent_or_self_stops_at_root() {
    assert_eq!(parent_or_self("/home/u"), "/home");
    assert_eq!(parent_or_self("/home"), "/");
    assert_eq!(parent_or_self("/"), "/");
    assert_eq!(parent_or_self("/a/b/"), "/a");
}

#[test]
fn root_label_is_base_name() {
    assert_eq!(root_label("/home/u/project"), "project");
    assert_eq!(root_label("/home/u/project/"), "project");
    assert_eq!(root_label("/"), "");
}
