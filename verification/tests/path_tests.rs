use rush_core::path::{expand_home, Path};

fn home() -> String {
    String::from("/home/user")
}

#[test]
fn home_itself_collapses_to_tilde() {
    let p = Path::new(String::from("/home/user"), &home());
    assert_eq!(p.short().as_str(), "~");
    assert_eq!(p.absolute().as_str(), "/home/user");
}

#[test]
fn location_inside_home_collapses_to_tilde_slash() {
    let p = Path::new(String::from("/home/user/documents"), &home());
    assert_eq!(p.short().as_str(), "~/documents");
}

#[test]
fn nested_location_inside_home() {
    let p = Path::new(String::from("/home/user/a/b/c"), &home());
    assert_eq!(p.short().as_str(), "~/a/b/c");
}

#[test]
fn location_outside_home_keeps_absolute_form() {
    let p = Path::new(String::from("/etc/nginx"), &home());
    assert_eq!(p.short().as_str(), "/etc/nginx");
}

#[test]
fn sibling_with_home_as_string_prefix_is_not_collapsed() {
    // "/home/username" begins with the characters of "/home/user" but is
    // not inside it: the collapse boundary is a whole segment.
    let p = Path::new(String::from("/home/username"), &home());
    assert_eq!(p.short().as_str(), "/home/username");
}

#[test]
fn truncation_caps_each_segment() {
    let mut p = Path::new(String::from("/home/user/documents/code"), &home());
    p.set_truncation(3);
    assert_eq!(p.short().as_str(), "~/doc/cod");
}

#[test]
fn truncation_leaves_short_segments_unchanged() {
    let mut p = Path::new(String::from("/etc/ab/x"), &home());
    p.set_truncation(2);
    assert_eq!(p.short().as_str(), "/et/ab/x");
}

#[test]
fn truncation_factor_larger_than_every_segment_changes_nothing() {
    let mut p = Path::new(String::from("/home/user/docs"), &home());
    p.set_truncation(100);
    assert_eq!(p.short().as_str(), "~/docs");
}

#[test]
fn truncation_factor_zero_empties_every_segment() {
    let mut p = Path::new(String::from("/a/b"), &home());
    p.set_truncation(0);
    assert_eq!(p.short().as_str(), "//");
}

#[test]
fn setting_the_same_truncation_twice_is_idempotent() {
    let mut p = Path::new(String::from("/home/user/documents/code"), &home());
    p.set_truncation(2);
    let once = p.short().clone();
    p.set_truncation(2);
    assert_eq!(p.short(), &once);
}

#[test]
fn disable_truncation_restores_the_collapsed_form() {
    let mut p = Path::new(String::from("/home/user/documents"), &home());
    p.set_truncation(1);
    assert_eq!(p.short().as_str(), "~/d");
    p.disable_truncation();
    assert_eq!(p.short().as_str(), "~/documents");
}

#[test]
fn set_path_repoints_and_recomputes() {
    let mut p = Path::new(String::from("/etc"), &home());
    let ok = p.set_path(Some(String::from("/home/user/new")));
    assert!(ok);
    assert_eq!(p.absolute().as_str(), "/home/user/new");
    assert_eq!(p.short().as_str(), "~/new");
}

#[test]
fn set_path_on_failed_resolution_changes_nothing() {
    let mut p = Path::new(String::from("/etc"), &home());
    let ok = p.set_path(None);
    assert!(!ok);
    assert_eq!(p.absolute().as_str(), "/etc");
    assert_eq!(p.short().as_str(), "/etc");
}

#[test]
fn set_path_keeps_truncation_in_force() {
    let mut p = Path::new(String::from("/etc"), &home());
    p.set_truncation(3);
    let ok = p.set_path(Some(String::from("/home/user/documents")));
    assert!(ok);
    assert_eq!(p.short().as_str(), "~/doc");
}

#[test]
fn from_str_path_wraps_a_resolution_result() {
    let some = Path::from_str_path(Some(String::from("/home/user/x")), &home());
    assert!(some.is_some());
    assert_eq!(some.unwrap().short().as_str(), "~/x");
    let none = Path::from_str_path(None, &home());
    assert!(none.is_none());
}

#[test]
fn paths_compare_by_all_attributes() {
    let a = Path::new(String::from("/home/user/x"), &home());
    let b = Path::new(String::from("/home/user/x"), &home());
    assert!(a == b);
    let mut c = Path::new(String::from("/home/user/x"), &home());
    c.set_truncation(1);
    assert!(a != c);
    let d = Path::new(String::from("/home/user/y"), &home());
    assert!(a != d);
}

#[test]
fn clone_preserves_every_attribute() {
    let mut p = Path::new(String::from("/home/user/docs"), &home());
    p.set_truncation(2);
    let q = p.clone();
    assert!(p == q);
    assert_eq!(q.short().as_str(), "~/do");
}

#[test]
fn expand_home_expands_a_leading_tilde() {
    assert_eq!(expand_home("~/work", &home()).as_str(), "/home/user/work");
    assert_eq!(expand_home("~", &home()).as_str(), "/home/user");
}

#[test]
fn expand_home_leaves_other_strings_alone() {
    assert_eq!(expand_home("/var/log", &home()).as_str(), "/var/log");
    assert_eq!(expand_home("a~b", &home()).as_str(), "a~b");
    assert_eq!(expand_home("", &home()).as_str(), "");
}

#[test]
fn expand_home_expands_only_the_leading_tilde() {
    // Only the leading shorthand marker expands; a tilde further in is an
    // ordinary filename character.
    assert_eq!(expand_home("~a~b", &home()).as_str(), "/home/usera~b");
    assert_eq!(expand_home("~/a~b", &home()).as_str(), "/home/user/a~b");
}

#[test]
fn a_home_with_a_trailing_slash_still_collapses() {
    let slashed = String::from("/home/user/");
    let p = Path::new(String::from("/home/user/docs"), &slashed);
    assert_eq!(p.short().as_str(), "~/docs");
    let q = Path::new(String::from("/home/user"), &slashed);
    assert_eq!(q.short().as_str(), "~");
}

#[test]
fn the_root_as_home_collapses_everything() {
    let root = String::from("/");
    let p = Path::new(String::from("/usr"), &root);
    assert_eq!(p.short().as_str(), "~/usr");
    let q = Path::new(String::from("/"), &root);
    assert_eq!(q.short().as_str(), "~");
}
