use sandbox_serve::path::begins_at_root;
use sandbox_serve::path::file_name;
use sandbox_serve::path::has_no_parent;
use sandbox_serve::path::join;
use sandbox_serve::path::same_path;
use sandbox_serve::path::split_components;
use sandbox_serve::path::starts_with;

fn parts(items: &[&str]) -> Vec<Vec<u8>> {
    items.iter().map(|item| item.as_bytes().to_vec()).collect()
}

#[test]
fn components_are_the_stretches_between_separators() {
    assert_eq!(split_components(b"/srv/files/report.pdf"), parts(&["srv", "files", "report.pdf"]));
    assert_eq!(split_components(b"a/b"), parts(&["a", "b"]));
    assert_eq!(split_components(b"/"), parts(&[]));
    assert_eq!(split_components(b""), parts(&[]));
}

#[test]
fn empty_stretches_and_dots_are_no_components() {
    assert_eq!(split_components(b"//srv///files/"), parts(&["srv", "files"]));
    assert_eq!(split_components(b"/srv/./files/."), parts(&["srv", "files"]));
    assert_eq!(split_components(b"/./"), parts(&[]));
    assert_eq!(split_components(b"/.a/b./..."), parts(&[".a", "b.", "..."]));
}

#[test]
fn parent_links_are_components() {
    assert_eq!(split_components(b"/srv/../etc"), parts(&["srv", "..", "etc"]));
}

#[test]
fn starts_with_goes_by_components() {
    assert!(starts_with(b"/base/file", b"/base"));
    assert!(starts_with(b"/base/a/b/c", b"/base/a"));
    assert!(starts_with(b"/base", b"/base"));
    assert!(!starts_with(b"/base2", b"/base"));
    assert!(!starts_with(b"/base2/file", b"/base"));
    assert!(!starts_with(b"/bas", b"/base"));
    assert!(!starts_with(b"/", b"/base"));
    assert!(!starts_with(b"/other/base", b"/base"));
}

#[test]
fn starts_with_ignores_trailing_and_doubled_separators() {
    assert!(starts_with(b"/base/file", b"/base/"));
    assert!(starts_with(b"/base//file", b"/base"));
    assert!(starts_with(b"/base/", b"/base"));
}

#[test]
fn everything_absolute_starts_with_the_root() {
    assert!(starts_with(b"/", b"/"));
    assert!(starts_with(b"/etc/passwd", b"/"));
}

#[test]
fn relative_paths_are_never_inside() {
    assert!(!starts_with(b"base/file", b"/base"));
    assert!(!starts_with(b"/base/file", b"base"));
    assert!(!starts_with(b"", b"/"));
}

#[test]
fn same_path_goes_by_components() {
    assert!(same_path(b"/home/user", b"/home/user"));
    assert!(same_path(b"/home/user", b"/home/user/"));
    assert!(same_path(b"/home//user", b"/home/./user"));
    assert!(same_path(b"/", b"//"));
    assert!(!same_path(b"/home/user", b"/home/user2"));
    assert!(!same_path(b"/home/user", b"/home"));
    assert!(!same_path(b"/home", b"/home/user"));
    assert!(!same_path(b"/home/user", b"home/user"));
    assert!(!same_path(b"/home/user", b""));
}

#[test]
fn only_the_root_has_no_parent() {
    assert!(has_no_parent(b"/"));
    assert!(has_no_parent(b"//"));
    assert!(has_no_parent(b"/."));
    assert!(!has_no_parent(b"/srv"));
    assert!(!has_no_parent(b"/srv/files"));
    assert!(!has_no_parent(b"/.."));
}

#[test]
fn begins_at_root_looks_at_the_first_byte() {
    assert!(begins_at_root(b"/"));
    assert!(begins_at_root(b"/srv"));
    assert!(!begins_at_root(b""));
    assert!(!begins_at_root(b"srv/"));
}

#[test]
fn file_name_is_the_last_component() {
    assert_eq!(file_name(b"/srv/files/report.pdf"), Some(b"report.pdf".to_vec()));
    assert_eq!(file_name(b"/srv/files/"), Some(b"files".to_vec()));
    assert_eq!(file_name(b"/srv/files/."), Some(b"files".to_vec()));
    assert_eq!(file_name(b"name"), Some(b"name".to_vec()));
    assert_eq!(file_name(b"/a/..."), Some(b"...".to_vec()));
}

#[test]
fn file_name_is_missing_for_root_and_parent_link() {
    assert_eq!(file_name(b"/"), None);
    assert_eq!(file_name(b""), None);
    assert_eq!(file_name(b"/srv/.."), None);
    assert_eq!(file_name(b".."), None);
}

#[test]
fn join_puts_one_separator_between() {
    assert_eq!(join(b"/srv/files", b"report.pdf"), b"/srv/files/report.pdf".to_vec());
    assert_eq!(join(b"/srv/files/", b"report.pdf"), b"/srv/files/report.pdf".to_vec());
    assert_eq!(join(b"/", b"etc"), b"/etc".to_vec());
    assert_eq!(join(b"/srv", b""), b"/srv/".to_vec());
}

#[test]
fn join_keeps_the_base_in_front_of_an_absolute_path() {
    assert_eq!(join(b"/srv/files", b"/etc/passwd"), b"/srv/files//etc/passwd".to_vec());
    assert_eq!(join(b"/srv/files", b"../../etc"), b"/srv/files/../../etc".to_vec());
}
