use sandbox_serve::method::Method;
use sandbox_serve::method::Mode;
use sandbox_serve::sandbox::BaseDir;

fn dir(path: &str) -> BaseDir {
    BaseDir::new(path.as_bytes().to_vec()).unwrap()
}

#[test]
fn base_directory_must_be_absolute() {
    assert!(BaseDir::new(b"/srv/files".to_vec()).is_some());
    assert!(BaseDir::new(b"/".to_vec()).is_some());
    assert_eq!(BaseDir::new(b"srv/files".to_vec()), None);
    assert_eq!(BaseDir::new(b"".to_vec()), None);
    assert_eq!(BaseDir::new(b"./files".to_vec()), None);
    assert_eq!(dir("/srv/files").as_bytes(), b"/srv/files");
}

#[test]
fn candidate_lies_below_the_base() {
    let base = dir("/srv/files");
    assert_eq!(base.candidate("report.pdf"), b"/srv/files/report.pdf".to_vec());
    assert_eq!(base.candidate("../x"), b"/srv/files/../x".to_vec());
    assert_eq!(base.candidate("/etc/passwd"), b"/srv/files//etc/passwd".to_vec());
    assert_eq!(base.candidate("\u{e9}"), b"/srv/files/\xc3\xa9".to_vec());
    assert_eq!(dir("/").candidate("etc"), b"/etc".to_vec());
}

#[test]
fn admits_goes_by_components() {
    let base = dir("/srv/files");
    assert!(base.admits(b"/srv/files/a"));
    assert!(base.admits(b"/srv/files"));
    assert!(!base.admits(b"/srv/files2/a"));
    assert!(!base.admits(b"/srv"));
    assert!(!base.admits(b"/etc/passwd"));
    assert!(!base.admits(b"srv/files/a"));
}

#[test]
fn only_get_and_head_have_a_mode() {
    assert_eq!(Method::Get.mode(), Some(Mode::Download));
    assert_eq!(Method::Head.mode(), Some(Mode::HeadersOnly));
    assert_eq!(Method::Post.mode(), None);
    assert_eq!(Method::Put.mode(), None);
    assert_eq!(Method::Delete.mode(), None);
    assert_eq!(Method::Connect.mode(), None);
    assert_eq!(Method::Options.mode(), None);
    assert_eq!(Method::Trace.mode(), None);
    assert_eq!(Method::Patch.mode(), None);
    assert_eq!(Method::NonStandard.mode(), None);
}
