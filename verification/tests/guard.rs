use sandbox_serve::guard::check_startup;
use sandbox_serve::guard::home_dir;
use sandbox_serve::guard::is_dangerous_dir;
use sandbox_serve::guard::refusal_hint;
use sandbox_serve::guard::refusal_message;
use sandbox_serve::guard::Startup;
use sandbox_serve::sandbox::BaseDir;

fn dir(path: &str) -> BaseDir {
    BaseDir::new(path.as_bytes().to_vec()).unwrap()
}

#[test]
fn root_is_dangerous() {
    assert!(is_dangerous_dir(&dir("/"), None));
    assert!(is_dangerous_dir(&dir("/"), Some("/home/user")));
}

#[test]
fn home_is_dangerous() {
    assert!(is_dangerous_dir(&dir("/home/user"), Some("/home/user")));
    assert!(is_dangerous_dir(&dir("/home/user"), Some("/home/user/")));
    assert!(is_dangerous_dir(&dir("/home/user"), Some("/home//user")));
}

#[test]
fn other_directories_are_allowed() {
    assert!(!is_dangerous_dir(&dir("/srv/files"), Some("/home/user")));
    assert!(!is_dangerous_dir(&dir("/srv/files"), None));
    assert!(!is_dangerous_dir(&dir("/home/user/share"), Some("/home/user")));
    assert!(!is_dangerous_dir(&dir("/home"), Some("/home/user")));
    assert!(!is_dangerous_dir(&dir("/home/user2"), Some("/home/user")));
}

#[test]
fn home_that_is_not_absolute_matches_nothing() {
    assert!(!is_dangerous_dir(&dir("/home/user"), Some("home/user")));
    assert!(!is_dangerous_dir(&dir("/home/user"), Some("")));
}

#[test]
fn dangerous_directory_is_refused_without_override() {
    assert_eq!(check_startup(&dir("/"), None, false), Startup::Refuse);
    assert_eq!(check_startup(&dir("/home/user"), Some("/home/user"), false), Startup::Refuse);
    assert_eq!(Startup::Refuse.exit_status(), Some(1));
}

#[test]
fn override_serves_every_directory() {
    assert_eq!(check_startup(&dir("/"), None, true), Startup::Serve);
    assert_eq!(check_startup(&dir("/home/user"), Some("/home/user"), true), Startup::Serve);
    assert_eq!(check_startup(&dir("/srv/files"), Some("/home/user"), true), Startup::Serve);
    assert_eq!(Startup::Serve.exit_status(), None);
}

#[test]
fn safe_directory_is_served_without_override() {
    assert_eq!(check_startup(&dir("/srv/files"), Some("/home/user"), false), Startup::Serve);
    assert_eq!(check_startup(&dir("/srv/files"), None, false), Startup::Serve);
}

#[test]
fn home_variable_comes_before_user_profile() {
    let home = Some("/home/user".to_string());
    let profile = Some("C:\\Users\\user".to_string());
    assert_eq!(home_dir(home.clone(), profile.clone()), home);
    assert_eq!(home_dir(None, profile.clone()), profile);
    assert_eq!(home_dir(home.clone(), None), home);
    assert_eq!(home_dir(None, None), None);
    assert_eq!(home_dir(Some(String::new()), profile), Some(String::new()));
}

#[test]
fn refusal_names_the_directory() {
    assert_eq!(refusal_message("/home/user"), "Refusing to serve dangerous directory: /home/user");
    assert_eq!(refusal_hint(), "Pass --force to override, or pick a safer directory.");
}
