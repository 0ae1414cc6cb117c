use fractal::platform::{app_dir_choice, localedir_choice, DirChoice};

#[test]
fn localedir_override() {
    let choice = localedir_choice(
        Some("/override".to_owned()),
        vec!["/system".to_owned()],
        "/user".to_owned(),
    );
    assert!(matches!(choice, DirChoice::Given(dir) if dir == "/override"));
}

#[test]
fn localedir_first_system_dir() {
    let choice = localedir_choice(
        None,
        vec!["/system/one".to_owned(), "/system/two".to_owned()],
        "/user".to_owned(),
    );
    assert!(matches!(choice, DirChoice::Under(dir) if dir == "/system/one"));
}

#[test]
fn localedir_user_dir_fallback() {
    let choice = localedir_choice(None, Vec::new(), "/user".to_owned());
    assert!(matches!(choice, DirChoice::Under(dir) if dir == "/user"));
}

#[test]
fn app_dir_choices() {
    let choice = app_dir_choice(Some("/data".to_owned()), "/user".to_owned());
    assert!(matches!(choice, DirChoice::Given(dir) if dir == "/data"));
    let choice = app_dir_choice(None, "/user".to_owned());
    assert!(matches!(choice, DirChoice::Under(dir) if dir == "/user"));
}
