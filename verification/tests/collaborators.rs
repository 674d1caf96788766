use binstall::confirm::{confirm, judge};
use binstall::errors::BinstallError;
use binstall::install_path::{get_install_path, InstallPath, Surroundings};

fn nothing() -> Surroundings {
    Surroundings {
        install_root: None,
        cargo_home: None,
        home: None,
        home_cargo_bin_exists: false,
        executable_dir: None,
    }
}

fn everything() -> Surroundings {
    Surroundings {
        install_root: Some("/opt/root".to_string()),
        cargo_home: Some("/opt/cargo".to_string()),
        home: Some("/home/u".to_string()),
        home_cargo_bin_exists: true,
        executable_dir: Some("/home/u/.local/bin".to_string()),
    }
}

#[test]
fn explicit_override_comes_first() {
    assert_eq!(
        get_install_path(Some("/given".to_string()), everything()),
        Some(InstallPath::Exact("/given".to_string()))
    );
    assert_eq!(
        get_install_path(Some("/given".to_string()), nothing()),
        Some(InstallPath::Exact("/given".to_string()))
    );
}

#[test]
fn install_root_comes_second() {
    assert_eq!(
        get_install_path(None, everything()),
        Some(InstallPath::BinUnder("/opt/root".to_string()))
    );
}

#[test]
fn cargo_home_comes_third() {
    let around = Surroundings { install_root: None, ..everything() };
    assert_eq!(get_install_path(None, around), Some(InstallPath::BinUnder("/opt/cargo".to_string())));
}

#[test]
fn existing_cargo_bin_comes_fourth() {
    let around = Surroundings { install_root: None, cargo_home: None, ..everything() };
    assert_eq!(
        get_install_path(None, around),
        Some(InstallPath::CargoBinUnder("/home/u".to_string()))
    );
}

#[test]
fn missing_cargo_bin_is_passed_over() {
    let around = Surroundings {
        install_root: None,
        cargo_home: None,
        home_cargo_bin_exists: false,
        ..everything()
    };
    assert_eq!(
        get_install_path(None, around),
        Some(InstallPath::Exact("/home/u/.local/bin".to_string()))
    );
}

#[test]
fn unknown_home_is_passed_over() {
    let around = Surroundings { install_root: None, cargo_home: None, home: None, ..everything() };
    assert_eq!(
        get_install_path(None, around),
        Some(InstallPath::Exact("/home/u/.local/bin".to_string()))
    );
}

#[test]
fn no_rule_resolves_to_nothing() {
    assert_eq!(get_install_path(None, nothing()), None);
    let around = Surroundings { home: Some("/home/u".to_string()), ..nothing() };
    assert_eq!(get_install_path(None, around), None);
    let around = Surroundings { home_cargo_bin_exists: true, ..nothing() };
    assert_eq!(get_install_path(None, around), None);
}

#[test]
fn yes_in_any_case_continues() {
    for line in ["yes", "y", "YES", "Y", "Yes", "yEs", "yeS", "YeS\n", "  y  ", "\tyes\r\n"] {
        assert_eq!(confirm(line), Some(Ok(())), "line {:?}", line);
    }
}

#[test]
fn no_in_any_case_aborts() {
    for line in ["no", "n", "NO", "N", "No", "nO", "no\n", " N \n"] {
        assert_eq!(confirm(line), Some(Err(BinstallError::UserAbort)), "line {:?}", line);
    }
}

#[test]
fn empty_line_means_no() {
    for line in ["", "\n", "   ", "\r\n", "\t \n"] {
        assert_eq!(confirm(line), Some(Err(BinstallError::UserAbort)), "line {:?}", line);
    }
}

#[test]
fn other_lines_are_asked_again() {
    for line in ["maybe", "ye", "yess", "nope", "y e s", "yes no", "ja", "0", "oui", "ÿ", "nö"] {
        assert_eq!(confirm(line), None, "line {:?}", line);
    }
}

#[test]
fn unicode_whitespace_is_trimmed() {
    assert_eq!(confirm("\u{2003}yes\u{a0}"), Some(Ok(())));
}

#[test]
fn judge_does_not_trim() {
    assert_eq!(judge("yes"), Some(Ok(())));
    assert_eq!(judge(""), Some(Err(BinstallError::UserAbort)));
    assert_eq!(judge(" yes"), None);
    assert_eq!(judge("y\n"), None);
    assert_eq!(judge(" "), None);
}
