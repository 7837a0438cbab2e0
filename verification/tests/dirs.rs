use shanti::dirs::{config_dir_from, env_value, get_config_dir, get_data_dir, state_dir_from};

#[test]
fn shanti_config_wins_over_everything() {
    let dir = config_dir_from(Some("/explicit".into()), Some("/xdg".into()), "/home/someone");
    assert_eq!(dir, "/explicit");
}

#[test]
fn xdg_config_home_is_honoured_before_the_default() {
    let dir = config_dir_from(None, Some("/xdg".into()), "/home/someone");
    assert_eq!(dir, "/xdg/shanti");
}

#[test]
fn shanti_data_wins_over_everything() {
    let dir = state_dir_from(Some("/explicit".into()), Some("/xdg".into()), "/home/someone");
    assert_eq!(dir, "/explicit");
}

#[test]
fn xdg_state_home_is_honoured_before_the_default() {
    let dir = state_dir_from(None, Some("/xdg".into()), "/home/someone");
    assert_eq!(dir, "/xdg/shanti");
}

#[test]
fn the_data_default_is_the_xdg_state_directory() {
    let dir = state_dir_from(None, None, "/home/someone");
    assert_eq!(dir, "/home/someone/.local/state/shanti");
}

#[test]
fn the_default_is_a_dotfile_directory() {
    let dir = config_dir_from(None, None, "/home/someone");
    assert_eq!(dir, "/home/someone/.config/shanti");
}

#[test]
fn an_empty_variable_is_not_set() {
    assert_eq!(env_value(Some(String::new())), None);
    assert_eq!(env_value(Some("/x".into())), Some("/x".to_string()));
    assert_eq!(
        get_config_dir(Some(String::new()), None, Some("/home/someone".into())),
        Ok("/home/someone/.config/shanti".to_string())
    );
}

#[test]
fn no_home_directory_is_an_error() {
    let expected = Err("Unable to find a home directory for shanti".to_string());
    assert_eq!(get_config_dir(None, None, None), expected);
    assert_eq!(get_data_dir(None, None, None), expected);
}
