use stausee_mnemonic::events::{ApplicationOpenLocation, EventLoopMessage};
use stausee_mnemonic::launch::{
    activation_event, check_aol_argument, check_start_with_launcher, get_applicaton_open_location,
    is_launcher_flag, location_flag_position, notify_window_process,
};

fn args(list: &[&str]) -> Vec<String> {
    list.iter().map(|s| s.to_string()).collect()
}

#[test]
fn launcher_flag_in_any_case() {
    assert!(check_start_with_launcher(&args(&["app", "--launcher"])));
    assert!(check_start_with_launcher(&args(&["app", "--LAUNCHER"])));
    assert!(!check_start_with_launcher(&args(&["app"])));
    assert!(!check_start_with_launcher(&args(&[])));
    assert!(!check_start_with_launcher(&args(&["app", "--launcherx"])));
    assert!(!check_start_with_launcher(&args(&["app", "--generate", "--launcher"])));
}

#[test]
fn launcher_flag_on_lowered_text() {
    assert!(is_launcher_flag("--launcher"));
    assert!(!is_launcher_flag("--Launcher"));
}

#[test]
fn location_flags() {
    assert_eq!(check_aol_argument(&args(&["app", "--generate"])), Some(0));
    assert_eq!(check_aol_argument(&args(&["app", "--Retrieve"])), Some(1));
    assert_eq!(check_aol_argument(&args(&["app", "--launcher"])), None);
    assert_eq!(check_aol_argument(&args(&["app"])), None);
    assert_eq!(location_flag_position("--retrieve"), Some(1));
    assert_eq!(location_flag_position("--RETRIEVE"), None);
}

#[test]
fn open_location_from_arguments() {
    assert_eq!(get_applicaton_open_location(&args(&["app", "--GENERATE"])), ApplicationOpenLocation::Generate);
    assert_eq!(get_applicaton_open_location(&args(&["app", "--retrieve"])), ApplicationOpenLocation::Retrieve);
    assert_eq!(get_applicaton_open_location(&args(&["app", "x"])), ApplicationOpenLocation::Auto);
    assert_eq!(get_applicaton_open_location(&args(&["app"])), ApplicationOpenLocation::Auto);
}

#[test]
fn activation_bytes() {
    assert_eq!(notify_window_process(ApplicationOpenLocation::Auto), 0x42);
    assert_eq!(notify_window_process(ApplicationOpenLocation::Generate), 0x44);
    assert_eq!(notify_window_process(ApplicationOpenLocation::Retrieve), 0x46);
}

#[test]
fn unknown_activation_byte_posts_nothing() {
    assert!(activation_event(0x00).is_none());
    assert!(activation_event(0x43).is_none());
    assert!(activation_event(0xff).is_none());
}

#[test]
fn second_instance_forwards_its_location() {
    for (flag, expected) in [
        ("--generate", ApplicationOpenLocation::Generate),
        ("--retrieve", ApplicationOpenLocation::Retrieve),
        ("--other", ApplicationOpenLocation::Auto),
    ] {
        let byte = notify_window_process(get_applicaton_open_location(&args(&["app", flag])));
        match activation_event(byte) {
            Some(EventLoopMessage::ApplicationOpenWindow(aol)) => assert_eq!(aol, expected),
            _ => panic!("the running instance must be asked to open its window"),
        }
    }
}
