use stausee_mnemonic::config::{config_target, promise_is_file, property_path, ConfigTarget};

fn path(list: &[&str]) -> Vec<String> {
    list.iter().map(|s| s.to_string()).collect()
}

#[test]
fn empty_path_is_refused() {
    assert!(matches!(config_target(path(&[]), true), Err(m) if m == "dottedPath musn't be empty"));
}

#[test]
fn path_must_start_at_the_root() {
    assert!(matches!(
        config_target(path(&["general", "x"]), true),
        Err(m) if m == "dottedPath must start with globalConfig"
    ));
}

#[test]
fn root_path_replaces_the_whole_configuration() {
    assert!(matches!(config_target(path(&["globalConfig"]), true), Ok(ConfigTarget::Whole)));
    assert!(matches!(
        config_target(path(&["globalConfig"]), false),
        Err(m) if m == "globalConfig has to be an object"
    ));
    assert!(matches!(config_target(path(&["globalConfig", "globalConfig"]), true), Ok(ConfigTarget::Whole)));
}

#[test]
fn property_path_splits_parents_and_property() {
    match config_target(path(&["globalConfig", "generalApp", "showOnStart"]), false) {
        Ok(ConfigTarget::Property { parents, property }) => {
            assert_eq!(parents, path(&["generalApp"]));
            assert_eq!(property, "showOnStart");
        }
        _ => panic!("a nested path names a property"),
    }
    match config_target(path(&["globalConfig", "top"]), true) {
        Ok(ConfigTarget::Property { parents, property }) => {
            assert!(parents.is_empty());
            assert_eq!(property, "top");
        }
        _ => panic!("a one-level path names a property"),
    }
}

#[test]
fn read_path_drops_the_root() {
    assert_eq!(property_path(&path(&["globalConfig", "a", "b"])), path(&["a", "b"]));
    assert!(property_path(&path(&["globalConfig"])).is_empty());
}

#[test]
fn store_exists_when_it_opens() {
    assert!(promise_is_file(&Ok::<(), String>(())));
    assert!(!promise_is_file(&Err::<(), String>("not found".to_string())));
}
