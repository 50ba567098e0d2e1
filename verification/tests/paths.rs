use drum_machine::paths::VirtualPaths;

fn registered() -> VirtualPaths {
    let mut paths = VirtualPaths::new();
    paths.insert(String::from("samples:"), String::from("/srv/samples"));
    paths.insert(String::from("beats:"), String::from("/srv/beats"));
    paths
}

#[test]
fn scheme_is_replaced_by_its_directory() {
    let paths = registered();
    assert_eq!(paths.translate("samples:/p.json"), Some(String::from("/srv/samples/p.json")));
    assert_eq!(paths.translate("beats:/a/b.json"), Some(String::from("/srv/beats/a/b.json")));
    assert_eq!(paths.translate("beats:"), Some(String::from("/srv/beats")));
}

#[test]
fn unknown_scheme_fails() {
    let paths = registered();
    assert_eq!(paths.translate("presets:/p.json"), None);
    assert_eq!(paths.translate("/etc/passwd"), None);
    assert_eq!(paths.translate(""), None);
    assert_eq!(paths.translate("sample"), None);
    assert_eq!(VirtualPaths::new().translate("samples:/p.json"), None);
}

#[test]
fn registering_again_replaces_the_directory() {
    let mut paths = registered();
    paths.insert(String::from("samples:"), String::from("/mnt/s"));
    assert_eq!(paths.translate("samples:/p.json"), Some(String::from("/mnt/s/p.json")));
    assert_eq!(paths.translate("beats:/p.json"), Some(String::from("/srv/beats/p.json")));
}

#[test]
fn first_registered_scheme_wins() {
    let mut paths = VirtualPaths::new();
    paths.insert(String::from("a:"), String::from("/one"));
    paths.insert(String::from("a:b:"), String::from("/two"));
    assert_eq!(paths.translate("a:b:/x"), Some(String::from("/oneb:/x")));
}

#[test]
fn paths_are_cut_by_characters() {
    let mut paths = VirtualPaths::new();
    paths.insert(String::from("é:"), String::from("/d"));
    assert_eq!(paths.translate("é:/ü.json"), Some(String::from("/d/ü.json")));
    assert_eq!(paths.translate("e:/x"), None);
}
