use apcore_cli::fs_discoverer::{executable_is_safe, FsDiscoverer};

#[test]
fn executables_are_kept_inside_the_canonical_root() {
    let mut d = FsDiscoverer::new("./ext".to_string());
    assert!(!d.record_executable("early".to_string(), "/srv/ext/a/run.sh".to_string()));
    assert_eq!(d.canonical_root(), None);
    d.set_canonical_root("/srv/ext".to_string());
    assert_eq!(d.canonical_root(), Some("/srv/ext"));
    assert!(d.record_executable("a".to_string(), "/srv/ext/a/run.sh".to_string()));
    assert!(!d.record_executable("b".to_string(), "/srv/other/run.sh".to_string()));
    assert!(!d.record_executable("c".to_string(), "/srv/extra/run.sh".to_string()));
    assert_eq!(d.get_executable("a"), Some("/srv/ext/a/run.sh".to_string()));
    assert_eq!(d.get_executable("b"), None);
    assert_eq!(d.executables_snapshot().len(), 1);
    assert_eq!(d.root(), "./ext");
}

#[test]
fn containment_compares_whole_components() {
    assert!(executable_is_safe("/a/b/c", "/a/b"));
    assert!(executable_is_safe("/a/b", "/a/b"));
    assert!(!executable_is_safe("/a/bc", "/a/b"));
    assert!(!executable_is_safe("a/b", "/a"));
}
