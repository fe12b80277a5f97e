use margo_fetch::{CargoCacheCrate, Crate, CrateDownloadTarget};

fn path_of(cargo_dir: &str, registry_name: &str, crate_name: &str, version: &str) -> String {
    let record = Crate::new(crate_name, version, "src", Some("ab"));
    CargoCacheCrate::new(record, cargo_dir, registry_name).cache_path()
}

#[test]
fn cache_path_is_made_of_its_four_parts() {
    assert_eq!(
        path_of("/home/user/.cargo", "github.com-1ecc6299db9ec823", "foo", "1.0.0"),
        "/home/user/.cargo/registry/cache/github.com-1ecc6299db9ec823/foo-1.0.0.crate"
    );
}

#[test]
fn cache_path_of_empty_parts() {
    assert_eq!(path_of("", "", "", ""), "/registry/cache//-.crate");
}

#[test]
fn cache_path_is_the_same_each_time() {
    let record = Crate::new("foo", "1.0.0", "src", Some("ab"));
    let target = CargoCacheCrate::new(record, "root", "registry");
    assert_eq!(target.cache_path(), target.cache_path());
    let again =
        CargoCacheCrate::new(Crate::new("foo", "1.0.0", "src", Some("ab")), "root", "registry");
    assert_eq!(target.cache_path(), again.cache_path());
}

#[test]
fn cache_path_changes_with_each_part() {
    let path = path_of("root", "registry", "foo", "1.0.0");
    assert_ne!(path, path_of("other", "registry", "foo", "1.0.0"));
    assert_ne!(path, path_of("root", "other", "foo", "1.0.0"));
    assert_ne!(path, path_of("root", "registry", "bar", "1.0.0"));
    assert_ne!(path, path_of("root", "registry", "foo", "1.0.1"));
    assert_ne!(path, path_of("root/", "registry", "foo", "1.0.0"));
}

#[test]
fn cache_path_does_not_depend_on_source_or_checksum() {
    let a = CargoCacheCrate::new(Crate::new("foo", "1.0.0", "one", Some("ab")), "root", "registry");
    let b = CargoCacheCrate::new(Crate::new("foo", "1.0.0", "two", None), "root", "registry");
    assert_eq!(a.cache_path(), b.cache_path());
}

#[test]
fn target_shows_its_record() {
    let record = Crate::new("foo", "1.0.0", "src", Some("ab"));
    let target = CargoCacheCrate::new(record, "root", "registry");
    assert_eq!(target.cargo_crate(), &record);
    assert_eq!(target.crate_name(), "foo");
    assert_eq!(target.version(), "1.0.0");
    assert_eq!(target.checksum(), "ab");
    assert_eq!(target.target_path(), "root/registry/cache/registry/foo-1.0.0.crate");
    assert_eq!(target.target_path(), target.cache_path());
}
