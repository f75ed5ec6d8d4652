use deb_installer::launch::{choose_launch, usage, Launch, PackageFile};

fn file(exists: bool, extension: Option<&str>) -> Option<PackageFile> {
    Some(PackageFile { exists, extension: extension.map(|e| e.to_string()) })
}

#[test]
fn package_files() {
    assert_eq!(choose_launch(&file(true, Some("deb")), false), Launch::Ui);
    assert_eq!(choose_launch(&file(true, Some("deb")), true), Launch::Ui);
    assert_eq!(choose_launch(&file(true, Some("DEB")), false), Launch::Usage);
    assert_eq!(choose_launch(&file(true, None), true), Launch::Usage);
    assert_eq!(choose_launch(&file(false, Some("deb")), false), Launch::NoSuchPackage);
    assert_eq!(choose_launch(&file(false, None), true), Launch::NoSuchPackage);
}

#[test]
fn no_package_file() {
    assert_eq!(choose_launch(&None, true), Launch::Backend);
    assert_eq!(choose_launch(&None, false), Launch::Usage);
}

#[test]
fn usage_text() {
    assert_eq!(usage("/bin/x"), "Usage: /bin/x /path/to/package.deb");
}
