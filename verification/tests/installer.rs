use deb_installer::frontend::{react, BackendOutput, ProgressEvent};
use deb_installer::installer::{
    choose_action, choose_status, DebInstaller, DebInstallerRust, InstallAction, InstallStatus,
    PackageInfo, PackageProbe, ResolveError, VersionOrder, WorkStatus,
};
use deb_installer::protocol::{progress_line, result_line};

fn info(installed: Option<VersionOrder>) -> PackageInfo {
    PackageInfo {
        name: "foo".to_string(),
        version: "1.2-3".to_string(),
        summary: Some("A foo".to_string()),
        installed_size: 1536,
        installed,
    }
}

fn show(installer: &mut DebInstallerRust, lines: &[String]) {
    for line in lines {
        for event in react(&BackendOutput::Line(line.clone())).events {
            installer.show_event(event);
        }
    }
}

#[test]
fn initial_state() {
    let installer = DebInstaller::default();
    assert_eq!(installer.package, "");
    assert_eq!(installer.message, "");
    assert_eq!(installer.path, "");
    assert_eq!(installer.progress, 0);
    assert_eq!(installer.action, InstallAction::Install);
    assert_eq!(installer.status, InstallStatus::OkToInstall);
    assert_eq!(installer.work_status, WorkStatus::Idle);
    assert!(!installer.has_error);
}

#[test]
fn actions() {
    assert_eq!(choose_action(None), InstallAction::Install);
    assert_eq!(choose_action(Some(VersionOrder::Same)), InstallAction::ReInstall);
    assert_eq!(choose_action(Some(VersionOrder::Newer)), InstallAction::Upgrade);
    assert_eq!(choose_action(Some(VersionOrder::Older)), InstallAction::Downgrade);
}

#[test]
fn statuses() {
    assert_eq!(choose_status(Ok(())), InstallStatus::OkToInstall);
    assert_eq!(choose_status(Err(ResolveError::DependencyIssue)), InstallStatus::DependencyIssue);
    assert_eq!(
        choose_status(Err(ResolveError::DiskSpaceInsufficient)),
        InstallStatus::DiskSpaceInsufficient
    );
    assert_eq!(choose_status(Err(ResolveError::Other)), InstallStatus::Other);
}

#[test]
fn package_found() {
    let mut installer = DebInstaller::default();
    installer.load_package_info(
        "/tmp/foo.deb",
        PackageProbe::Found {
            package: info(Some(VersionOrder::Newer)),
            resolution: Err(ResolveError::DependencyIssue),
        },
    );
    assert_eq!(installer.package, "foo");
    assert_eq!(installer.pkg_version, "1.2-3");
    assert_eq!(installer.pkg_description, "A foo");
    assert_eq!(installer.pkg_size, "1.50 KiB");
    assert_eq!(installer.path, "/tmp/foo.deb");
    assert_eq!(installer.action, InstallAction::Upgrade);
    assert_eq!(installer.status, InstallStatus::DependencyIssue);
    assert_eq!(installer.work_status, WorkStatus::Idle);
}

#[test]
fn package_without_summary() {
    let mut installer = DebInstaller::default();
    installer.pkg_description = "old".to_string();
    let mut package = info(None);
    package.summary = None;
    installer.show_package("/x.deb", package, "big".to_string(), Ok(()));
    assert_eq!(installer.pkg_description, "");
    assert_eq!(installer.pkg_size, "big");
    assert_eq!(installer.action, InstallAction::Install);
}

#[test]
fn package_manager_failed() {
    let mut installer = DebInstaller::default();
    installer.load_package_info("/x.deb", PackageProbe::ManagerFailed("no cache".to_string()));
    assert_eq!(installer.message, "no cache");
    assert_eq!(installer.status, InstallStatus::Other);
    assert_eq!(installer.path, "");
}

#[test]
fn package_not_found() {
    let mut installer = DebInstaller::default();
    installer.load_package_info("/x.deb", PackageProbe::NotFound);
    assert_eq!(installer.path, "");
    assert_eq!(installer.status, InstallStatus::OkToInstall);
}

#[test]
fn no_second_install() {
    let mut installer = DebInstaller::default();
    installer.path = "/x.deb".to_string();
    assert_eq!(installer.install(), Some("/x.deb".to_string()));
    assert_eq!(installer.work_status, WorkStatus::Working);
    assert_eq!(installer.progress, 0);
    assert_eq!(installer.message, "Connecting to backend...");
    installer.show_event(ProgressEvent::Percent(40));
    assert_eq!(installer.install(), None);
    assert_eq!(installer.progress, 40);
    installer.show_event(ProgressEvent::Done);
    assert_eq!(installer.install(), Some("/x.deb".to_string()));
    assert_eq!(installer.progress, 0);
}

#[test]
fn success_shown() {
    let mut installer = DebInstaller::default();
    installer.install();
    show(&mut installer, &[progress_line(100), result_line(&Ok(()))]);
    assert_eq!(installer.progress, 100);
    assert_eq!(installer.work_status, WorkStatus::Done);
    assert!(!installer.has_error);
    assert_eq!(installer.message, "Connecting to backend...");
}

#[test]
fn failure_shown_and_stays() {
    let mut installer = DebInstaller::default();
    installer.install();
    show(&mut installer, &[progress_line(100), result_line(&Err("no space".to_string()))]);
    assert_eq!(installer.message, "no space");
    assert_eq!(installer.work_status, WorkStatus::Done);
    assert!(installer.has_error);
    installer.install();
    show(&mut installer, &[result_line(&Ok(()))]);
    assert!(installer.has_error);
}

#[test]
fn translations() {
    let mut installer = DebInstaller::default();
    assert_eq!(installer.i18n_with_arg("Install {}?", "foo"), "Install foo?");
    assert_eq!(installer.i18n_with_arg("{} {} {", "{}"), "{} {} {");
    assert_eq!(installer.i18n_with_arg("Install", "foo"), "Install");
    assert_eq!(installer.message, "");
}
