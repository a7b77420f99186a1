use goon_launcher::{
    backup_url, check_response_status, default_launcher_path, download_byond_installer,
    finish_backup_download, install_byond, installer_filename, primary_url, registry_key_path,
    DownloadStep, InstallerRun,
};

#[test]
fn mirror_urls_and_file_name() {
    assert_eq!(
        primary_url(516, 1663),
        "https://www.byond.com/download/build/516/516.1663_byond.exe"
    );
    assert_eq!(
        backup_url(516, 1663),
        "https://spacestation13.github.io/byond-builds/516/516.1663_byond.exe"
    );
    assert_eq!(installer_filename(516, 1663), "byond_516.1663_byond.exe");
    assert_eq!(installer_filename(0, 0), "byond_0.0_byond.exe");
}

#[test]
fn names_are_the_same_on_every_call() {
    assert_eq!(primary_url(515, 1642), primary_url(515, 1642));
    assert_eq!(backup_url(515, 1642), backup_url(515, 1642));
    assert_ne!(installer_filename(515, 1642), installer_filename(516, 1642));
}

#[test]
fn response_status_must_be_2xx() {
    assert_eq!(check_response_status(200, "200 OK"), Ok(()));
    assert_eq!(check_response_status(299, "299"), Ok(()));
    assert_eq!(
        check_response_status(404, "404 Not Found"),
        Err("Failed to download file: HTTP status 404 Not Found".to_string())
    );
    assert!(check_response_status(199, "199").is_err());
    assert!(check_response_status(300, "300").is_err());
}

#[test]
fn primary_success_needs_no_backup() {
    match download_byond_installer(516, 1663, "C:/data/byond_516.1663_byond.exe", Ok(())) {
        DownloadStep::Finished(Ok(d)) => {
            assert!(d.success);
            assert_eq!(d.message, "Successfully downloaded BYOND 516.1663 installer");
            assert_eq!(d.installer_path, "C:/data/byond_516.1663_byond.exe");
        }
        _ => panic!("expected a finished download"),
    }
}

#[test]
fn primary_failure_turns_to_backup() {
    match download_byond_installer(516, 1663, "p", Err("timed out".to_string())) {
        DownloadStep::TryBackup(url) => assert_eq!(
            url,
            "https://spacestation13.github.io/byond-builds/516/516.1663_byond.exe"
        ),
        _ => panic!("expected the backup mirror"),
    }
}

#[test]
fn backup_success_after_unreachable_primary() {
    let path = "C:/data/byond_installer/byond_516.1663_byond.exe";
    let step = download_byond_installer(516, 1663, path, Err("Failed to send request: dns".to_string()));
    assert!(matches!(step, DownloadStep::TryBackup(_)));
    let d = finish_backup_download(516, 1663, path, "Failed to send request: dns", Ok(())).unwrap();
    assert!(d.success);
    assert_eq!(d.installer_path, path);
    assert_eq!(
        d.message,
        "Successfully downloaded BYOND 516.1663 installer from backup source"
    );
}

#[test]
fn both_failures_are_reported() {
    let r = finish_backup_download(
        516,
        1663,
        "p",
        "Failed to download file: HTTP status 404 Not Found",
        Err("Failed to send request: timeout".to_string()),
    );
    let m = r.err().unwrap();
    assert_eq!(
        m,
        "Failed to download BYOND installer from both sources. Primary error: Failed to download file: HTTP status 404 Not Found, Backup error: Failed to send request: timeout"
    );
    assert!(m.contains("HTTP status 404"));
    assert!(m.contains("timeout"));
}

#[test]
fn missing_installer() {
    assert_eq!(
        install_byond("C:/x.exe", InstallerRun::Missing).err(),
        Some("Installer not found at C:/x.exe".to_string())
    );
}

#[test]
fn installer_that_cannot_start() {
    assert_eq!(
        install_byond("C:/x.exe", InstallerRun::NotStarted("bad image".to_string())).err(),
        Some("Failed to execute installer: bad image".to_string())
    );
}

#[test]
fn exit_success_without_probes_fails() {
    let r = install_byond(
        "C:/x.exe",
        InstallerRun::Finished { exit_success: true, launcher_found: false, registry_found: false },
    );
    assert_eq!(
        r.err(),
        Some("BYOND installation could not be verified. The installation may have been cancelled or failed.".to_string())
    );
}

#[test]
fn exit_failure_with_a_probe_succeeds() {
    for (l, g) in [(true, false), (false, true), (true, true)] {
        let r = install_byond(
            "C:/x.exe",
            InstallerRun::Finished { exit_success: false, launcher_found: l, registry_found: g },
        )
        .unwrap();
        assert!(r.success);
        assert_eq!(r.message, "BYOND installed successfully at C:\\Program Files (x86)\\BYOND");
    }
}

#[test]
fn install_probe_locations() {
    assert_eq!(
        default_launcher_path(),
        "C:\\Program Files (x86)\\BYOND\\bin\\dreamseeker.exe"
    );
    assert_eq!(registry_key_path(), "Software\\Dantom\\BYOND");
}
