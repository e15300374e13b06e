use murmure::updater::LinuxFormat;

#[test]
fn test_linux_format_to_target_string() {
    assert_eq!(LinuxFormat::AppImage.to_target_string(), "linux-x86_64");
    assert_eq!(LinuxFormat::Deb.to_target_string(), "linux-deb-x86_64");
}

#[test]
fn test_detect_honors_override() {
    let deb = "DEB".to_string();
    let image = "appimage".to_string();
    let junk = "zip".to_string();
    assert_eq!(LinuxFormat::detect(Some(&deb), false), LinuxFormat::Deb);
    assert_eq!(LinuxFormat::detect(Some(&image), true), LinuxFormat::AppImage);
    assert_eq!(LinuxFormat::detect(Some(&junk), true), LinuxFormat::Deb);
    assert_eq!(LinuxFormat::detect(None, false), LinuxFormat::AppImage);
    assert_eq!(LinuxFormat::detect(None, true), LinuxFormat::Deb);
}

#[test]
fn test_is_deb_installed_checks_path_prefixes() {
    assert!(LinuxFormat::is_deb_installed("/opt/murmure/bin/murmure", false));
    assert!(LinuxFormat::is_deb_installed("/usr/bin/murmure", false));
    assert!(!LinuxFormat::is_deb_installed("/home/someone/apps/murmure", false));
    assert!(LinuxFormat::is_deb_installed("/home/someone/apps/murmure", true));
}
