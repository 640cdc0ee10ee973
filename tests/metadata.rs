use appimg_igniter::error::AppimageError;
use appimg_igniter::metadata::{
    find_desktop_entry, is_desktop_file_name, metadata_from_lines, metadata_from_text,
};

#[test]
fn demo_bundle_metadata() {
    let md = metadata_from_text("[Desktop Entry]\nName=Demo\nExec=/usr/bin/demo\n");
    assert_eq!(md.name, "Demo");
    assert_eq!(md.version, "Unknown Version");
    assert_eq!(md.exec_command, Some("/usr/bin/demo".to_string()));
    assert_eq!(md.icon, None);
    assert_eq!(md.desktop_entry, vec!["[Desktop Entry]", "Name=Demo", "Exec=/usr/bin/demo"]);
}

#[test]
fn version_falls_back_to_appimage_version() {
    let md = metadata_from_text("[Desktop Entry]\nX-AppImage-Version=2.3\n");
    assert_eq!(md.version, "2.3");
    let md = metadata_from_text("[Desktop Entry]\nX-AppImage-Version=2.3\nVersion=1.0\n");
    assert_eq!(md.version, "1.0");
}

#[test]
fn missing_keys_get_sentinels() {
    let md = metadata_from_lines(vec!["[Desktop Entry]".to_string(), "Icon=demo".to_string()]);
    assert_eq!(md.name, "Unknown Name");
    assert_eq!(md.version, "Unknown Version");
    assert_eq!(md.exec_command, None);
    assert_eq!(md.icon, Some("demo".to_string()));
}

#[test]
fn duplicate_name_keeps_first() {
    let md = metadata_from_text("[Desktop Entry]\nName=A\n# Name=Ignored\nName=B\n");
    assert_eq!(md.name, "A");
}

#[test]
fn commented_name_is_not_used() {
    let md = metadata_from_text("[Desktop Entry]\n# Name=Ignored\n");
    assert_eq!(md.name, "Unknown Name");
}

#[test]
fn desktop_names() {
    assert!(is_desktop_file_name(&"App.desktop".to_string()));
    assert!(is_desktop_file_name(&".desktop".to_string()));
    assert!(!is_desktop_file_name(&"App.desktop.png".to_string()));
    assert!(!is_desktop_file_name(&"desktop".to_string()));
}

#[test]
fn first_desktop_entry_is_found() {
    let files = vec![
        "usr/bin/demo".to_string(),
        "usr/share/applications/demo.desktop".to_string(),
        "App.desktop".to_string(),
    ];
    assert_eq!(find_desktop_entry(&files), Ok("usr/share/applications/demo.desktop".to_string()));
}

#[test]
fn missing_desktop_entry_is_reported() {
    let files = vec!["AppRun".to_string(), "demo.png".to_string()];
    assert_eq!(find_desktop_entry(&files), Err(AppimageError::DescriptorNotFound));
    assert_eq!(find_desktop_entry(&Vec::new()), Err(AppimageError::DescriptorNotFound));
}
