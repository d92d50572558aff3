use lab_suite::hub::{install_button, status_line};
use lab_suite::i18n::{t, Key, Lang};
use lab_suite::hub::{
    apps, asset_url, desktop_entry, entry_file_name, icon_file_name, is_exe, shortcut_file_name, tag_name,
    Where, REPO,
};
use lab_suite::json::Json;

#[test]
fn catalog_lists_the_four_apps() {
    let a = apps();
    let ids: Vec<&str> = a.iter().map(|x| x.id).collect();
    assert_eq!(ids, vec!["lab-monitor", "lab-calc", "lab-clip", "lab-keys"]);
    assert_eq!(a[1].display, "Lab Calc");
    assert_eq!(a[3].asset(true), "lab-keys-windows-x64.zip");
    assert_eq!(a[3].asset(false), "Lab_Keys-x86_64.AppImage");
}

#[test]
fn asset_urls_point_at_the_release() {
    assert_eq!(REPO, "Anon5T4R/egui-lab");
    assert_eq!(
        asset_url("v0.2.2", "lab-calc-windows-x64.zip"),
        "https://github.com/Anon5T4R/egui-lab/releases/download/v0.2.2/lab-calc-windows-x64.zip"
    );
    assert_eq!(icon_file_name("lab-clip", true), "lab-clip.ico");
    assert_eq!(icon_file_name("lab-clip", false), "lab-clip.png");
}

#[test]
fn archive_entries_keep_only_their_file_name() {
    assert_eq!(entry_file_name("dir\\sub/app.exe"), "app.exe");
    assert_eq!(entry_file_name("../../evil.exe"), "evil.exe");
    assert_eq!(entry_file_name("plain.txt"), "plain.txt");
    assert_eq!(entry_file_name("dir/"), "");
    assert!(is_exe("app.exe"));
    assert!(!is_exe("app.EXE"));
    assert!(!is_exe("exe"));
}

#[test]
fn latest_tag_comes_from_tag_name() {
    let ok = Json::Obj(vec![("tag_name".to_string(), Json::Str("v1.0.0".to_string()))]);
    assert_eq!(tag_name(&ok), Ok("v1.0.0".to_string()));
    let bad = Json::Obj(vec![("tag_name".to_string(), Json::Num("3".to_string()))]);
    assert_eq!(tag_name(&bad), Err("release sem tag_name".to_string()));
    assert_eq!(tag_name(&Json::Null), Err("release sem tag_name".to_string()));
}

#[test]
fn shortcuts() {
    assert_eq!(
        desktop_entry("Lab Calc", "/opt/lab-calc", "/i/lab-calc.png"),
        "[Desktop Entry]\nType=Application\nName=Lab Calc\nExec=/opt/lab-calc\nIcon=/i/lab-calc.png\nCategories=Utility;\nTerminal=false\n"
    );
    assert_eq!(shortcut_file_name("lab-calc", "Lab Calc", true), "Lab Calc.lnk");
    assert_eq!(shortcut_file_name("lab-calc", "Lab Calc", false), "lab-calc.desktop");
    assert_ne!(Where::StartMenu, Where::Desktop);
}

#[test]
fn status_lines_and_install_button() {
    let l = Lang::En;
    let (s, outdated) = status_line(l, Some("v1"), Some("v1"));
    assert_eq!(s, format!("{} v1 · {}", t(l, Key::Installed), t(l, Key::UpToDate)));
    assert!(!outdated);
    let (s, outdated) = status_line(l, Some("v1"), Some("v2"));
    assert_eq!(s, format!("{} v1 · {} v2", t(l, Key::Installed), t(l, Key::Available)));
    assert!(outdated);
    assert_eq!(status_line(l, Some("v1"), None).0, format!("{} v1", t(l, Key::Installed)));
    assert_eq!(status_line(l, None, Some("v2")).0, t(l, Key::NotInstalled));
    assert_eq!(install_button(l, true, false, true), (t(l, Key::Update), true));
    assert_eq!(install_button(l, false, true, true), (t(l, Key::Install), false));
    assert_eq!(install_button(l, false, false, false).1, false);
}
