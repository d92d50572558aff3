use lab_suite::prefs::{
    code_display, code_from_name, code_name, HotkeyPref, KeyCode, NamedKey, MOD_ALT, MOD_CONTROL, MOD_SHIFT,
    MOD_SUPER,
};

#[test]
fn default_is_ctrl_alt_v() {
    let d = HotkeyPref::default();
    assert_eq!(d.display(), "Ctrl+Alt+V");
    assert_eq!(d.mods, MOD_CONTROL | MOD_ALT);
    assert_eq!(d.code, KeyCode::Letter(21));
}

#[test]
fn display_orders_modifiers() {
    let p = HotkeyPref { mods: MOD_SHIFT | MOD_SUPER | MOD_CONTROL | MOD_ALT, code: KeyCode::Named(NamedKey::ArrowLeft) };
    assert_eq!(p.display(), "Ctrl+Win+Alt+Shift+←");
    let q = HotkeyPref { mods: 0, code: KeyCode::Named(NamedKey::Escape) };
    assert_eq!(q.display(), "Esc");
}

#[test]
fn stored_form_reads_back() {
    let p = HotkeyPref { mods: MOD_SHIFT | MOD_CONTROL, code: KeyCode::Function(5) };
    let (bits, name) = p.to_stored();
    assert_eq!(name, "F5");
    assert_eq!(HotkeyPref::from_stored(bits, &name), p);
    let q = HotkeyPref { mods: MOD_ALT, code: KeyCode::Function(12) };
    let (bits, name) = q.to_stored();
    assert_eq!(name, "F12");
    assert_eq!(HotkeyPref::from_stored(bits, &name), q);
}

#[test]
fn bad_stored_values_give_the_default() {
    assert_eq!(HotkeyPref::from_stored(0x4000, "KeyA"), HotkeyPref::default());
    assert_eq!(HotkeyPref::from_stored(MOD_ALT, "NoSuchKey"), HotkeyPref::default());
    assert_eq!(HotkeyPref::from_stored(MOD_ALT, "F13"), HotkeyPref::default());
    assert_eq!(HotkeyPref::from_stored(MOD_ALT, "KeyA").code, KeyCode::Letter(0));
}

#[test]
fn names_and_labels() {
    assert_eq!(code_from_name("Backquote"), Some(KeyCode::Named(NamedKey::Backquote)));
    assert_eq!(code_from_name("keya"), None);
    assert_eq!(code_from_name("Digit7"), Some(KeyCode::Digit(7)));
    assert_eq!(code_from_name("F0"), None);
    assert_eq!(code_name(KeyCode::Digit(7)), "Digit7");
    assert_eq!(code_name(KeyCode::Letter(25)), "KeyZ");
    assert_eq!(code_display(KeyCode::Digit(7)), "7");
    assert_eq!(code_display(KeyCode::Named(NamedKey::Backslash)), "\\");
}

#[test]
fn modifier_flags_and_autostart_text() {
    use_flags();
    assert_eq!(
        lab_suite::prefs::autostart_entry("/opt/lab clip"),
        "[Desktop Entry]\nType=Application\nName=Lab Clip\nExec=\"/opt/lab clip\" --hidden\nTerminal=false\n"
    );
    assert_eq!(lab_suite::prefs::autostart_command("C:\\x.exe"), "\"C:\\x.exe\" --hidden");
}

fn use_flags() {
    assert_eq!(lab_suite::prefs::mods_from_flags(true, true, false, false, false), MOD_CONTROL | MOD_ALT);
    assert_eq!(lab_suite::prefs::mods_from_flags(false, false, true, false, true), MOD_SHIFT | MOD_SUPER);
    assert_eq!(lab_suite::prefs::mods_from_flags(false, false, false, false, false), 0);
}
