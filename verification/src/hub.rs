//! The hub's catalog and the text it builds: release asset URLs, icon file
//! names, file names inside release archives, desktop entries, and the tag
//! of the latest release as the releases API reports it.
use vstd::prelude::*;
use crate::json::{Json, JsonV, get, as_str, get_str};
use crate::text::{owned, push_char, push_str, str_chars, same_text};
use crate::i18n::{t, text_spec, Key, Lang};

verus! {

/// One app of the suite.
pub struct AppDef {
    /// Crate and binary name; also the id of its folder, icon and assets.
    pub id: &'static str,
    /// Display name.
    pub display: &'static str,
    /// Release asset for Windows.
    pub win_asset: &'static str,
    /// Release asset for Linux.
    pub linux_asset: &'static str,
    /// The app's icon (.ico).
    pub icon_ico_url: &'static str,
    /// The app's icon (.png, 128 px).
    pub icon_png_url: &'static str,
}

/// What the hub records of an installed app.
pub struct InstalledApp {
    /// Tag of the installed release ("v0.2.2").
    pub version: String,
    /// Full path of the executable or AppImage.
    pub exe: String,
}

/// The repository whose releases carry every app.
pub const REPO: &'static str = "Anon5T4R/egui-lab";

/// An app of the catalog as plain values: id, display name, Windows asset,
/// Linux asset, .ico URL, .png URL.
pub type AppV = (Seq<char>, Seq<char>, Seq<char>, Seq<char>, Seq<char>, Seq<char>);

pub open spec fn app_v(a: AppDef) -> AppV {
    (a.id@, a.display@, a.win_asset@, a.linux_asset@, a.icon_ico_url@, a.icon_png_url@)
}

/// The catalog: one release tag serves every app.
pub open spec fn catalog_spec() -> Seq<AppV> {
    seq![
        ("lab-monitor"@, "Lab Monitor"@, "lab-monitor-windows-x64.zip"@, "Lab_Monitor-x86_64.AppImage"@,
            "https://raw.githubusercontent.com/Anon5T4R/LocalMonitor/main/src-tauri/icons/icon.ico"@,
            "https://raw.githubusercontent.com/Anon5T4R/LocalMonitor/main/src-tauri/icons/128x128.png"@),
        ("lab-calc"@, "Lab Calc"@, "lab-calc-windows-x64.zip"@, "Lab_Calc-x86_64.AppImage"@,
            "https://raw.githubusercontent.com/Anon5T4R/LocalCalc/main/src-tauri/icons/icon.ico"@,
            "https://raw.githubusercontent.com/Anon5T4R/LocalCalc/main/src-tauri/icons/128x128.png"@),
        ("lab-clip"@, "Lab Clip"@, "lab-clip-windows-x64.zip"@, "Lab_Clip-x86_64.AppImage"@,
            "https://raw.githubusercontent.com/Anon5T4R/LocalClip/main/src-tauri/icons/icon.ico"@,
            "https://raw.githubusercontent.com/Anon5T4R/LocalClip/main/src-tauri/icons/128x128.png"@),
        ("lab-keys"@, "Lab Keys"@, "lab-keys-windows-x64.zip"@, "Lab_Keys-x86_64.AppImage"@,
            "https://raw.githubusercontent.com/Anon5T4R/LocalKeys/main/src-tauri/icons/icon.ico"@,
            "https://raw.githubusercontent.com/Anon5T4R/LocalKeys/main/src-tauri/icons/128x128.png"@),
    ]
}

/// The catalog of installable apps.
pub fn apps() -> (r: Vec<AppDef>)
    ensures
        r@.map_values(|a: AppDef| app_v(a)) == catalog_spec(),
{
    let r = vec![
        AppDef {
            id: "lab-monitor",
            display: "Lab Monitor",
            win_asset: "lab-monitor-windows-x64.zip",
            linux_asset: "Lab_Monitor-x86_64.AppImage",
            icon_ico_url: "https://raw.githubusercontent.com/Anon5T4R/LocalMonitor/main/src-tauri/icons/icon.ico",
            icon_png_url: "https://raw.githubusercontent.com/Anon5T4R/LocalMonitor/main/src-tauri/icons/128x128.png",
        },
        AppDef {
            id: "lab-calc",
            display: "Lab Calc",
            win_asset: "lab-calc-windows-x64.zip",
            linux_asset: "Lab_Calc-x86_64.AppImage",
            icon_ico_url: "https://raw.githubusercontent.com/Anon5T4R/LocalCalc/main/src-tauri/icons/icon.ico",
            icon_png_url: "https://raw.githubusercontent.com/Anon5T4R/LocalCalc/main/src-tauri/icons/128x128.png",
        },
        AppDef {
            id: "lab-clip",
            display: "Lab Clip",
            win_asset: "lab-clip-windows-x64.zip",
            linux_asset: "Lab_Clip-x86_64.AppImage",
            icon_ico_url: "https://raw.githubusercontent.com/Anon5T4R/LocalClip/main/src-tauri/icons/icon.ico",
            icon_png_url: "https://raw.githubusercontent.com/Anon5T4R/LocalClip/main/src-tauri/icons/128x128.png",
        },
        AppDef {
            id: "lab-keys",
            display: "Lab Keys",
            win_asset: "lab-keys-windows-x64.zip",
            linux_asset: "Lab_Keys-x86_64.AppImage",
            icon_ico_url: "https://raw.githubusercontent.com/Anon5T4R/LocalKeys/main/src-tauri/icons/icon.ico",
            icon_png_url: "https://raw.githubusercontent.com/Anon5T4R/LocalKeys/main/src-tauri/icons/128x128.png",
        },
    ];
    proof {
        assert(r@.map_values(|a: AppDef| app_v(a)) =~= catalog_spec());
    }
    r
}

impl AppDef {
    /// The release asset of the platform (`windows` or Linux).
    pub fn asset(&self, windows: bool) -> (r: &'static str)
        ensures
            r@ == (if windows { self.win_asset@ } else { self.linux_asset@ }),
    {
        if windows {
            self.win_asset
        } else {
            self.linux_asset
        }
    }
}

/// The download URL of a release asset.
pub open spec fn asset_url_spec(tag: Seq<char>, asset: Seq<char>) -> Seq<char> {
    "https://github.com/"@ + REPO@ + "/releases/download/"@ + tag + "/"@ + asset
}

/// The download URL of a release asset:
/// `https://github.com/{REPO}/releases/download/{tag}/{asset}`.
pub fn asset_url(tag: &str, asset: &str) -> (r: String)
    ensures
        r@ == asset_url_spec(tag@, asset@),
{
    let mut s = owned("https://github.com/");
    push_str(&mut s, REPO);
    push_str(&mut s, "/releases/download/");
    push_str(&mut s, tag);
    push_str(&mut s, "/");
    push_str(&mut s, asset);
    s
}

/// The file name of an app's icon: `.ico` on Windows, `.png` elsewhere.
pub fn icon_file_name(id: &str, windows: bool) -> (r: String)
    ensures
        r@ == id@ + (if windows { ".ico"@ } else { ".png"@ }),
{
    let mut s = owned(id);
    if windows {
        push_str(&mut s, ".ico");
    } else {
        push_str(&mut s, ".png");
    }
    s
}

/// `name` with every backslash turned into a slash.
pub open spec fn slashed(name: Seq<char>) -> Seq<char> {
    name.map_values(|c: char| if c == '\\' { '/' } else { c })
}

/// The chars after the last `/` of `s` (all of `s` when it has none).
pub open spec fn last_segment(s: Seq<char>) -> Seq<char>
    decreases s.len(),
{
    if s.len() == 0 {
        s
    } else if s.last() == '/' {
        Seq::empty()
    } else {
        last_segment(s.drop_last()).push(s.last())
    }
}

/// The file name an archive entry is written under: its last path segment,
/// with `\` and `/` both taken as separators (an entry cannot escape the
/// target folder).
pub fn entry_file_name(name: &str) -> (r: String)
    ensures
        r@ == last_segment(slashed(name@)),
{
    let v = str_chars(name);
    let ghost s = slashed(name@);
    let mut start: usize = 0;
    let mut i: usize = 0;
    while i < v.len()
        invariant
            i <= v.len(),
            v@ == name@,
            s == slashed(name@),
            start <= i,
            s.len() == v@.len(),
            last_segment(s.subrange(0, i as int)) == s.subrange(start as int, i as int),
            forall|j: int| start <= j < i ==> v@[j] != '/' && v@[j] != '\\',
        decreases v.len() - i,
    {
        let c = v[i];
        proof {
            assert(s.subrange(0, i as int + 1).drop_last() =~= s.subrange(0, i as int));
            assert(s[i as int] == (if c == '\\' { '/' } else { c }));
        }
        if c == '/' || c == '\\' {
            start = i + 1;
            proof {
                assert(s.subrange(start as int, i as int + 1) =~= Seq::<char>::empty());
            }
        } else {
            proof {
                assert(s.subrange(start as int, i as int + 1) =~= s.subrange(start as int, i as int).push(c));
            }
        }
        i = i + 1;
    }
    proof {
        assert(s.subrange(0, v.len() as int) =~= s);
    }
    let mut out = String::new();
    let mut k: usize = start;
    while k < v.len()
        invariant
            start <= k <= v.len(),
            v@ == name@,
            s == slashed(name@),
            last_segment(s) == s.subrange(start as int, v.len() as int),
            forall|j: int| start <= j < v.len() ==> s[j] == v@[j],
            out@ == v@.subrange(start as int, k as int),
        decreases v.len() - k,
    {
        push_char(&mut out, v[k]);
        proof {
            assert(v@.subrange(start as int, k as int + 1) =~= v@.subrange(start as int, k as int).push(v@[k as int]));
        }
        k = k + 1;
    }
    proof {
        assert(out@ =~= s.subrange(start as int, v.len() as int));
    }
    out
}

/// Whether a file name ends with `.exe`.
pub fn is_exe(file_name: &str) -> (r: bool)
    ensures
        r == (file_name@.len() >= 4 && file_name@.subrange(file_name@.len() - 4, file_name@.len() as int) == ".exe"@),
{
    let v = str_chars(file_name);
    proof {
        reveal_strlit(".exe");
    }
    let n = v.len();
    if n < 4 {
        return false;
    }
    let r = v[n - 4] == '.' && v[n - 3] == 'e' && v[n - 2] == 'x' && v[n - 1] == 'e';
    proof {
        if r {
            assert(file_name@.subrange(n - 4, n as int) =~= ".exe"@);
        } else {
            if file_name@.subrange(n - 4, n as int) == ".exe"@ {
                assert(file_name@.subrange(n - 4, n as int)[0] == '.');
                assert(file_name@.subrange(n - 4, n as int)[1] == 'e');
                assert(file_name@.subrange(n - 4, n as int)[2] == 'x');
                assert(file_name@.subrange(n - 4, n as int)[3] == 'e');
            }
        }
    }
    r
}

/// What the releases API answer gives as the latest tag.
pub open spec fn tag_name_spec(release: JsonV) -> Result<Seq<char>, Seq<char>> {
    match as_str(get(release, "tag_name"@)) {
        Some(t) => Ok(t),
        None => Err("release sem tag_name"@),
    }
}

/// The latest release's tag from the releases API answer: its `tag_name`
/// string, or an error when it has none.
pub fn tag_name(release: &Json) -> (r: Result<String, String>)
    ensures
        match r {
            Ok(t) => tag_name_spec(release@) == Ok::<Seq<char>, Seq<char>>(t@),
            Err(e) => tag_name_spec(release@) == Err::<Seq<char>, Seq<char>>(e@),
        },
{
    match get_str(release, "tag_name") {
        Some(t) => Ok(t.clone()),
        None => Err(owned("release sem tag_name")),
    }
}

/// Where a shortcut goes.
#[derive(Clone, Copy, PartialEq, Eq, Structural, Debug)]
pub enum Where {
    StartMenu,
    Desktop,
}

/// The desktop entry (Linux) that launches an app.
pub open spec fn desktop_entry_spec(display: Seq<char>, exe: Seq<char>, icon: Seq<char>) -> Seq<char> {
    "[Desktop Entry]\nType=Application\nName="@ + display + "\nExec="@ + exe + "\nIcon="@ + icon
        + "\nCategories=Utility;\nTerminal=false\n"@
}

/// The desktop entry (Linux) that launches an app.
pub fn desktop_entry(display: &str, exe: &str, icon: &str) -> (r: String)
    ensures
        r@ == desktop_entry_spec(display@, exe@, icon@),
{
    let mut s = owned("[Desktop Entry]\nType=Application\nName=");
    push_str(&mut s, display);
    push_str(&mut s, "\nExec=");
    push_str(&mut s, exe);
    push_str(&mut s, "\nIcon=");
    push_str(&mut s, icon);
    push_str(&mut s, "\nCategories=Utility;\nTerminal=false\n");
    s
}

/// The file name of a shortcut: `{display}.lnk` on Windows, `{id}.desktop`
/// elsewhere.
pub fn shortcut_file_name(id: &str, display: &str, windows: bool) -> (r: String)
    ensures
        r@ == (if windows { display@ + ".lnk"@ } else { id@ + ".desktop"@ }),
{
    if windows {
        let mut s = owned(display);
        push_str(&mut s, ".lnk");
        s
    } else {
        let mut s = owned(id);
        push_str(&mut s, ".desktop");
        s
    }
}

/// The line under an app's name: what is installed and whether the latest
/// release is newer; the flag tells that an update is available.
pub open spec fn status_spec(lang: Lang, installed: Option<Seq<char>>, latest: Option<Seq<char>>) -> (Seq<char>, bool) {
    match (installed, latest) {
        (Some(v), Some(l)) => if v == l {
            (text_spec(lang, Key::Installed) + " "@ + v + " · "@ + text_spec(lang, Key::UpToDate), false)
        } else {
            (text_spec(lang, Key::Installed) + " "@ + v + " · "@ + text_spec(lang, Key::Available) + " "@ + l, true)
        },
        (Some(v), None) => (text_spec(lang, Key::Installed) + " "@ + v, false),
        (None, _) => (text_spec(lang, Key::NotInstalled), false),
    }
}

/// The status line of an app (see `status_spec`).
pub fn status_line(lang: Lang, installed: Option<&str>, latest: Option<&str>) -> (r: (String, bool))
    ensures
        (r.0@, r.1) == status_spec(lang, match installed { Some(v) => Some(v@), None => None }, match latest {
            Some(l) => Some(l@),
            None => None,
        }),
{
    match installed {
        None => (owned(t(lang, Key::NotInstalled)), false),
        Some(v) => {
            let mut s = owned(t(lang, Key::Installed));
            push_str(&mut s, " ");
            push_str(&mut s, v);
            match latest {
                None => (s, false),
                Some(l) => {
                    let vs = owned(v);
                    if same_text(&vs, l) {
                        push_str(&mut s, " · ");
                        push_str(&mut s, t(lang, Key::UpToDate));
                        (s, false)
                    } else {
                        push_str(&mut s, " · ");
                        push_str(&mut s, t(lang, Key::Available));
                        push_str(&mut s, " ");
                        push_str(&mut s, l);
                        (s, true)
                    }
                },
            }
        },
    }
}

/// The install button: "Update" for an installed app, "Install" otherwise;
/// it is enabled when no installation is running and the latest tag is known.
pub fn install_button(lang: Lang, installed: bool, busy: bool, latest_known: bool) -> (r: (&'static str, bool))
    ensures
        r.0@ == text_spec(lang, if installed { Key::Update } else { Key::Install }),
        r.1 == (!busy && latest_known),
{
    let label = if installed { t(lang, Key::Update) } else { t(lang, Key::Install) };
    (label, !busy && latest_known)
}

} // verus!
