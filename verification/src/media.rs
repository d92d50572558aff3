//! File kinds by extension: the images and videos the viewer steps through,
//! the media the player takes. The extension is compared without regard to
//! ASCII case.
use vstd::prelude::*;
use crate::text::{push_char, same_text, str_chars};

verus! {

/// `c` with an ASCII capital letter mapped to its small letter.
pub open spec fn lower_char(c: char) -> char {
    if 'A' <= c <= 'Z' { (((c as u32) + 32) as u8) as char } else { c }
}

/// `s` with ASCII capitals made small (`str::to_ascii_lowercase`).
pub open spec fn ascii_lower(s: Seq<char>) -> Seq<char> {
    s.map_values(|c: char| lower_char(c))
}

/// `s` with ASCII capitals made small; other chars unchanged.
pub fn to_ascii_lower(s: &str) -> (r: String)
    ensures
        r@ == ascii_lower(s@),
{
    let v = str_chars(s);
    let mut out = String::new();
    let mut i: usize = 0;
    while i < v.len()
        invariant
            i <= v.len(),
            v@ == s@,
            out@ == ascii_lower(s@.subrange(0, i as int)),
        decreases v.len() - i,
    {
        let c = v[i];
        let l = if 'A' <= c && c <= 'Z' { (((c as u32) + 32) as u8) as char } else { c };
        push_char(&mut out, l);
        proof {
            assert(ascii_lower(s@.subrange(0, i as int + 1)) =~= ascii_lower(s@.subrange(0, i as int)).push(lower_char(c)));
        }
        i = i + 1;
    }
    proof {
        assert(s@.subrange(0, v.len() as int) =~= s@);
    }
    out
}

/// `i` is the position of the last `.` of `name`.
pub open spec fn last_dot(name: Seq<char>, i: int) -> bool {
    &&& 0 <= i < name.len()
    &&& name[i] == '.'
    &&& forall|j: int| i < j < name.len() ==> #[trigger] name[j] != '.'
}

/// The extension of a file name, as `Path::extension` gives it: the chars
/// after the last `.`; none when there is no `.` or the only one starts the
/// name.
pub open spec fn extension_of(name: Seq<char>) -> Option<Seq<char>> {
    if exists|i: int| last_dot(name, i) && i > 0 {
        let i = choose|i: int| last_dot(name, i) && i > 0;
        Some(name.subrange(i + 1, name.len() as int))
    } else {
        None
    }
}

/// The extension of a file name (see `extension_of`).
pub fn file_extension(name: &str) -> (r: Option<String>)
    ensures
        match r {
            Some(e) => extension_of(name@) == Some(e@),
            None => extension_of(name@) is None,
        },
{
    let v = str_chars(name);
    let n = v.len();
    let mut i: usize = n;
    while i > 0 && v[i - 1] != '.'
        invariant
            i <= n,
            n == v@.len(),
            v@ == name@,
            forall|j: int| i <= j < n ==> #[trigger] v@[j] != '.',
        decreases i,
    {
        i = i - 1;
    }
    if i <= 1 {
        proof {
            if exists|k: int| last_dot(name@, k) && k > 0 {
                let k = choose|k: int| last_dot(name@, k) && k > 0;
                if i == 1 {
                    assert(name@[0] == '.');
                    assert(k >= 1);
                }
                assert(name@[k] == '.');
            }
        }
        return None;
    }
    let d = i - 1;
    let mut out = String::new();
    let mut k: usize = i;
    while k < n
        invariant
            i <= k <= n,
            n == v@.len(),
            v@ == name@,
            out@ == name@.subrange(i as int, k as int),
        decreases n - k,
    {
        push_char(&mut out, v[k]);
        proof {
            assert(name@.subrange(i as int, k as int + 1) =~= name@.subrange(i as int, k as int).push(name@[k as int]));
        }
        k = k + 1;
    }
    proof {
        assert(last_dot(name@, d as int));
        let c = choose|c: int| last_dot(name@, c) && c > 0;
        if c < d {
            assert(name@[d as int] != '.');
        } else if c > d {
            assert(name@[c] != '.');
        }
    }
    Some(out)
}

/// Extensions of the images the viewer opens.
pub open spec fn image_exts() -> Seq<Seq<char>> {
    seq!["png"@, "jpg"@, "jpeg"@, "webp"@, "gif"@, "bmp"@, "tif"@, "tiff"@, "ico"@, "avif"@]
}

/// Extensions of the videos the viewer lists (and hands to the system).
pub open spec fn video_exts() -> Seq<Seq<char>> {
    seq!["mp4"@, "mov"@, "mkv"@, "webm"@, "avi"@, "m4v"@, "wmv"@, "flv"@, "mpg"@, "mpeg"@, "m2ts"@, "ts"@]
}

/// Extensions of the media the player takes.
pub open spec fn media_exts() -> Seq<Seq<char>> {
    seq!["mp4"@, "mkv"@, "webm"@, "mov"@, "avi"@, "m4v"@, "wmv"@, "mp3"@, "flac"@, "ogg"@, "wav"@, "m4a"@, "opus"@]
}

/// The file name's extension, in ASCII small letters, is one of `exts`.
pub open spec fn has_ext_spec(name: Seq<char>, exts: Seq<Seq<char>>) -> bool {
    match extension_of(name) {
        Some(e) => exts.contains(ascii_lower(e)),
        None => false,
    }
}

fn one_of(e: &String, exts: &Vec<&'static str>) -> (r: bool)
    ensures
        r == exts@.map_values(|x: &'static str| x@).contains(e@),
{
    let ghost m = exts@.map_values(|x: &'static str| x@);
    let mut i: usize = 0;
    while i < exts.len()
        invariant
            i <= exts@.len(),
            m == exts@.map_values(|x: &'static str| x@),
            forall|j: int| 0 <= j < i ==> m[j] != e@,
        decreases exts@.len() - i,
    {
        if same_text(e, exts[i]) {
            proof {
                assert(m[i as int] == e@);
            }
            return true;
        }
        i = i + 1;
    }
    false
}

fn has_ext(name: &str, exts: &Vec<&'static str>) -> (r: bool)
    ensures
        r == has_ext_spec(name@, exts@.map_values(|x: &'static str| x@)),
{
    match file_extension(name) {
        Some(e) => {
            let l = to_ascii_lower(e.as_str());
            one_of(&l, exts)
        },
        None => false,
    }
}

/// Whether the file name is an image the viewer opens.
pub fn is_image(name: &str) -> (r: bool)
    ensures
        r == has_ext_spec(name@, image_exts()),
{
    let exts = vec!["png", "jpg", "jpeg", "webp", "gif", "bmp", "tif", "tiff", "ico", "avif"];
    proof {
        assert(exts@.map_values(|x: &'static str| x@) =~= image_exts());
    }
    has_ext(name, &exts)
}

/// Whether the file name is a video the viewer lists.
pub fn is_video(name: &str) -> (r: bool)
    ensures
        r == has_ext_spec(name@, video_exts()),
{
    let exts = vec!["mp4", "mov", "mkv", "webm", "avi", "m4v", "wmv", "flv", "mpg", "mpeg", "m2ts", "ts"];
    proof {
        assert(exts@.map_values(|x: &'static str| x@) =~= video_exts());
    }
    has_ext(name, &exts)
}

/// Whether the file name is media the player takes.
pub fn is_media(name: &str) -> (r: bool)
    ensures
        r == has_ext_spec(name@, media_exts()),
{
    let exts = vec!["mp4", "mkv", "webm", "mov", "avi", "m4v", "wmv", "mp3", "flac", "ogg", "wav", "m4a", "opus"];
    proof {
        assert(exts@.map_values(|x: &'static str| x@) =~= media_exts());
    }
    has_ext(name, &exts)
}

} // verus!
