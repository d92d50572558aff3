//! The image viewer's decisions: which directory entries it steps through,
//! and how an export is rotated, scaled and encoded. Every export re-encodes
//! the picture, so no EXIF data survives it.
use vstd::prelude::*;
use crate::media::{is_image, is_video, has_ext_spec, image_exts, video_exts, ascii_lower, to_ascii_lower};
use crate::text::same_text;

verus! {

/// Size of a picture, read from its header, and of its file.
#[derive(Clone, Copy, PartialEq, Eq, Structural, Debug)]
pub struct ImageInfo {
    pub width: u32,
    pub height: u32,
    pub size_bytes: u64,
}

/// A directory entry the viewer steps through: a regular file whose name is
/// an image or a video.
pub open spec fn listed(name: Seq<char>, is_file: bool) -> bool {
    is_file && (has_ext_spec(name, image_exts()) || has_ext_spec(name, video_exts()))
}

/// The entries (file name and whether it is a regular file) that the
/// viewer steps through, in the order given.
pub open spec fn listed_spec(s: Seq<(Seq<char>, bool)>) -> Seq<Seq<char>>
    decreases s.len(),
{
    if s.len() == 0 {
        Seq::empty()
    } else if listed(s.last().0, s.last().1) {
        listed_spec(s.drop_last()).push(s.last().0)
    } else {
        listed_spec(s.drop_last())
    }
}

/// Keeps the entries the viewer steps through. The extension is checked
/// before the file type is asked for, so callers can look the type up
/// lazily; here both come in.
pub fn media_entries(entries: &Vec<(String, bool)>) -> (r: Vec<String>)
    ensures
        r@.map_values(|s: String| s@) == listed_spec(entries@.map_values(|e: (String, bool)| (e.0@, e.1))),
{
    let ghost all = entries@.map_values(|e: (String, bool)| (e.0@, e.1));
    let mut out: Vec<String> = Vec::new();
    let mut i: usize = 0;
    while i < entries.len()
        invariant
            i <= entries@.len(),
            all == entries@.map_values(|e: (String, bool)| (e.0@, e.1)),
            out@.map_values(|s: String| s@) == listed_spec(all.subrange(0, i as int)),
        decreases entries@.len() - i,
    {
        let name = &entries[i].0;
        let ghost before = out@;
        proof {
            assert(all.subrange(0, i as int + 1).drop_last() =~= all.subrange(0, i as int));
            assert(all.subrange(0, i as int + 1).last() == all[i as int]);
        }
        let media = is_image(name.as_str()) || is_video(name.as_str());
        if media && entries[i].1 {
            out.push(name.clone());
            proof {
                assert(out@.map_values(|s: String| s@) =~= before.map_values(|s: String| s@).push(name@));
            }
        }
        i = i + 1;
    }
    proof {
        assert(all.subrange(0, entries@.len() as int) =~= all);
    }
    out
}

/// How an export turns the picture.
#[derive(Clone, Copy, PartialEq, Eq, Structural, Debug)]
pub enum Rotation {
    Upright,
    Quarter,
    Half,
    ThreeQuarters,
}

/// The turn for `deg` degrees: multiples of 90 turn, anything else keeps
/// the picture as it is.
pub fn rotation_for(deg: u32) -> (r: Rotation)
    ensures
        r == (if deg % 360 == 90 {
            Rotation::Quarter
        } else if deg % 360 == 180 {
            Rotation::Half
        } else if deg % 360 == 270 {
            Rotation::ThreeQuarters
        } else {
            Rotation::Upright
        }),
{
    let d = deg % 360;
    if d == 90 {
        Rotation::Quarter
    } else if d == 180 {
        Rotation::Half
    } else if d == 270 {
        Rotation::ThreeQuarters
    } else {
        Rotation::Upright
    }
}

/// Whether a picture of `width` by `height` is scaled down to fit `max_side`:
/// only when its longer side exceeds it.
pub fn needs_scaling(width: u32, height: u32, max_side: Option<u32>) -> (r: bool)
    ensures
        r == match max_side {
            Some(m) => (if width >= height { width } else { height }) > m,
            None => false,
        },
{
    match max_side {
        Some(m) => {
            let longer = if width >= height { width } else { height };
            longer > m
        },
        None => false,
    }
}

/// The encoder an export uses.
#[derive(Clone, Copy, PartialEq, Eq, Structural, Debug)]
pub enum ExportFormat {
    Png,
    Jpeg,
}

/// The encoder for the target's extension: PNG for `png` in any ASCII case,
/// JPEG otherwise (a target without extension gets `.jpg`).
pub fn export_format(ext: Option<&str>) -> (r: ExportFormat)
    ensures
        r == match ext {
            Some(e) => if ascii_lower(e@) == "png"@ { ExportFormat::Png } else { ExportFormat::Jpeg },
            None => ExportFormat::Jpeg,
        },
{
    match ext {
        Some(e) => {
            let l = to_ascii_lower(e);
            if same_text(&l, "png") {
                ExportFormat::Png
            } else {
                ExportFormat::Jpeg
            }
        },
        None => ExportFormat::Jpeg,
    }
}

/// Where the viewer opens a folder: at the file it was started with when the
/// listing holds it, else at the first file; nowhere in an empty listing.
pub open spec fn start_spec(files: Seq<Seq<char>>, target: Option<Seq<char>>) -> Option<int> {
    if files.len() == 0 {
        None
    } else {
        match target {
            Some(t) => if exists|i: int| 0 <= i < files.len() && files[i] == t {
                Some(choose|i: int| 0 <= i < files.len() && files[i] == t && forall|j: int| 0 <= j < i ==> files[j] != t)
            } else {
                Some(0)
            },
            None => Some(0),
        }
    }
}

/// The position the viewer opens at (see `start_spec`).
pub fn start_position(files: &Vec<String>, target: Option<&str>) -> (r: Option<usize>)
    ensures
        match r {
            Some(i) => start_spec(files@.map_values(|f: String| f@), match target { Some(t) => Some(t@), None => None }) == Some(i as int),
            None => start_spec(files@.map_values(|f: String| f@), match target { Some(t) => Some(t@), None => None }) is None,
        },
{
    let ghost fv = files@.map_values(|f: String| f@);
    if files.len() == 0 {
        return None;
    }
    match target {
        None => Some(0),
        Some(t) => {
            let mut i: usize = 0;
            while i < files.len()
                invariant
                    i <= files@.len(),
                    fv == files@.map_values(|f: String| f@),
                    target == Some(t),
                    forall|j: int| 0 <= j < i ==> fv[j] != t@,
                decreases files@.len() - i,
            {
                if same_text(&files[i], t) {
                    proof {
                        let k = i as int;
                        assert(0 <= k < fv.len() && fv[k] == t@);
                        assert(0 <= k < fv.len() && fv[k] == t@ && forall|j: int| 0 <= j < k ==> fv[j] != t@);
                        let c = choose|c: int| 0 <= c < fv.len() && fv[c] == t@ && forall|j: int| 0 <= j < c ==> fv[j] != t@;
                        assert(0 <= c < fv.len() && fv[c] == t@ && forall|j: int| 0 <= j < c ==> fv[j] != t@);
                        if c < k {
                            assert(fv[c] != t@);
                        } else if c > k {
                            assert(fv[k] != t@);
                        }
                        assert(c == k);
                    }
                    return Some(i);
                }
                i = i + 1;
            }
            Some(0)
        },
    }
}

} // verus!
