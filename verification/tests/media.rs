use lab_suite::img::start_position;
use lab_suite::player::{next_index, prev_index};
use lab_suite::img::{export_format, media_entries, needs_scaling, rotation_for, ExportFormat, ImageInfo, Rotation};
use lab_suite::media::{file_extension, is_image, is_media, is_video, to_ascii_lower};

#[test]
fn extensions_follow_path_rules() {
    assert_eq!(file_extension("a.tar.gz").as_deref(), Some("gz"));
    assert_eq!(file_extension(".bashrc"), None);
    assert_eq!(file_extension("noext"), None);
    assert_eq!(file_extension("trail.").as_deref(), Some(""));
    assert_eq!(file_extension(".a.b").as_deref(), Some("b"));
}

#[test]
fn kinds_ignore_ascii_case() {
    assert!(is_image("B.JPG"));
    assert!(is_image("a.png"));
    assert!(!is_image("nota.txt"));
    assert!(is_video("filme.MP4"));
    assert!(!is_video("a.png"));
    assert!(is_media("song.FLAC"));
    assert!(!is_media("x.gif"));
    assert_eq!(to_ascii_lower("ÁbC"), "Ábc");
}

#[test]
fn directory_listing_keeps_media_files() {
    let entries = vec![
        ("B.JPG".to_string(), true),
        ("a.png".to_string(), true),
        ("nota.txt".to_string(), true),
        ("filme.MP4".to_string(), true),
        ("pasta.png".to_string(), false),
    ];
    assert_eq!(media_entries(&entries), vec!["B.JPG", "a.png", "filme.MP4"]);
}

#[test]
fn export_decisions() {
    assert_eq!(rotation_for(90), Rotation::Quarter);
    assert_eq!(rotation_for(450), Rotation::Quarter);
    assert_eq!(rotation_for(180), Rotation::Half);
    assert_eq!(rotation_for(270), Rotation::ThreeQuarters);
    assert_eq!(rotation_for(45), Rotation::Upright);
    assert!(needs_scaling(2000, 1000, Some(500)));
    assert!(!needs_scaling(500, 200, Some(500)));
    assert!(!needs_scaling(5000, 5000, None));
    assert_eq!(export_format(Some("PNG")), ExportFormat::Png);
    assert_eq!(export_format(Some("jpeg")), ExportFormat::Jpeg);
    assert_eq!(export_format(None), ExportFormat::Jpeg);
    let i = ImageInfo { width: 1, height: 2, size_bytes: 3 };
    assert_eq!(i, ImageInfo { width: 1, height: 2, size_bytes: 3 });
}

#[test]
fn listing_is_case_insensitive_and_stable() {
    let entries = vec![
        ("B.JPG".to_string(), true),
        ("a.png".to_string(), true),
        ("nota.txt".to_string(), true),
        ("filme.MP4".to_string(), true),
    ];
    let names = media_entries(&entries);
    let order = lab_suite::order::order_by_lowercase(&names);
    let sorted: Vec<&str> = order.iter().map(|&i| names[i].as_str()).collect();
    assert_eq!(sorted, vec!["a.png", "B.JPG", "filme.MP4"]);
    let same = vec!["b".to_string(), "A".to_string(), "a".to_string(), "B".to_string()];
    assert_eq!(lab_suite::order::order_by_lowercase(&same), vec![1, 2, 0, 3]);
}

#[test]
fn viewer_navigation() {
    let files = vec!["/a.png".to_string(), "/b.png".to_string(), "/b.png".to_string()];
    assert_eq!(start_position(&files, Some("/b.png")), Some(1));
    assert_eq!(start_position(&files, Some("/z.png")), Some(0));
    assert_eq!(start_position(&files, None), Some(0));
    assert_eq!(start_position(&vec![], Some("/a.png")), None);
    assert_eq!(prev_index(Some(0)), None);
    assert_eq!(prev_index(Some(2)), Some(1));
    assert_eq!(next_index(Some(1), files.len()), Some(2));
}

#[test]
fn ascii_names_order_ignores_case_and_keeps_ties_stable() {
    let names: Vec<String> = vec!["b.MKV".into(), "A.mkv".into(), "a.MKV".into(), "B.mkv".into(), "_x".into()];
    assert_eq!(lab_suite::order::order_by_lowercase(&names), vec![4, 1, 2, 0, 3]);
}

#[test]
fn text_order_is_by_code_point() {
    let names: Vec<String> = vec!["b".into(), "B".into(), "a".into(), "ab".into(), "a".into()];
    assert_eq!(lab_suite::order::order_by_text(&names), vec![1, 2, 4, 3, 0]);
}
