use lab_suite::player::{
    fmt_hms, mpv_status, next_index, position_of, remember, MpvStatus, Playlist, Resume, RESUME_CAP,
};

#[test]
fn positions_read_as_clock_times() {
    assert_eq!(fmt_hms(0), "00:00");
    assert_eq!(fmt_hms(65), "01:05");
    assert_eq!(fmt_hms(3599), "59:59");
    assert_eq!(fmt_hms(3600), "1:00:00");
    assert_eq!(fmt_hms(36061), "10:01:01");
}

#[test]
fn next_track() {
    let pl = Playlist { files: vec!["a".into(), "b".into()] };
    assert_eq!(next_index(Some(0), pl.files.len()), Some(1));
    assert_eq!(next_index(Some(1), pl.files.len()), None);
    assert_eq!(next_index(None, pl.files.len()), None);
}

#[test]
fn mpv_setup_status() {
    assert!(matches!(mpv_status(true, true), MpvStatus::Ready));
    match mpv_status(true, false) {
        MpvStatus::NeedsDownload(m) => assert_eq!(m, "mpv não encontrado. Será baixado automaticamente (~80 MB)."),
        _ => panic!("expected a download"),
    }
    match mpv_status(false, false) {
        MpvStatus::Error(m) => assert!(m.starts_with("mpv não está no PATH")),
        _ => panic!("expected an error"),
    }
}

fn obj(fields: Vec<(&str, lab_suite::json::Json)>) -> lab_suite::json::Json {
    lab_suite::json::Json::Obj(fields.into_iter().map(|(k, v)| (k.to_string(), v)).collect())
}

fn s(t: &str) -> lab_suite::json::Json {
    lab_suite::json::Json::Str(t.to_string())
}

#[test]
fn mpv_messages_become_events() {
    use_events();
}

fn use_events() {
    let time = obj(vec![("event", s("property-change")), ("name", s("time-pos")), ("data", lab_suite::json::Json::Num("12.5".into()))]);
    assert!(matches!(lab_suite::player::parse_event(&time), Some(lab_suite::player::MpvEvent::TimePos(t)) if t == "12.5"));
    let dur = obj(vec![("event", s("property-change")), ("name", s("duration")), ("data", lab_suite::json::Json::Num("300".into()))]);
    assert!(matches!(lab_suite::player::parse_event(&dur), Some(lab_suite::player::MpvEvent::Duration(t)) if t == "300"));
    let null_data = obj(vec![("event", s("property-change")), ("name", s("time-pos")), ("data", lab_suite::json::Json::Null)]);
    assert!(lab_suite::player::parse_event(&null_data).is_none());
    assert!(matches!(lab_suite::player::parse_event(&obj(vec![("event", s("end-file"))])), Some(lab_suite::player::MpvEvent::EndFile)));
    assert!(lab_suite::player::parse_event(&obj(vec![("event", s("idle"))])).is_none());
}

#[test]
fn ipc_lines_and_arguments() {
    assert_eq!(lab_suite::player::observe_command("time-pos"), r#"{"command":["observe_property",0,"time-pos"]}"#);
    assert_eq!(lab_suite::player::pause_command(true), r#"{"command":["set_property","pause",true]}"#);
    assert_eq!(lab_suite::player::seek_command("-10", false), r#"{"command":["seek",-10,"relative"]}"#);
    assert_eq!(lab_suite::player::volume_command("80"), r#"{"command":["set_property","volume",80]}"#);
    let args = lab_suite::player::mpv_args("/tmp/s", "80", Some("42"), "/m/a.mkv");
    assert_eq!(
        args,
        vec!["--input-ipc-server=/tmp/s", "--volume=80", "--force-window=yes", "--keep-open=always", "--start=42", "/m/a.mkv"]
    );
    assert_eq!(lab_suite::player::mpv_args("a", "1", None, "p").len(), 5);
}

#[test]
fn complete_lines_are_taken_out_of_the_buffer() {
    let mut buf = b"{\"a\":1}\n{\"b\":2}\n{\"c\"".to_vec();
    let lines = lab_suite::player::take_lines(&mut buf);
    assert_eq!(lines, vec![b"{\"a\":1}\n".to_vec(), b"{\"b\":2}\n".to_vec()]);
    assert_eq!(buf, b"{\"c\"".to_vec());
    buf.extend_from_slice(b":3}\n");
    assert_eq!(lab_suite::player::take_lines(&mut buf), vec![b"{\"c\":3}\n".to_vec()]);
    assert!(buf.is_empty());
    let mut none = b"partial".to_vec();
    assert!(lab_suite::player::take_lines(&mut none).is_empty());
    assert_eq!(none, b"partial".to_vec());
}

#[test]
fn lembra_e_limita() {
    let mut r = Resume::default();
    remember(&mut r, "/a.mkv", 12.5f64.to_bits());
    assert_eq!(position_of(&r, "/a.mkv").map(f64::from_bits), Some(12.5));
    for i in 0..250 {
        remember(&mut r, &format!("/m{i}.mkv"), (i as f64).to_bits());
    }
    assert!(r.positions.len() <= 200);
}

#[test]
fn resume_evicts_the_least_recently_recorded() {
    let mut r = Resume::default();
    for i in 0..RESUME_CAP {
        remember(&mut r, &format!("/m{i}.mkv"), i as u64);
    }
    remember(&mut r, "/m0.mkv", 1000);
    remember(&mut r, "/novo.mkv", 7);
    assert_eq!(r.positions.len(), RESUME_CAP);
    assert_eq!(position_of(&r, "/m0.mkv"), Some(1000));
    assert_eq!(position_of(&r, "/m1.mkv"), None);
    assert_eq!(position_of(&r, "/m2.mkv"), Some(2));
    assert_eq!(position_of(&r, "/novo.mkv"), Some(7));
    assert_eq!(r.positions[RESUME_CAP - 1].0, "/novo.mkv");
}

#[test]
fn resume_rerecording_keeps_one_entry() {
    let mut r = Resume::default();
    remember(&mut r, "/a.mkv", 1);
    remember(&mut r, "/b.mkv", 2);
    remember(&mut r, "/a.mkv", 3);
    assert_eq!(r.positions.len(), 2);
    assert_eq!(r.positions[0].0, "/b.mkv");
    assert_eq!(position_of(&r, "/a.mkv"), Some(3));
    assert_eq!(position_of(&r, "/c.mkv"), None);
}
