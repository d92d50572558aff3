//! The player's decisions: whether mpv is ready, which track plays next, and
//! how a position reads on screen.
use vstd::prelude::*;
use crate::text::{owned, nat_text, u64_text, push_str, push_char, same_text};
use crate::json::{Json, JsonV, get, as_str, get_field, get_str};

verus! {

/// Where the mpv setup stands.
pub enum MpvStatus {
    /// mpv is ready.
    Ready,
    /// mpv has to be downloaded; the message is for the interface.
    NeedsDownload(String),
    /// Nothing to be done here (Linux without mpv on the PATH).
    Error(String),
}

/// The status of the mpv setup: on Windows a portable copy is downloaded
/// when missing; elsewhere mpv comes from the PATH or is an error.
pub fn mpv_status(windows: bool, available: bool) -> (r: MpvStatus)
    ensures
        available ==> r is Ready,
        !available && windows ==> (r matches MpvStatus::NeedsDownload(m) && m@
            == "mpv não encontrado. Será baixado automaticamente (~80 MB)."@),
        !available && !windows ==> (r matches MpvStatus::Error(m) && m@
            == "mpv não está no PATH — instale (ex.: sudo apt install mpv)"@),
{
    if available {
        MpvStatus::Ready
    } else if windows {
        MpvStatus::NeedsDownload(owned("mpv não encontrado. Será baixado automaticamente (~80 MB)."))
    } else {
        MpvStatus::Error(owned("mpv não está no PATH — instale (ex.: sudo apt install mpv)"))
    }
}

/// The session's playlist.
pub struct Playlist {
    pub files: Vec<String>,
}

/// The track after the current one, if the playlist has one.
pub fn next_index(current: Option<usize>, len: usize) -> (r: Option<usize>)
    ensures
        r == match current {
            Some(i) => if i + 1 < len { Some((i + 1) as usize) } else { None::<usize> },
            None => None::<usize>,
        },
{
    match current {
        Some(i) => if i < len && i + 1 < len { Some(i + 1) } else { None },
        None => None,
    }
}

/// The item before the current one, if there is one.
pub fn prev_index(current: Option<usize>) -> (r: Option<usize>)
    ensures
        r == match current {
            Some(i) => if i > 0 { Some((i - 1) as usize) } else { None::<usize> },
            None => None::<usize>,
        },
{
    match current {
        Some(i) => if i > 0 { Some(i - 1) } else { None },
        None => None,
    }
}

/// `n` with at least two digits (`{:02}`).
pub open spec fn pad2(n: nat) -> Seq<char> {
    if n < 10 { seq!['0'] + nat_text(n) } else { nat_text(n) }
}

/// A position of `t` whole seconds: `h:mm:ss` from an hour on, `mm:ss` below.
pub open spec fn hms_spec(t: nat) -> Seq<char> {
    let h = t / 3600;
    let m = (t % 3600) / 60;
    let s = t % 60;
    if h > 0 {
        nat_text(h) + ":"@ + pad2(m) + ":"@ + pad2(s)
    } else {
        pad2(m) + ":"@ + pad2(s)
    }
}

fn push_pad2(out: &mut String, n: u64)
    ensures
        final(out)@ == old(out)@ + pad2(n as nat),
{
    if n < 10 {
        push_char(out, '0');
    }
    let t = u64_text(n);
    push_str(out, t.as_str());
    proof {
        if n < 10 {
            assert(final(out)@ =~= old(out)@ + pad2(n as nat));
        }
    }
}

/// A position of `t` whole seconds as the player shows it.
pub fn fmt_hms(t: u64) -> (r: String)
    ensures
        r@ == hms_spec(t as nat),
{
    let h = t / 3600;
    let m = (t % 3600) / 60;
    let s = t % 60;
    let mut out = String::new();
    if h > 0 {
        let ht = u64_text(h);
        push_str(&mut out, ht.as_str());
        push_str(&mut out, ":");
    }
    let ghost o1 = out@;
    push_pad2(&mut out, m);
    push_str(&mut out, ":");
    push_pad2(&mut out, s);
    proof {
        if h > 0 {
            assert(out@ =~= nat_text(h as nat) + ":"@ + pad2(m as nat) + ":"@ + pad2(s as nat));
        } else {
            assert(out@ =~= pad2(m as nat) + ":"@ + pad2(s as nat));
        }
    }
    out
}

/// What mpv reports over IPC, with the reported number kept as text.
pub enum MpvEvent {
    /// The playback position changed (seconds).
    TimePos(String),
    /// The duration became known (seconds).
    Duration(String),
    /// The track ended (mpv stays open at the end; the playlist decides).
    EndFile,
}

/// An mpv event as plain values.
pub enum MpvEventV {
    TimePos(Seq<char>),
    Duration(Seq<char>),
    EndFile,
}

pub open spec fn event_v(e: MpvEvent) -> MpvEventV {
    match e {
        MpvEvent::TimePos(t) => MpvEventV::TimePos(t@),
        MpvEvent::Duration(t) => MpvEventV::Duration(t@),
        MpvEvent::EndFile => MpvEventV::EndFile,
    }
}

/// The event a message from mpv carries: a change of the observed
/// `time-pos` or `duration` property with a number as data, or the end of a
/// file; nothing for any other message.
pub open spec fn event_spec(v: JsonV) -> Option<MpvEventV> {
    match as_str(get(v, "event"@)) {
        Some(ev) => if ev == "property-change"@ {
            match (as_str(get(v, "name"@)), get(v, "data"@)) {
                (Some(name), Some(JsonV::Num(n))) => if name == "time-pos"@ {
                    Some(MpvEventV::TimePos(n))
                } else if name == "duration"@ {
                    Some(MpvEventV::Duration(n))
                } else {
                    None
                },
                _ => None,
            }
        } else if ev == "end-file"@ {
            Some(MpvEventV::EndFile)
        } else {
            None
        },
        None => None,
    }
}

/// The event a message from mpv carries (see `event_spec`).
pub fn parse_event(v: &Json) -> (r: Option<MpvEvent>)
    ensures
        match r {
            Some(e) => event_spec(v@) == Some(event_v(e)),
            None => event_spec(v@) is None,
        },
{
    let ev = match get_str(v, "event") {
        Some(e) => e,
        None => return None,
    };
    if same_text(ev, "property-change") {
        let name = match get_str(v, "name") {
            Some(n) => n,
            None => return None,
        };
        let n = match get_field(v, "data") {
            Some(Json::Num(n)) => n,
            _ => return None,
        };
        if same_text(name, "time-pos") {
            Some(MpvEvent::TimePos(n.clone()))
        } else if same_text(name, "duration") {
            Some(MpvEvent::Duration(n.clone()))
        } else {
            None
        }
    } else if same_text(ev, "end-file") {
        Some(MpvEvent::EndFile)
    } else {
        None
    }
}

/// The IPC line that subscribes to a property.
pub fn observe_command(prop: &str) -> (r: String)
    ensures
        r@ == "{\"command\":[\"observe_property\",0,\""@ + prop@ + "\"]}"@,
{
    let mut s = owned("{\"command\":[\"observe_property\",0,\"");
    push_str(&mut s, prop);
    push_str(&mut s, "\"]}");
    s
}

/// The IPC line that pauses or resumes playback.
pub fn pause_command(pause: bool) -> (r: String)
    ensures
        r@ == (if pause {
            "{\"command\":[\"set_property\",\"pause\",true]}"@
        } else {
            "{\"command\":[\"set_property\",\"pause\",false]}"@
        }),
{
    if pause {
        owned("{\"command\":[\"set_property\",\"pause\",true]}")
    } else {
        owned("{\"command\":[\"set_property\",\"pause\",false]}")
    }
}

/// The IPC line that seeks to, or by, `secs` (a number as text).
pub fn seek_command(secs: &str, absolute: bool) -> (r: String)
    ensures
        r@ == "{\"command\":[\"seek\","@ + secs@ + (if absolute { ",\"absolute\"]}"@ } else { ",\"relative\"]}"@ }),
{
    let mut s = owned("{\"command\":[\"seek\",");
    push_str(&mut s, secs);
    if absolute {
        push_str(&mut s, ",\"absolute\"]}");
    } else {
        push_str(&mut s, ",\"relative\"]}");
    }
    s
}

/// The IPC line that sets the volume (a number as text).
pub fn volume_command(volume: &str) -> (r: String)
    ensures
        r@ == "{\"command\":[\"set_property\",\"volume\","@ + volume@ + "]}"@,
{
    let mut s = owned("{\"command\":[\"set_property\",\"volume\",");
    push_str(&mut s, volume);
    push_str(&mut s, "]}");
    s
}

/// The arguments mpv is started with: the IPC address, the volume, a window
/// kept open at the end, the start position when there is one, the file.
pub fn mpv_args(addr: &str, volume: &str, start: Option<&str>, path: &str) -> (r: Vec<String>)
    ensures
        r@.map_values(|a: String| a@) == seq![
            "--input-ipc-server="@ + addr@,
            "--volume="@ + volume@,
            "--force-window=yes"@,
            "--keep-open=always"@,
        ] + (match start {
            Some(t) => seq!["--start="@ + t@],
            None => Seq::empty(),
        }) + seq![path@],
{
    let mut a1 = owned("--input-ipc-server=");
    push_str(&mut a1, addr);
    let mut a2 = owned("--volume=");
    push_str(&mut a2, volume);
    let mut args: Vec<String> = vec![a1, a2, owned("--force-window=yes"), owned("--keep-open=always")];
    let ghost head = args@.map_values(|a: String| a@);
    match start {
        Some(t) => {
            let mut a = owned("--start=");
            push_str(&mut a, t);
            args.push(a);
        },
        None => {},
    }
    args.push(owned(path));
    proof {
        match start {
            Some(t) => {
                assert(args@.map_values(|a: String| a@) =~= head + seq!["--start="@ + t@] + seq![path@]);
            },
            None => {
                assert(args@.map_values(|a: String| a@) =~= head + Seq::<Seq<char>>::empty() + seq![path@]);
            },
        }
    }
    args
}

/// The position of the first newline of `b` at or after `i` (or its length).
pub open spec fn newline_from(b: Seq<u8>, i: int) -> int
    decreases b.len() - i,
{
    if i >= b.len() {
        b.len() as int
    } else if b[i] == 10 {
        i
    } else {
        newline_from(b, i + 1)
    }
}

/// The complete lines of `b` from `start` on (each with its newline), and
/// what follows the last newline.
pub open spec fn lines_from(b: Seq<u8>, start: int) -> (Seq<Seq<u8>>, Seq<u8>)
    decreases b.len() - start,
{
    if start < 0 || start > b.len() {
        (Seq::empty(), Seq::empty())
    } else {
        let p = newline_from(b, start);
        proof {
            lemma_newline_from(b, start);
        }
        if p >= b.len() {
            (Seq::empty(), b.subrange(start, b.len() as int))
        } else {
            let (ls, rest) = lines_from(b, p + 1);
            (seq![b.subrange(start, p + 1)] + ls, rest)
        }
    }
}

/// `newline_from` finds the first newline at or after `i`, or the end.
pub proof fn lemma_newline_from(b: Seq<u8>, i: int)
    requires
        0 <= i <= b.len(),
    ensures
        i <= newline_from(b, i) <= b.len(),
        forall|k: int| i <= k < newline_from(b, i) ==> b[k] != 10,
        newline_from(b, i) < b.len() ==> b[newline_from(b, i)] == 10,
    decreases b.len() - i,
{
    if i < b.len() && b[i] != 10 {
        lemma_newline_from(b, i + 1);
    }
}

/// Takes the complete lines (each ending in a newline) out of a buffer of
/// bytes read from mpv; what follows the last newline stays for the next read.
pub fn take_lines(buf: &mut Vec<u8>) -> (r: Vec<Vec<u8>>)
    ensures
        r@.map_values(|l: Vec<u8>| l@) == lines_from(old(buf)@, 0).0,
        final(buf)@ == lines_from(old(buf)@, 0).1,
{
    let ghost b = buf@;
    let mut out: Vec<Vec<u8>> = Vec::new();
    let mut start: usize = 0;
    let mut i: usize = 0;
    while i < buf.len()
        invariant
            b == buf@,
            start <= i <= buf@.len(),
            newline_from(b, start as int) == newline_from(b, i as int),
            lines_from(b, 0).0 == out@.map_values(|l: Vec<u8>| l@) + lines_from(b, start as int).0,
            lines_from(b, 0).1 == lines_from(b, start as int).1,
        decreases buf@.len() - i,
    {
        if buf[i] == 10 {
            let mut line: Vec<u8> = Vec::new();
            let mut k: usize = start;
            while k <= i
                invariant
                    b == buf@,
                    start <= k <= i + 1,
                    i < buf.len(),
                    line@ == b.subrange(start as int, k as int),
                decreases i + 1 - k,
            {
                line.push(buf[k]);
                proof {
                    assert(b.subrange(start as int, k as int + 1) =~= b.subrange(start as int, k as int).push(b[k as int]));
                }
                k = k + 1;
            }
            proof {
                assert(newline_from(b, i as int) == i);
                let (ls, rest) = lines_from(b, i as int + 1);
                assert(lines_from(b, start as int) == (seq![b.subrange(start as int, i as int + 1)] + ls, rest));
                assert(out@.push(line).map_values(|l: Vec<u8>| l@) =~= out@.map_values(|l: Vec<u8>| l@).push(line@));
                assert(out@.map_values(|l: Vec<u8>| l@).push(line@) + ls =~= out@.map_values(|l: Vec<u8>| l@) + (seq![line@] + ls));
            }
            out.push(line);
            start = i + 1;
        }
        i = i + 1;
    }
    proof {
        lemma_newline_from(b, start as int);
        assert(newline_from(b, start as int) == b.len());
    }
    let mut rest: Vec<u8> = Vec::new();
    let mut k: usize = start;
    while k < buf.len()
        invariant
            b == buf@,
            start <= k <= buf@.len(),
            rest@ == b.subrange(start as int, k as int),
        decreases buf@.len() - k,
    {
        rest.push(buf[k]);
        proof {
            assert(b.subrange(start as int, k as int + 1) =~= b.subrange(start as int, k as int).push(b[k as int]));
        }
        k = k + 1;
    }
    proof {
        assert(lines_from(b, start as int).0 =~= Seq::<Seq<u8>>::empty());
        assert(out@.map_values(|l: Vec<u8>| l@) + Seq::<Seq<u8>>::empty() =~= out@.map_values(|l: Vec<u8>| l@));
    }
    *buf = rest;
    out
}

// ---------------------------------------------------------------------------
// Resume: where each medium stopped
// ---------------------------------------------------------------------------

/// Entries that the resume list keeps at most.
pub const RESUME_CAP: usize = 200;

/// Where each medium stopped: its path and its position, least recently
/// recorded first. The position is the bit pattern of the player's seconds
/// (a float, read back with `f64::from_bits`); the list only keeps it.
pub struct Resume {
    pub positions: Vec<(String, u64)>,
}

/// An entry as path and position bits.
pub type ResumeEntry = (Seq<char>, u64);

/// The entries as paths and position bits, in order.
pub open spec fn entries_v(s: Seq<(String, u64)>) -> Seq<ResumeEntry> {
    s.map_values(|e: (String, u64)| (e.0@, e.1))
}

/// The entries of other media, in order.
pub open spec fn without_media(s: Seq<ResumeEntry>, media: Seq<char>) -> Seq<ResumeEntry>
    decreases s.len(),
{
    if s.len() == 0 {
        s
    } else if s.last().0 == media {
        without_media(s.drop_last(), media)
    } else {
        without_media(s.drop_last(), media).push(s.last())
    }
}

/// The position recorded for `media`: that of its most recent entry.
pub open spec fn lookup(s: Seq<ResumeEntry>, media: Seq<char>) -> Option<u64>
    decreases s.len(),
{
    if s.len() == 0 {
        None
    } else if s.last().0 == media {
        Some(s.last().1)
    } else {
        lookup(s.drop_last(), media)
    }
}

/// Only the `RESUME_CAP` most recent entries of `s`.
pub open spec fn keep_recent(s: Seq<ResumeEntry>) -> Seq<ResumeEntry> {
    if s.len() > RESUME_CAP {
        s.skip(s.len() - RESUME_CAP)
    } else {
        s
    }
}

/// The list after recording `bits` for `media`: its older entry leaves, the
/// new one becomes the most recent, and past `RESUME_CAP` entries the least
/// recent ones go.
pub open spec fn remember_spec(s: Seq<ResumeEntry>, media: Seq<char>, bits: u64) -> Seq<ResumeEntry> {
    keep_recent(without_media(s, media).push((media, bits)))
}

/// No path occurs twice.
pub open spec fn distinct_media(s: Seq<ResumeEntry>) -> bool {
    forall|i: int, j: int| 0 <= i < j < s.len() ==> #[trigger] s[i].0 != #[trigger] s[j].0
}

impl Default for Resume {
    fn default() -> (r: Resume)
        ensures
            r.positions@.len() == 0,
    {
        Resume { positions: Vec::new() }
    }
}

/// Records that `media` stopped at the position `bits`, keeping at most
/// `RESUME_CAP` entries: the least recently recorded go first.
pub fn remember(r: &mut Resume, media: &str, bits: u64)
    ensures
        entries_v(final(r).positions@) == remember_spec(entries_v(old(r).positions@), media@, bits),
{
    let ghost s = entries_v(r.positions@);
    let n = r.positions.len();
    let mut t: Vec<(String, u64)> = Vec::new();
    let mut i: usize = 0;
    while i < n
        invariant
            n == r.positions@.len(),
            s == entries_v(r.positions@),
            i <= n,
            entries_v(t@) == without_media(s.take(i as int), media@),
        decreases n - i,
    {
        proof {
            assert(s.take(i + 1).drop_last() =~= s.take(i as int));
            assert(s.take(i + 1).last() == s[i as int]);
        }
        if !same_text(&r.positions[i].0, media) {
            let e = (r.positions[i].0.clone(), r.positions[i].1);
            let ghost prev = t@;
            t.push(e);
            proof {
                assert(entries_v(t@) =~= entries_v(prev).push(s[i as int]));
            }
        }
        i = i + 1;
    }
    proof {
        assert(s.take(n as int) =~= s);
    }
    let ghost prev = t@;
    t.push((owned(media), bits));
    proof {
        assert(entries_v(t@) =~= entries_v(prev).push((media@, bits)));
    }
    let ghost whole = entries_v(t@);
    let m = t.len();
    if m > RESUME_CAP {
        let start = m - RESUME_CAP;
        let mut out: Vec<(String, u64)> = Vec::new();
        let mut j: usize = start;
        while j < m
            invariant
                m == t@.len(),
                whole == entries_v(t@),
                start <= j <= m,
                entries_v(out@) == whole.subrange(start as int, j as int),
            decreases m - j,
        {
            let e = (t[j].0.clone(), t[j].1);
            let ghost before = out@;
            out.push(e);
            proof {
                assert(entries_v(out@) =~= entries_v(before).push(whole[j as int]));
            }
            j = j + 1;
            proof {
                assert(entries_v(out@) =~= whole.subrange(start as int, j as int));
            }
        }
        proof {
            assert(whole.subrange(start as int, m as int) =~= whole.skip(start as int));
        }
        r.positions = out;
    } else {
        r.positions = t;
    }
}

/// The position recorded for `media`, if any.
pub fn position_of(r: &Resume, media: &str) -> (p: Option<u64>)
    ensures
        p == lookup(entries_v(r.positions@), media@),
{
    let ghost s = entries_v(r.positions@);
    let mut i: usize = r.positions.len();
    proof {
        assert(s.take(i as int) =~= s);
    }
    while i > 0
        invariant
            s == entries_v(r.positions@),
            i <= r.positions@.len(),
            lookup(s, media@) == lookup(s.take(i as int), media@),
        decreases i,
    {
        proof {
            assert(s.take(i as int).drop_last() =~= s.take(i - 1));
            assert(s.take(i as int).last() == s[i - 1]);
        }
        if same_text(&r.positions[i - 1].0, media) {
            return Some(r.positions[i - 1].1);
        }
        i = i - 1;
    }
    None
}

proof fn lemma_lookup_without(s: Seq<ResumeEntry>, media: Seq<char>, other: Seq<char>)
    requires
        other != media,
    ensures
        lookup(without_media(s, media), other) == lookup(s, other),
        lookup(without_media(s, media), media) is None,
        without_media(s, media).len() <= s.len(),
    decreases s.len(),
{
    if s.len() > 0 {
        lemma_lookup_without(s.drop_last(), media, other);
        let w = without_media(s.drop_last(), media);
        if s.last().0 != media {
            assert(w.push(s.last()).drop_last() =~= w);
        }
    }
}

proof fn lemma_lookup_suffix(s: Seq<ResumeEntry>, k: int, media: Seq<char>)
    requires
        0 <= k <= s.len(),
    ensures
        lookup(s.skip(k), media) == lookup(s, media) || lookup(s.skip(k), media) is None,
        lookup(s.skip(k), media) is None && lookup(s, media) is Some ==> forall|i: int| k <= i < s.len() ==> (#[trigger] s[i]).0 != media,
    decreases s.len(),
{
    if s.len() > k {
        let p = s.drop_last();
        lemma_lookup_suffix(p, k, media);
        assert(s.skip(k).drop_last() =~= p.skip(k));
        assert(s.skip(k).last() == s.last());
        assert forall|i: int| k <= i < s.len() && lookup(s.skip(k), media) is None && lookup(s, media) is Some
            implies (#[trigger] s[i]).0 != media by {
            if i < p.len() {
                assert(p[i] == s[i]);
            }
        }
    } else {
        assert(s.skip(k).len() == 0);
    }
}

/// What is recorded reads back: after recording `bits` for `media`, its
/// position is `bits`; the list holds at most `RESUME_CAP` entries.
pub proof fn lemma_remember_reads_back(s: Seq<ResumeEntry>, media: Seq<char>, bits: u64)
    ensures
        lookup(remember_spec(s, media, bits), media) == Some(bits),
        remember_spec(s, media, bits).len() <= RESUME_CAP,
{
    let t = without_media(s, media).push((media, bits));
    let r = remember_spec(s, media, bits);
    assert(r.len() >= 1 && r.last() == (media, bits)) by {
        if t.len() > RESUME_CAP {
            assert(r[r.len() - 1] == t[t.len() - 1]);
        }
    }
}

/// Recording one medium leaves the others' positions as they were, or drops
/// them when they are among the least recent past the cap; while the other
/// entries fit under the cap nothing is dropped.
pub proof fn lemma_remember_keeps_others(s: Seq<ResumeEntry>, media: Seq<char>, bits: u64, other: Seq<char>)
    requires
        other != media,
    ensures
        lookup(remember_spec(s, media, bits), other) == lookup(s, other)
            || lookup(remember_spec(s, media, bits), other) is None,
        without_media(s, media).len() < RESUME_CAP ==> lookup(remember_spec(s, media, bits), other) == lookup(s, other),
{
    let w = without_media(s, media);
    let t = w.push((media, bits));
    lemma_lookup_without(s, media, other);
    assert(t.drop_last() =~= w);
    if t.len() > RESUME_CAP {
        lemma_lookup_suffix(t, t.len() - RESUME_CAP, other);
    }
}

/// Recording keeps paths distinct: each medium has one entry.
pub proof fn lemma_remember_distinct(s: Seq<ResumeEntry>, media: Seq<char>, bits: u64)
    requires
        distinct_media(s),
    ensures
        distinct_media(remember_spec(s, media, bits)),
{
    lemma_without_media_facts(s, media);
    let w = without_media(s, media);
    let t = w.push((media, bits));
    assert(distinct_media(t)) by {
        assert forall|i: int, j: int| 0 <= i < j < t.len() implies #[trigger] t[i].0 != #[trigger] t[j].0 by {
            if j == w.len() {
                assert(t[i] == w[i]);
            } else {
                assert(t[i] == w[i] && t[j] == w[j]);
            }
        }
    }
    if t.len() > RESUME_CAP {
        let k = t.len() - RESUME_CAP;
        let r = t.skip(k);
        assert forall|i: int, j: int| 0 <= i < j < r.len() implies #[trigger] r[i].0 != #[trigger] r[j].0 by {
            assert(r[i] == t[i + k] && r[j] == t[j + k]);
        }
    }
}

proof fn lemma_without_media_facts(s: Seq<ResumeEntry>, media: Seq<char>)
    ensures
        forall|i: int| 0 <= i < without_media(s, media).len() ==> (#[trigger] without_media(s, media)[i]).0 != media,
        distinct_media(s) ==> distinct_media(without_media(s, media)),
        forall|i: int| 0 <= i < without_media(s, media).len() ==> s.contains(#[trigger] without_media(s, media)[i]),
    decreases s.len(),
{
    if s.len() > 0 {
        let p = s.drop_last();
        let x = s.last();
        let w = without_media(p, media);
        lemma_without_media_facts(p, media);
        if distinct_media(s) {
            assert forall|i: int, j: int| 0 <= i < j < p.len() implies #[trigger] p[i].0 != #[trigger] p[j].0 by {
                assert(p[i] == s[i] && p[j] == s[j]);
            }
        }
        let q = without_media(s, media);
        assert forall|i: int| 0 <= i < q.len() implies s.contains(#[trigger] q[i]) by {
            if i < w.len() {
                let j = choose|j: int| 0 <= j < p.len() && p[j] == w[i];
                assert(s[j] == p[j]);
                assert(q[i] == w[i]);
            } else {
                assert(s[s.len() - 1] == x);
            }
        }
        if x.0 != media && distinct_media(s) {
            assert forall|i: int, j: int| 0 <= i < j < q.len() implies #[trigger] q[i].0 != #[trigger] q[j].0 by {
                if j == w.len() {
                    let k = choose|k: int| 0 <= k < p.len() && p[k] == w[i];
                    assert(s[k] == p[k]);
                    assert(s[s.len() - 1] == x);
                    assert(q[i] == w[i]);
                } else {
                    assert(q[i] == w[i] && q[j] == w[j]);
                }
            }
        }
    }
}


} // verus!
