//! The system monitor's decisions: how uptime reads, which column sorts the
//! process table and in which direction, which processes the filter keeps,
//! and the bounded history behind each chart.
use std::collections::VecDeque;
use vstd::prelude::*;
use crate::order::{order_by_text, order_by_number, reversed, sorted_order, num_sorted_order};
use crate::text::{nat_text, u64_text, push_str, lowercase, lower_text, occurs, contains_text, needle_of};

verus! {

/// Samples kept per chart.
pub const MAX_SAMPLES: usize = 160;

/// The column that sorts the process table.
#[derive(Clone, Copy, PartialEq, Eq, Structural, Debug)]
pub enum SortCol {
    Name,
    Pid,
    Cpu,
    Mem,
}

/// How the process table is sorted.
#[derive(Clone, Copy, PartialEq, Eq, Structural, Debug)]
pub struct SortState {
    pub col: SortCol,
    pub desc: bool,
}

impl SortState {
    /// A click on a column's header: the sorted column flips its direction;
    /// another column becomes the sorted one, names ascending and numbers
    /// descending.
    pub fn toggle_sort(&mut self, col: SortCol)
        ensures
            final(self).col == col,
            final(self).desc == (if old(self).col == col { !old(self).desc } else { col != SortCol::Name }),
    {
        if self.col == col {
            self.desc = !self.desc;
        } else {
            self.col = col;
            self.desc = col != SortCol::Name;
        }
    }
}

/// The row order for a sort by name, PID or memory: ascending by the column
/// (names compared as text, numbers by value), equal keys in the table's
/// order, and reversed when descending. `None` for the CPU column, whose
/// share is a floating-point number that the table orders itself.
pub open spec fn row_order_spec(
    col: SortCol,
    desc: bool,
    names: Seq<Seq<char>>,
    pids: Seq<int>,
    mems: Seq<int>,
) -> Option<Seq<int>> {
    let asc = match col {
        SortCol::Name => Some(sorted_order(names, names.len())),
        SortCol::Pid => Some(num_sorted_order(pids, pids.len())),
        SortCol::Mem => Some(num_sorted_order(mems, mems.len())),
        SortCol::Cpu => None,
    };
    match asc {
        Some(o) => Some(if desc { o.reverse() } else { o }),
        None => None,
    }
}

/// The order in which the process table lists its rows (indices into the
/// columns), sorted by name, PID or memory; `None` for the CPU column.
pub fn row_order(col: SortCol, desc: bool, names: &Vec<String>, pids: &Vec<u64>, mems: &Vec<u64>) -> (r: Option<Vec<usize>>)
    ensures
        match r {
            Some(o) => row_order_spec(
                col,
                desc,
                names@.map_values(|s: String| s@),
                pids@.map_values(|x: u64| x as int),
                mems@.map_values(|x: u64| x as int),
            ) == Some(o@.map_values(|i: usize| i as int)),
            None => col == SortCol::Cpu,
        },
{
    let asc = match col {
        SortCol::Name => order_by_text(names),
        SortCol::Pid => order_by_number(pids),
        SortCol::Mem => order_by_number(mems),
        SortCol::Cpu => return None,
    };
    if desc {
        let ghost a = asc@;
        let d = reversed(asc);
        proof {
            assert(d@.map_values(|i: usize| i as int) =~= a.map_values(|i: usize| i as int).reverse());
        }
        Some(d)
    } else {
        Some(asc)
    }
}

/// Two clicks on the same header leave the table sorted as before.
pub proof fn lemma_toggle_twice(s: SortState, col: SortCol)
    requires
        s.col == col,
    ensures
        ({
            let once = SortState { col, desc: !s.desc };
            let twice = SortState { col, desc: !once.desc };
            twice == s
        }),
{
}

/// Uptime as `{d}d {h}h {m}m`.
pub open spec fn uptime_spec(secs: nat) -> Seq<char> {
    nat_text(secs / 86400) + "d "@ + nat_text((secs % 86400) / 3600) + "h "@ + nat_text((secs % 3600) / 60) + "m"@
}

/// Uptime as the monitor shows it: days, hours and minutes.
pub fn fmt_uptime(secs: u64) -> (r: String)
    ensures
        r@ == uptime_spec(secs as nat),
{
    let d = secs / 86400;
    let h = (secs % 86400) / 3600;
    let m = (secs % 3600) / 60;
    let mut s = u64_text(d);
    push_str(&mut s, "d ");
    let t = u64_text(h);
    push_str(&mut s, t.as_str());
    push_str(&mut s, "h ");
    let t = u64_text(m);
    push_str(&mut s, t.as_str());
    push_str(&mut s, "m");
    s
}

/// Appends a sample, dropping the oldest when the history is full.
pub fn push_sample<T>(hist: &mut VecDeque<T>, v: T)
    ensures
        final(hist)@ == (if old(hist)@.len() == MAX_SAMPLES { old(hist)@.drop_first() } else { old(hist)@ }).push(v),
        old(hist)@.len() <= MAX_SAMPLES ==> final(hist)@.len() <= MAX_SAMPLES,
{
    if hist.len() == MAX_SAMPLES {
        let _oldest = hist.pop_front();
    }
    hist.push_back(v);
}

/// A process passes the filter when the filter is empty, or it occurs in
/// the lowercase process name or in the decimal pid.
pub open spec fn passes_filter(filter: Seq<char>, name: Seq<char>, pid: u32) -> bool {
    let n = needle_of(filter);
    n.len() == 0 || occurs(lower_text(name), n) || occurs(nat_text(pid as nat), n)
}

/// Whether a process passes the filter, given the matched filter text.
pub fn passes(needle: &str, name: &str, pid: u32) -> (r: bool)
    ensures
        r == (needle@.len() == 0 || occurs(lower_text(name@), needle@) || occurs(nat_text(pid as nat), needle@)),
{
    if needle.is_empty() {
        return true;
    }
    let lname = lowercase(name);
    if contains_text(lname.as_str(), needle) {
        return true;
    }
    let p = u64_text(pid as u64);
    contains_text(p.as_str(), needle)
}

} // verus!
