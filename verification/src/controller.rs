//! The tray controller's decisions, one tick at a time: it buffers what the
//! poller captured (bounded), and turns the hotkey, tray commands and
//! second-instance requests into window actions. The caller runs the loop,
//! asks the system whether the window is visible and performs the actions.
use vstd::prelude::*;

verus! {

/// A command from the tray menu.
#[derive(Clone, Copy, PartialEq, Eq, Structural, Debug)]
pub enum TrayCmd {
    ShowHide,
    Quit,
}

/// State shared between the controller and the interface.
pub struct Shared {
    /// Texts captured by the poller, waiting for the interface to adopt them.
    pub new_items: Vec<String>,
    /// The controller showed the window; the interface should focus search.
    pub want_focus: bool,
    /// A real quit was asked for (tray, "Quit") while the window was visible.
    pub quit: bool,
}

/// Texts kept at most while the interface does not adopt them.
pub const PENDING_CAP: usize = 1000;

/// What the caller does to the window.
#[derive(Clone, Copy, PartialEq, Eq, Structural, Debug)]
pub enum WindowAction {
    Nothing,
    Hide,
    Show,
    /// Ask the interface for a frame, so that it sees the shared state.
    Repaint,
    /// End the process directly: the window is hidden and draws no frames.
    ForceQuit,
}

/// The texts of a list of strings.
pub open spec fn texts(v: Seq<String>) -> Seq<Seq<char>> {
    v.map_values(|s: String| s@)
}

/// The newest `PENDING_CAP` of the pending texts followed by the new ones.
pub open spec fn absorb_spec(pending: Seq<Seq<char>>, incoming: Seq<Seq<char>>) -> Seq<Seq<char>> {
    let all = pending + incoming;
    if all.len() > PENDING_CAP {
        all.subrange(all.len() - PENDING_CAP, all.len() as int)
    } else {
        all
    }
}

impl Shared {
    pub fn new() -> (r: Shared)
        ensures
            r.new_items@.len() == 0,
            !r.want_focus,
            !r.quit,
    {
        Shared { new_items: Vec::new(), want_focus: false, quit: false }
    }

    /// Appends the texts the poller captured, dropping the oldest beyond
    /// `PENDING_CAP`; whether any arrived.
    pub fn absorb(&mut self, incoming: Vec<String>) -> (had_new: bool)
        ensures
            had_new == (incoming@.len() > 0),
            texts(final(self).new_items@) == absorb_spec(texts(old(self).new_items@), texts(incoming@)),
            final(self).want_focus == old(self).want_focus,
            final(self).quit == old(self).quit,
    {
        let had_new = incoming.len() > 0;
        let ghost p0 = self.new_items@;
        let mut i: usize = 0;
        while i < incoming.len()
            invariant
                i <= incoming@.len(),
                self.new_items@ == p0 + incoming@.subrange(0, i as int),
                self.want_focus == old(self).want_focus,
                self.quit == old(self).quit,
            decreases incoming@.len() - i,
        {
            self.new_items.push(incoming[i].clone());
            proof {
                assert(incoming@.subrange(0, i as int + 1) =~= incoming@.subrange(0, i as int).push(incoming@[i as int]));
            }
            i = i + 1;
        }
        let ghost all = self.new_items@;
        proof {
            assert(incoming@.subrange(0, i as int) =~= incoming@);
            assert(texts(all) =~= texts(p0) + texts(incoming@));
        }
        if self.new_items.len() > PENDING_CAP {
            let excess = self.new_items.len() - PENDING_CAP;
            let kept = self.new_items.split_off(excess);
            self.new_items = kept;
            proof {
                assert(texts(self.new_items@) =~= texts(all).subrange(all.len() - PENDING_CAP, all.len() as int));
            }
        }
        had_new
    }

    /// The hotkey, or the tray's show/hide: a visible window hides; a hidden
    /// one shows and asks for the search field's focus.
    pub fn toggle_window(&mut self, visible: bool) -> (a: WindowAction)
        ensures
            a == (if visible { WindowAction::Hide } else { WindowAction::Show }),
            final(self).want_focus == (old(self).want_focus || !visible),
            final(self).quit == old(self).quit,
            final(self).new_items@ == old(self).new_items@,
    {
        if visible {
            WindowAction::Hide
        } else {
            self.want_focus = true;
            WindowAction::Show
        }
    }

    /// A tray command (the last one that arrived this tick). With a tray
    /// (`tray` true): show/hide toggles the window; quit goes through the
    /// interface when the window is visible (it can close cleanly) and ends
    /// the process otherwise. Without a tray, show/hide does nothing and quit
    /// always goes through the interface.
    pub fn on_command(&mut self, cmd: Option<TrayCmd>, visible: bool, tray: bool) -> (a: WindowAction)
        ensures
            a == match cmd {
                None => WindowAction::Nothing,
                Some(TrayCmd::ShowHide) => if !tray {
                    WindowAction::Nothing
                } else if visible {
                    WindowAction::Hide
                } else {
                    WindowAction::Show
                },
                Some(TrayCmd::Quit) => if tray && !visible { WindowAction::ForceQuit } else { WindowAction::Repaint },
            },
            final(self).want_focus == (old(self).want_focus || (cmd == Some(TrayCmd::ShowHide) && tray && !visible)),
            final(self).quit == (old(self).quit || (cmd == Some(TrayCmd::Quit) && !(tray && !visible))),
            final(self).new_items@ == old(self).new_items@,
    {
        match cmd {
            None => WindowAction::Nothing,
            Some(TrayCmd::ShowHide) => {
                if tray {
                    self.toggle_window(visible)
                } else {
                    WindowAction::Nothing
                }
            },
            Some(TrayCmd::Quit) => {
                if tray && !visible {
                    WindowAction::ForceQuit
                } else {
                    self.quit = true;
                    WindowAction::Repaint
                }
            },
        }
    }

    /// A second instance asked to be let through: the window shows (with a
    /// tray; without one the interface gets a frame) and search gets focus.
    pub fn on_show_request(&mut self, tray: bool) -> (a: WindowAction)
        ensures
            a == (if tray { WindowAction::Show } else { WindowAction::Repaint }),
            final(self).want_focus,
            final(self).quit == old(self).quit,
            final(self).new_items@ == old(self).new_items@,
    {
        self.want_focus = true;
        if tray {
            WindowAction::Show
        } else {
            WindowAction::Repaint
        }
    }
}

/// Whether the tick ends with a frame request: something happened and the
/// window is visible.
pub fn wants_repaint(hotkey: bool, had_cmd: bool, show_req: bool, had_new: bool, visible: bool) -> (r: bool)
    ensures
        r == ((hotkey || had_cmd || show_req || had_new) && visible),
{
    (hotkey || had_cmd || show_req || had_new) && visible
}

/// The last of the tray commands that arrived this tick.
pub fn last_command(cmds: &Vec<TrayCmd>) -> (r: Option<TrayCmd>)
    ensures
        r == (if cmds@.len() == 0 { None } else { Some(cmds@.last()) }),
{
    if cmds.len() == 0 {
        None
    } else {
        Some(cmds[cmds.len() - 1])
    }
}

/// Whether any hotkey event of this tick was a press.
pub fn any_pressed(pressed: &Vec<bool>) -> (r: bool)
    ensures
        r == (exists|i: int| 0 <= i < pressed@.len() && pressed@[i]),
{
    let mut i: usize = 0;
    while i < pressed.len()
        invariant
            i <= pressed@.len(),
            forall|k: int| 0 <= k < i ==> !pressed@[k],
        decreases pressed@.len() - i,
    {
        if pressed[i] {
            return true;
        }
        i = i + 1;
    }
    false
}

/// Whether the controller loop keeps running.
pub struct RunFlag {
    keep_running: bool,
}

impl RunFlag {
    pub fn new() -> (r: RunFlag)
        ensures
            r.running(),
    {
        RunFlag { keep_running: true }
    }

    pub closed spec fn running(&self) -> bool {
        self.keep_running
    }

    /// Whether the loop goes on.
    pub fn keep_running(&self) -> (r: bool)
        ensures
            r == self.running(),
    {
        self.keep_running
    }

    /// Ends the loop at its next tick.
    pub fn stop(&mut self)
        ensures
            !final(self).running(),
    {
        self.keep_running = false;
    }
}

} // verus!
