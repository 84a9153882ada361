//! The application state and its keyboard-driven state machine.
//!
//! The state is built once from the outcome of a single scan, then mutated
//! only by key events until a quit key moves it from `Running` to `Stopped`.
//! Rendering and the blocking read of input events happen outside the
//! library; each event is handed in as a plain value.

use vstd::prelude::*;
use vstd::string::StringExecFns;
use crate::device::LED;
use crate::device::NewLEDError;
use crate::device::message_of;
use crate::text::dec_digits;
use crate::text::push_char;
use crate::text::usize_to_string;

verus! {

/// Which panel receives navigation keys. Only the sidebar (the device list)
/// is navigable; the detail panel is display-only.
pub enum Pane {
    Sidebar,
    Mainbar,
}

/// Whether the main loop keeps going. `Stopped` is terminal.
pub enum RunState {
    Running,
    Stopped,
}

/// The keys the application distinguishes; everything else is `Other`.
#[derive(Clone, Copy)]
pub enum KeyCode {
    Esc,
    Up,
    Down,
    Char(char),
    Other,
}

/// One key press, with whether a control modifier was held.
#[derive(Clone, Copy)]
pub struct KeyPress {
    pub code: KeyCode,
    pub ctrl: bool,
}

/// One input event as the application sees it: a key event (press or
/// release), or one of the event kinds it accepts but ignores.
pub enum InputEvent {
    Key { press: bool, key: KeyPress },
    Mouse,
    Resize,
    Other,
}

/// The quit combinations: escape, the letter q, or a control-modified
/// interrupt character.
pub open spec fn is_quit_key(k: KeyPress) -> bool {
    ||| k.code is Esc
    ||| k.code matches KeyCode::Char(c) && c == 'q'
    ||| k.ctrl && (k.code matches KeyCode::Char(c) && (c == 'c' || c == 'C'))
}

/// The selection one step down: saturates at the last entry, and stays put
/// on an empty list.
pub open spec fn nav_down(sel: usize, len: nat) -> usize {
    if sel + 1 < len {
        (sel + 1) as usize
    } else {
        sel
    }
}

/// The selection one step up: saturates at the first entry.
pub open spec fn nav_up(sel: usize) -> usize {
    if sel > 0 {
        (sel - 1) as usize
    } else {
        sel
    }
}

/// The main application state.
pub struct App {
    /// Drives the main loop; set to `Stopped` only by a quit key.
    pub running: RunState,
    /// The records discovered by the one scan, in enumeration order;
    /// immutable for the rest of the run.
    pub leds: Vec<LED>,
    /// Human-readable status lines, append-only during the run.
    pub log: Vec<String>,
    /// Which panel receives navigation keys.
    pub focused_pane: Pane,
    /// The index of the highlighted device.
    pub selected: usize,
}

/// The state after one key press: quit keys stop the application, up and
/// down move the selection while the sidebar is focused, and every other key
/// changes nothing.
pub open spec fn key_step(s: App, k: KeyPress) -> App {
    if is_quit_key(k) {
        App { running: RunState::Stopped, ..s }
    } else if k.code is Up && s.focused_pane is Sidebar {
        App { selected: nav_up(s.selected), ..s }
    } else if k.code is Down && s.focused_pane is Sidebar {
        App { selected: nav_down(s.selected, s.leds@.len()), ..s }
    } else {
        s
    }
}

/// The state after one input event: only key presses are significant; key
/// releases, mouse, and resize events are accepted but ignored.
pub open spec fn event_step(s: App, e: InputEvent) -> App {
    match e {
        InputEvent::Key { press, key } => if press {
            key_step(s, key)
        } else {
            s
        },
        _ => s,
    }
}

/// The log line reporting a successful scan of `n` devices.
pub open spec fn scan_ok_message(n: nat) -> Seq<char> {
    "Successfully found "@ + dec_digits(n) + " LED(s)"@
}

/// The log line reporting a failed scan.
pub open spec fn scan_err_message(e: NewLEDError) -> Seq<char> {
    "Error getting LEDs: "@ + message_of(e)
}

/// The log lines `lines` joined by single newlines, in order.
pub open spec fn joined_lines(lines: Seq<String>) -> Seq<char>
    decreases lines.len(),
{
    if lines.len() == 0 {
        Seq::<char>::empty()
    } else if lines.len() == 1 {
        lines[0]@
    } else {
        joined_lines(lines.drop_last()) + seq!['\n'] + lines.last()@
    }
}

impl App {
    /// Builds the initial state from the outcome of the one scan: `Running`,
    /// sidebar focused, selection on the first entry, and a single log line
    /// reporting how the scan went. A failed scan degrades to an empty
    /// device list rather than aborting.
    pub fn new(scan: Result<Vec<LED>, NewLEDError>) -> (r: App)
        ensures
            r.running is Running,
            r.focused_pane is Sidebar,
            r.selected == 0,
            r.log@.len() == 1,
            match scan {
                Ok(leds) => r.leds == leds && r.log@[0]@ == scan_ok_message(leds@.len()),
                Err(e) => r.leds@.len() == 0 && r.log@[0]@ == scan_err_message(e),
            },
    {
        let mut log: Vec<String> = Vec::new();
        let leds: Vec<LED> = match scan {
            Ok(leds) => {
                let mut msg = String::from_str("Successfully found ");
                let num = usize_to_string(leds.len());
                msg.append(num.as_str());
                msg.append(" LED(s)");
                proof {
                    assert(msg@ =~= scan_ok_message(leds@.len()));
                }
                log.push(msg);
                leds
            },
            Err(e) => {
                let mut msg = String::from_str("Error getting LEDs: ");
                let emsg = e.message();
                msg.append(emsg.as_str());
                proof {
                    assert(msg@ =~= scan_err_message(e));
                }
                log.push(msg);
                Vec::new()
            },
        };
        App {
            running: RunState::Running,
            leds,
            log,
            focused_pane: Pane::Sidebar,
            selected: 0,
        }
    }

    /// Moves the state to `Stopped`; everything else is untouched.
    pub fn quit(&mut self)
        ensures
            *final(self) == (App { running: RunState::Stopped, ..*old(self) }),
    {
        self.running = RunState::Stopped;
    }

    /// Applies one key press to the state, exactly as `key_step` describes.
    pub fn on_key_event(&mut self, key: KeyPress)
        ensures
            *final(self) == key_step(*old(self), key),
    {
        let quit = match key.code {
            KeyCode::Esc => true,
            KeyCode::Char(c) => c == 'q' || (key.ctrl && (c == 'c' || c == 'C')),
            _ => false,
        };
        if quit {
            self.quit();
        } else {
            match key.code {
                KeyCode::Up => {
                    if matches!(self.focused_pane, Pane::Sidebar) {
                        if self.selected > 0 {
                            self.selected = self.selected - 1;
                        }
                    }
                },
                KeyCode::Down => {
                    if matches!(self.focused_pane, Pane::Sidebar) {
                        let len = self.leds.len();
                        if len > 0 && self.selected < len - 1 {
                            self.selected = self.selected + 1;
                        }
                    }
                },
                _ => {},
            }
        }
    }

    /// Applies one input event to the state, exactly as `event_step`
    /// describes: only key presses do anything.
    pub fn handle_event(&mut self, event: InputEvent)
        ensures
            *final(self) == event_step(*old(self), event),
    {
        match event {
            InputEvent::Key { press, key } => {
                if press {
                    self.on_key_event(key);
                }
            },
            _ => {},
        }
    }

    /// Ends the run: appends the final exit notice and hands the whole log
    /// back for printing.
    pub fn finish(self) -> (r: Vec<String>)
        ensures
            r@.len() == self.log@.len() + 1,
            forall|i: int| 0 <= i < self.log@.len() ==> r@[i] == self.log@[i],
            r@.last()@ == "Exiting Glimpse"@,
    {
        let mut log = self.log;
        log.push(String::from_str("Exiting Glimpse"));
        log
    }

    /// The whole log as one newline-separated text, for the detail panel.
    pub fn log_text(&self) -> (r: String)
        ensures
            r@ == joined_lines(self.log@),
    {
        let mut out = String::new();
        let mut i: usize = 0;
        proof {
            assert(self.log@.subrange(0, 0) =~= Seq::<String>::empty());
        }
        while i < self.log.len()
            invariant
                i <= self.log@.len(),
                out@ == joined_lines(self.log@.subrange(0, i as int)),
            decreases self.log@.len() - i,
        {
            if i > 0 {
                push_char(&mut out, '\n');
            }
            out.append(self.log[i].as_str());
            proof {
                let pre = self.log@.subrange(0, i as int);
                let post = self.log@.subrange(0, i as int + 1);
                assert(post.drop_last() =~= pre);
                assert(post.last() == self.log@[i as int]);
                if i > 0 {
                    assert(out@ =~= joined_lines(pre) + seq!['\n'] + self.log@[i as int]@);
                } else {
                    assert(out@ =~= self.log@[i as int]@);
                }
            }
            i = i + 1;
        }
        proof {
            assert(self.log@.subrange(0, self.log@.len() as int) =~= self.log@);
        }
        out
    }
}

/// A quit key, and only a quit key, moves a running state to `Stopped`: after
/// any key press the state is stopped exactly when the key was a quit key or
/// the state was stopped already.
pub proof fn lemma_quit_keys_stop(s: App, k: KeyPress)
    ensures
        key_step(s, k).running is Stopped <==> (is_quit_key(k) || s.running is Stopped),
{
}

/// The state after `n` presses of the same key.
pub open spec fn press_repeat(s: App, k: KeyPress, n: nat) -> App
    decreases n,
{
    if n == 0 {
        s
    } else {
        key_step(press_repeat(s, k, (n - 1) as nat), k)
    }
}

proof fn lemma_down_reaches_min(s: App, k: KeyPress, n: nat)
    requires
        s.focused_pane is Sidebar,
        k.code is Down,
        !is_quit_key(k),
        s.selected == 0,
        0 < s.leds@.len() <= usize::MAX,
    ensures
        press_repeat(s, k, n).selected == if n <= s.leds@.len() - 1 {
            n as int
        } else {
            s.leds@.len() - 1
        },
        press_repeat(s, k, n).focused_pane is Sidebar,
        press_repeat(s, k, n).leds == s.leds,
    decreases n,
{
    if n > 0 {
        lemma_down_reaches_min(s, k, (n - 1) as nat);
    }
}

/// Navigation saturates, with no wraparound: with `m > 0` devices and the
/// sidebar focused, pressing "down" `m - 1` times from the first entry moves
/// the selection to the last entry, and any further presses leave it there;
/// pressing "up" at the first entry leaves the selection at the first entry.
pub proof fn lemma_navigation_saturates(s: App, down: KeyPress, up: KeyPress, extra: nat)
    requires
        s.focused_pane is Sidebar,
        down.code is Down,
        !is_quit_key(down),
        up.code is Up,
        !is_quit_key(up),
        s.selected == 0,
        0 < s.leds@.len() <= usize::MAX,
    ensures
        press_repeat(s, down, (s.leds@.len() - 1) as nat).selected == s.leds@.len() - 1,
        press_repeat(s, down, s.leds@.len() + extra).selected == s.leds@.len() - 1,
        key_step(s, up).selected == 0,
{
    lemma_down_reaches_min(s, down, (s.leds@.len() - 1) as nat);
    lemma_down_reaches_min(s, down, s.leds@.len() + extra);
}

} // verus!
