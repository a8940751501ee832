use vstd::prelude::*;

verus! {

use vstd::string::StrSliceExecFns;
use crate::lines::line_start_of;
use crate::motions_basic::{
    down_spec,
    first_non_blank_spec,
    left_n,
    line_end_pos_spec,
    right_n,
    to_line_spec,
    up_spec,
};
use crate::motions_find::find_char_spec;
use crate::motions_para::{para_backward_n, para_forward_n};
use crate::motions_word::{word_backward_n, word_end_n, word_forward_n};
use crate::vim_mode::{
    count_of,
    is_digit,
    push_digit,
    CharSearchDirection,
    CharSearchType,
    Pending,
    VimEvent,
    VimMode,
    VimState,
};

// ------------------------------------------------------------------
// The mode state machine: one transition per input event.
// ------------------------------------------------------------------

/// The reversed search direction, used by `,` for one invocation only.
pub open spec fn reverse_dir_spec(d: CharSearchDirection) -> CharSearchDirection {
    match d {
        CharSearchDirection::Forward => CharSearchDirection::Backward,
        CharSearchDirection::Backward => CharSearchDirection::Forward,
    }
}

/// The state after one event: mode, pending-count buffer, character
/// search memory, pending key, and cursor offset.  The incoming cursor
/// is first clamped to `[0, len]`; every transition keeps it there.
///
/// In Normal mode with nothing pending: `Escape` clears the count;
/// `i` enters Insert mode; digits accumulate into the count (a leading
/// `0` instead runs the line-start motion); the motion keys dispatch
/// their motion with the accumulated count and clear it; `f`/`F`/`t`/`T`
/// leave the engine waiting for a target character; `;` and `,` replay
/// the remembered search, `,` with the direction reversed for that
/// invocation only; every other character changes nothing.  A pending
/// character search consumes the next character as its target.  In
/// Insert mode only `Escape` acts: it returns to Normal mode and moves
/// the cursor one character back, never below 0.
pub open spec fn st_step(
    mode: VimMode,
    count: Seq<char>,
    mem: Option<(char, CharSearchDirection, CharSearchType)>,
    pend: Pending,
    ev: VimEvent,
    s: Seq<char>,
    p: int,
) -> (VimMode, Seq<char>, Option<(char, CharSearchDirection, CharSearchType)>, Pending, int) {
    let p0 = if p <= s.len() {
        p
    } else {
        s.len() as int
    };
    match mode {
        VimMode::Insert => match ev {
            VimEvent::Escape => (
                VimMode::Normal,
                count,
                mem,
                pend,
                if p0 > 0 {
                    p0 - 1
                } else {
                    0
                },
            ),
            VimEvent::Char(_) => (mode, count, mem, pend, p0),
        },
        VimMode::Normal => match ev {
            VimEvent::Escape => (VimMode::Normal, Seq::empty(), mem, Pending::Idle, p0),
            VimEvent::Char(c) => match pend {
                Pending::CharSearch(dir, kind) => {
                    let r = find_char_spec(s, p0, c, dir, kind, count_of(count));
                    (
                        VimMode::Normal,
                        Seq::empty(),
                        if r.1 {
                            Some((c, dir, kind))
                        } else {
                            mem
                        },
                        Pending::Idle,
                        r.0,
                    )
                },
                Pending::Idle => {
                    let n = count_of(count);
                    if c == 'i' {
                        (VimMode::Insert, Seq::empty(), mem, Pending::Idle, p0)
                    } else if is_digit(c) && (c != '0' || count.len() > 0) {
                        (VimMode::Normal, count.push(c), mem, Pending::Idle, p0)
                    } else if c == '0' {
                        (VimMode::Normal, count, mem, Pending::Idle, line_start_of(s, p0))
                    } else if c == 'h' {
                        (VimMode::Normal, Seq::empty(), mem, Pending::Idle, left_n(p0, n))
                    } else if c == 'l' {
                        (
                            VimMode::Normal,
                            Seq::empty(),
                            mem,
                            Pending::Idle,
                            right_n(s.len() as int, p0, n),
                        )
                    } else if c == 'j' {
                        (VimMode::Normal, Seq::empty(), mem, Pending::Idle, down_spec(s, p0, n))
                    } else if c == 'k' {
                        (VimMode::Normal, Seq::empty(), mem, Pending::Idle, up_spec(s, p0, n))
                    } else if c == 'w' {
                        (
                            VimMode::Normal,
                            Seq::empty(),
                            mem,
                            Pending::Idle,
                            word_forward_n(s, p0, n, false),
                        )
                    } else if c == 'W' {
                        (
                            VimMode::Normal,
                            Seq::empty(),
                            mem,
                            Pending::Idle,
                            word_forward_n(s, p0, n, true),
                        )
                    } else if c == 'e' {
                        (
                            VimMode::Normal,
                            Seq::empty(),
                            mem,
                            Pending::Idle,
                            word_end_n(s, p0, n, false),
                        )
                    } else if c == 'E' {
                        (
                            VimMode::Normal,
                            Seq::empty(),
                            mem,
                            Pending::Idle,
                            word_end_n(s, p0, n, true),
                        )
                    } else if c == 'b' {
                        (
                            VimMode::Normal,
                            Seq::empty(),
                            mem,
                            Pending::Idle,
                            word_backward_n(s, p0, n, false),
                        )
                    } else if c == 'B' {
                        (
                            VimMode::Normal,
                            Seq::empty(),
                            mem,
                            Pending::Idle,
                            word_backward_n(s, p0, n, true),
                        )
                    } else if c == '$' {
                        (
                            VimMode::Normal,
                            Seq::empty(),
                            mem,
                            Pending::Idle,
                            line_end_pos_spec(s, p0),
                        )
                    } else if c == '^' {
                        (
                            VimMode::Normal,
                            Seq::empty(),
                            mem,
                            Pending::Idle,
                            first_non_blank_spec(s, p0),
                        )
                    } else if c == 'G' {
                        (
                            VimMode::Normal,
                            Seq::empty(),
                            mem,
                            Pending::Idle,
                            to_line_spec(
                                s,
                                if count.len() > 0 {
                                    n
                                } else {
                                    usize::MAX as int
                                },
                            ),
                        )
                    } else if c == '}' {
                        (
                            VimMode::Normal,
                            Seq::empty(),
                            mem,
                            Pending::Idle,
                            para_forward_n(s, p0, n),
                        )
                    } else if c == '{' {
                        (
                            VimMode::Normal,
                            Seq::empty(),
                            mem,
                            Pending::Idle,
                            para_backward_n(s, p0, n),
                        )
                    } else if c == 'f' {
                        (
                            VimMode::Normal,
                            count,
                            mem,
                            Pending::CharSearch(CharSearchDirection::Forward, CharSearchType::To),
                            p0,
                        )
                    } else if c == 'F' {
                        (
                            VimMode::Normal,
                            count,
                            mem,
                            Pending::CharSearch(CharSearchDirection::Backward, CharSearchType::To),
                            p0,
                        )
                    } else if c == 't' {
                        (
                            VimMode::Normal,
                            count,
                            mem,
                            Pending::CharSearch(
                                CharSearchDirection::Forward,
                                CharSearchType::Before,
                            ),
                            p0,
                        )
                    } else if c == 'T' {
                        (
                            VimMode::Normal,
                            count,
                            mem,
                            Pending::CharSearch(
                                CharSearchDirection::Backward,
                                CharSearchType::Before,
                            ),
                            p0,
                        )
                    } else if c == ';' {
                        match mem {
                            Some((tc, dir, kind)) => {
                                let r = find_char_spec(s, p0, tc, dir, kind, 1);
                                (VimMode::Normal, Seq::empty(), mem, Pending::Idle, r.0)
                            },
                            None => (VimMode::Normal, count, mem, Pending::Idle, p0),
                        }
                    } else if c == ',' {
                        match mem {
                            Some((tc, dir, kind)) => {
                                let r = find_char_spec(s, p0, tc, reverse_dir_spec(dir), kind, 1);
                                (VimMode::Normal, Seq::empty(), mem, Pending::Idle, r.0)
                            },
                            None => (VimMode::Normal, count, mem, Pending::Idle, p0),
                        }
                    } else {
                        (VimMode::Normal, count, mem, Pending::Idle, p0)
                    }
                },
            },
        },
    }
}

/// The state after a whole batch of events, applied in order.
pub open spec fn st_steps(
    mode: VimMode,
    count: Seq<char>,
    mem: Option<(char, CharSearchDirection, CharSearchType)>,
    pend: Pending,
    evs: Seq<VimEvent>,
    s: Seq<char>,
    p: int,
) -> (VimMode, Seq<char>, Option<(char, CharSearchDirection, CharSearchType)>, Pending, int)
    decreases evs.len(),
{
    if evs.len() == 0 {
        (mode, count, mem, pend, p)
    } else {
        let r = st_step(mode, count, mem, pend, evs[0], s, p);
        st_steps(r.0, r.1, r.2, r.3, evs.skip(1), s, r.4)
    }
}

impl VimState {
    /// Feed one input event to the engine: the cursor is clamped into
    /// the buffer, then the machine takes exactly the `st_step`
    /// transition.
    pub fn handle_event(&mut self, ev: VimEvent, text: &str, cursor_pos: &mut usize)
        ensures
            ({
                let r = st_step(
                    old(self).mode,
                    old(self).count_buffer@,
                    old(self).last_char_search,
                    old(self).pending,
                    ev,
                    text@,
                    *old(cursor_pos) as int,
                );
                final(self).mode == r.0 && final(self).count_buffer@ == r.1
                    && final(self).last_char_search == r.2 && final(self).pending == r.3
                    && *final(cursor_pos) as int == r.4
            }),
            *final(cursor_pos) <= text@.len(),
    {
        let n = text.unicode_len();
        if *cursor_pos > n {
            *cursor_pos = n;
        }
        match self.mode {
            VimMode::Insert => {
                match ev {
                    VimEvent::Escape => {
                        self.mode = VimMode::Normal;
                        if *cursor_pos > 0 {
                            *cursor_pos = *cursor_pos - 1;
                        }
                    },
                    VimEvent::Char(_) => {},
                }
            },
            VimMode::Normal => {
                match ev {
                    VimEvent::Escape => {
                        self.count_buffer = String::new();
                        self.pending = Pending::Idle;
                    },
                    VimEvent::Char(c) => {
                        match self.pending {
                            Pending::CharSearch(dir, kind) => {
                                let count = self.get_count();
                                self.find_char(text, cursor_pos, c, dir, kind, count);
                                self.count_buffer = String::new();
                                self.pending = Pending::Idle;
                            },
                            Pending::Idle => {
                                self.dispatch_normal_key(c, text, cursor_pos);
                            },
                        }
                    },
                }
            },
        }
    }

    /// One Normal-mode key with nothing pending.
    fn dispatch_normal_key(&mut self, c: char, text: &str, cursor_pos: &mut usize)
        requires
            old(self).mode == VimMode::Normal,
            old(self).pending == Pending::Idle,
            *old(cursor_pos) <= text@.len(),
        ensures
            ({
                let r = st_step(
                    VimMode::Normal,
                    old(self).count_buffer@,
                    old(self).last_char_search,
                    Pending::Idle,
                    VimEvent::Char(c),
                    text@,
                    *old(cursor_pos) as int,
                );
                final(self).mode == r.0 && final(self).count_buffer@ == r.1
                    && final(self).last_char_search == r.2 && final(self).pending == r.3
                    && *final(cursor_pos) as int == r.4
            }),
            *final(cursor_pos) <= text@.len(),
    {
        let count = self.get_count();
        let has_count = self.count_buffer.as_str().unicode_len() > 0;
        if c == 'i' {
            self.mode = VimMode::Insert;
            self.count_buffer = String::new();
        } else if (c == '1' || c == '2' || c == '3' || c == '4' || c == '5' || c == '6' || c == '7'
            || c == '8' || c == '9') || (c == '0' && has_count) {
            push_digit(&mut self.count_buffer, c);
        } else if c == '0' {
            self.move_line_start(text, cursor_pos);
        } else if c == 'h' {
            self.move_left(text, cursor_pos, count);
            self.count_buffer = String::new();
        } else if c == 'l' {
            self.move_right(text, cursor_pos, count);
            self.count_buffer = String::new();
        } else if c == 'j' {
            self.move_down(text, cursor_pos, count);
            self.count_buffer = String::new();
        } else if c == 'k' {
            self.move_up(text, cursor_pos, count);
            self.count_buffer = String::new();
        } else if c == 'w' {
            self.move_word_forward(text, cursor_pos, count, false);
            self.count_buffer = String::new();
        } else if c == 'W' {
            self.move_word_forward(text, cursor_pos, count, true);
            self.count_buffer = String::new();
        } else if c == 'e' {
            self.move_word_end(text, cursor_pos, count, false);
            self.count_buffer = String::new();
        } else if c == 'E' {
            self.move_word_end(text, cursor_pos, count, true);
            self.count_buffer = String::new();
        } else if c == 'b' {
            self.move_word_backward(text, cursor_pos, count, false);
            self.count_buffer = String::new();
        } else if c == 'B' {
            self.move_word_backward(text, cursor_pos, count, true);
            self.count_buffer = String::new();
        } else if c == '$' {
            self.move_line_end(text, cursor_pos);
            self.count_buffer = String::new();
        } else if c == '^' {
            self.move_first_non_blank(text, cursor_pos);
            self.count_buffer = String::new();
        } else if c == 'G' {
            if has_count {
                self.move_to_line(text, cursor_pos, count);
            } else {
                self.move_to_line(text, cursor_pos, usize::MAX);
            }
            self.count_buffer = String::new();
        } else if c == '}' {
            self.move_paragraph_forward(text, cursor_pos, count);
            self.count_buffer = String::new();
        } else if c == '{' {
            self.move_paragraph_backward(text, cursor_pos, count);
            self.count_buffer = String::new();
        } else if c == 'f' {
            self.pending = Pending::CharSearch(CharSearchDirection::Forward, CharSearchType::To);
        } else if c == 'F' {
            self.pending = Pending::CharSearch(CharSearchDirection::Backward, CharSearchType::To);
        } else if c == 't' {
            self.pending = Pending::CharSearch(
                CharSearchDirection::Forward,
                CharSearchType::Before,
            );
        } else if c == 'T' {
            self.pending = Pending::CharSearch(
                CharSearchDirection::Backward,
                CharSearchType::Before,
            );
        } else if c == ';' {
            match self.last_char_search {
                Some((tc, dir, kind)) => {
                    let saved = self.last_char_search;
                    self.find_char(text, cursor_pos, tc, dir, kind, 1);
                    self.last_char_search = saved;
                    self.count_buffer = String::new();
                },
                None => {},
            }
        } else if c == ',' {
            match self.last_char_search {
                Some((tc, dir, kind)) => {
                    let rd = match dir {
                        CharSearchDirection::Forward => CharSearchDirection::Backward,
                        CharSearchDirection::Backward => CharSearchDirection::Forward,
                    };
                    let saved = self.last_char_search;
                    self.find_char(text, cursor_pos, tc, rd, kind, 1);
                    self.last_char_search = saved;
                    self.count_buffer = String::new();
                },
                None => {},
            }
        } else {
        }
    }

    /// Feed one interaction tick's worth of input events to the engine,
    /// in occurrence order, against the current buffer snapshot.  The
    /// cursor is mutated in place and never leaves `[0, len]`; the
    /// buffer itself is never touched.
    pub fn handle_input(&mut self, events: &Vec<VimEvent>, text: &str, cursor_pos: &mut usize)
        ensures
            ({
                let p0 = if *old(cursor_pos) <= text@.len() {
                    *old(cursor_pos) as int
                } else {
                    text@.len() as int
                };
                let r = st_steps(
                    old(self).mode,
                    old(self).count_buffer@,
                    old(self).last_char_search,
                    old(self).pending,
                    events@,
                    text@,
                    p0,
                );
                final(self).mode == r.0 && final(self).count_buffer@ == r.1
                    && final(self).last_char_search == r.2 && final(self).pending == r.3
                    && *final(cursor_pos) as int == r.4
            }),
            *final(cursor_pos) <= text@.len(),
    {
        let n = text.unicode_len();
        if *cursor_pos > n {
            *cursor_pos = n;
        }
        let ghost m0 = self.mode;
        let ghost c0 = self.count_buffer@;
        let ghost mem0 = self.last_char_search;
        let ghost pd0 = self.pending;
        let ghost p0 = *cursor_pos as int;
        let len = events.len();
        let mut i: usize = 0;
        proof {
            assert(events@.skip(0) =~= events@);
        }
        while i < len
            invariant
                i <= len == events@.len(),
                *cursor_pos <= text@.len(),
                st_steps(m0, c0, mem0, pd0, events@, text@, p0) == st_steps(
                    self.mode,
                    self.count_buffer@,
                    self.last_char_search,
                    self.pending,
                    events@.skip(i as int),
                    text@,
                    *cursor_pos as int,
                ),
            decreases len - i,
        {
            let ev = events[i];
            proof {
                assert(events@.skip(i as int)[0] == events@[i as int]);
                assert(events@.skip(i as int).skip(1) =~= events@.skip(i as int + 1));
            }
            self.handle_event(ev, text, cursor_pos);
            i = i + 1;
        }
        proof {
            assert(events@.skip(len as int) =~= Seq::<VimEvent>::empty());
        }
    }
}

} // verus!
