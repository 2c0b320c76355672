//! The chat screen's state: the message list and its scrolling, the input
//! line with its cursor, the menu, and the progress of transfers. Drawing
//! happens elsewhere; this is what the drawing reads and what keys change.

use vstd::prelude::*;
use crate::storage::MessageDirection;
use crate::text::{chars_of, push_char, push_chars, string_of};

verus! {

pub struct ChatMessage {
    pub direction: MessageDirection,
    pub content: String,
    pub timestamp: String,
}

pub struct TransferProgress {
    pub name: String,
    pub size: u64,
    pub transferred: u64,
}

/// The percentage done: 100 for an empty file, else rounded down and
/// never over 100.
pub open spec fn percent(size: u64, transferred: u64) -> int {
    if size == 0 {
        100
    } else if (transferred * 100) / (size as int) > 100 {
        100
    } else {
        (transferred * 100) / (size as int)
    }
}

/// How many of `width` cells a progress bar fills.
pub open spec fn filled(size: u64, transferred: u64, width: usize) -> int {
    if size == 0 || transferred >= size {
        width as int
    } else {
        (width * transferred) / (size as int)
    }
}

impl TransferProgress {
    pub fn pct(&self) -> (r: u16)
        ensures
            r == percent(self.size, self.transferred),
    {
        if self.size == 0 {
            100
        } else {
            let p = (self.transferred as u128) * 100 / (self.size as u128);
            if p > 100 {
                100
            } else {
                p as u16
            }
        }
    }

    /// The cells of a bar `width` wide that show the progress.
    pub fn filled_cells(&self, width: usize) -> (r: usize)
        ensures
            r == filled(self.size, self.transferred, width),
            r <= width,
    {
        if self.size == 0 || self.transferred >= self.size {
            width
        } else {
            let w = width as u128;
            let t = self.transferred as u128;
            let s = self.size as u128;
            assert(w * t <= w * s && w * s <= 0xffff_ffff_ffff_ffffu128 * 0xffff_ffff_ffff_ffffu128)
                by (nonlinear_arith)
                requires
                    t < s,
                    w <= 0xffff_ffff_ffff_ffffu128,
                    s <= 0xffff_ffff_ffff_ffffu128,
            ;
            let prod = w * t;
            assert(prod / s <= w) by (nonlinear_arith)
                requires
                    prod <= w * s,
                    s > 0,
            ;
            (prod / s) as usize
        }
    }
}

/// A key press, as the screen sees it.
#[derive(Debug, Clone, Copy, PartialEq, Eq, Structural)]
pub enum KeyCode {
    Char(char),
    Enter,
    Backspace,
    Delete,
    Left,
    Right,
    Home,
    End,
    PageUp,
    PageDown,
    Up,
    Down,
    Esc,
    Other,
}

/// A key event: the key, its modifiers, and whether it is a press (not a
/// release or repeat).
#[derive(Debug, Clone, Copy, PartialEq, Eq, Structural)]
pub struct Key {
    pub code: KeyCode,
    pub ctrl: bool,
    pub alt: bool,
    pub press: bool,
}

pub struct App {
    pub messages: Vec<ChatMessage>,
    pub input: String,
    /// The cursor in `input`, counted in characters.
    pub cursor_position: usize,
    pub status: String,
    pub should_quit: bool,
    /// The first message shown.
    pub scroll_offset: usize,
    /// How many messages the view shows; the drawing code sets it.
    pub visible_height: usize,
    pub show_menu: bool,
    pub send_progress: Option<TransferProgress>,
    pub recv_progress: Option<TransferProgress>,
}

/// What keys act on.
pub struct ScreenView {
    pub input: Seq<char>,
    pub cursor: int,
    pub should_quit: bool,
    pub show_menu: bool,
    pub scroll_offset: int,
    pub visible_height: int,
    pub n_messages: int,
    pub receiving: bool,
}

pub open spec fn send_command() -> Seq<char> {
    seq!['/', 's', 'e', 'n', 'd', ' ']
}

pub open spec fn scrolled_up(offset: int, n: int) -> int {
    if offset >= n {
        offset - n
    } else {
        0
    }
}

/// The largest offset that still fills the view.
pub open spec fn max_offset(total: int, visible: int) -> int {
    if total > visible {
        total - visible
    } else {
        0
    }
}

pub open spec fn scrolled_down(offset: int, n: int, total: int, visible: int) -> int {
    if offset + n < max_offset(total, visible) {
        offset + n
    } else {
        max_offset(total, visible)
    }
}

/// The offset that shows the newest messages.
pub open spec fn bottom_offset(total: int, visible: int) -> int {
    if total > visible && visible > 0 {
        total - visible
    } else {
        0
    }
}

pub open spec fn page(visible: int) -> int {
    if visible > 1 {
        visible
    } else {
        1
    }
}

/// The screen after a key, and the line it submits, if any.
pub open spec fn key_step(s: ScreenView, k: Key) -> (ScreenView, Option<Seq<char>>) {
    if !k.press {
        (s, None)
    } else if k.code == KeyCode::Char('m') && k.alt {
        (ScreenView { show_menu: !s.show_menu, ..s }, None)
    } else if s.show_menu && !s.receiving {
        match k.code {
            KeyCode::Esc => (ScreenView { show_menu: false, ..s }, None),
            KeyCode::Char('q') | KeyCode::Char('Q') | KeyCode::Enter => (
                ScreenView { should_quit: true, ..s },
                None,
            ),
            KeyCode::Char('s') | KeyCode::Char('S') => (
                ScreenView { show_menu: false, input: send_command(), cursor: 6, ..s },
                None,
            ),
            _ => (s, None),
        }
    } else {
        match k.code {
            KeyCode::Char(c) => if k.ctrl && (c == 'c' || c == 'd') {
                (ScreenView { should_quit: true, ..s }, None)
            } else {
                (
                    ScreenView {
                        input: s.input.subrange(0, s.cursor) + seq![c] + s.input.subrange(
                            s.cursor,
                            s.input.len() as int,
                        ),
                        cursor: s.cursor + 1,
                        ..s
                    },
                    None,
                )
            },
            KeyCode::Enter => if s.input.len() == 0 {
                (s, None)
            } else {
                (ScreenView { input: Seq::empty(), cursor: 0, ..s }, Some(s.input))
            },
            KeyCode::Backspace => if s.cursor > 0 {
                (
                    ScreenView {
                        input: s.input.subrange(0, s.cursor - 1) + s.input.subrange(
                            s.cursor,
                            s.input.len() as int,
                        ),
                        cursor: s.cursor - 1,
                        ..s
                    },
                    None,
                )
            } else {
                (s, None)
            },
            KeyCode::Delete => if s.cursor < s.input.len() {
                (
                    ScreenView {
                        input: s.input.subrange(0, s.cursor) + s.input.subrange(
                            s.cursor + 1,
                            s.input.len() as int,
                        ),
                        ..s
                    },
                    None,
                )
            } else {
                (s, None)
            },
            KeyCode::Left => if s.cursor > 0 {
                (ScreenView { cursor: s.cursor - 1, ..s }, None)
            } else {
                (s, None)
            },
            KeyCode::Right => if s.cursor < s.input.len() {
                (ScreenView { cursor: s.cursor + 1, ..s }, None)
            } else {
                (s, None)
            },
            KeyCode::Home => (ScreenView { cursor: 0, ..s }, None),
            KeyCode::End => (ScreenView { cursor: s.input.len() as int, ..s }, None),
            KeyCode::PageUp => (
                ScreenView {
                    scroll_offset: scrolled_up(s.scroll_offset, page(s.visible_height)),
                    ..s
                },
                None,
            ),
            KeyCode::PageDown => (
                ScreenView {
                    scroll_offset: scrolled_down(
                        s.scroll_offset,
                        page(s.visible_height),
                        s.n_messages,
                        s.visible_height,
                    ),
                    ..s
                },
                None,
            ),
            KeyCode::Up => (
                ScreenView { scroll_offset: scrolled_up(s.scroll_offset, 1), ..s },
                None,
            ),
            KeyCode::Down => (
                ScreenView {
                    scroll_offset: scrolled_down(s.scroll_offset, 1, s.n_messages, s.visible_height),
                    ..s
                },
                None,
            ),
            _ => (s, None),
        }
    }
}

pub open spec fn opt_view(o: Option<String>) -> Option<Seq<char>> {
    match o {
        Some(s) => Some(s@),
        None => None,
    }
}

impl App {
    pub open spec fn screen(&self) -> ScreenView {
        ScreenView {
            input: self.input@,
            cursor: self.cursor_position as int,
            should_quit: self.should_quit,
            show_menu: self.show_menu,
            scroll_offset: self.scroll_offset as int,
            visible_height: self.visible_height as int,
            n_messages: self.messages@.len() as int,
            receiving: self.recv_progress is Some,
        }
    }

    /// The cursor stays within the input line.
    pub open spec fn wf(&self) -> bool {
        self.cursor_position <= self.input@.len()
    }

    pub fn new(status: &str) -> (r: App)
        ensures
            r.wf(),
            r.messages@.len() == 0,
            r.input@.len() == 0,
            r.cursor_position == 0,
            r.status@ == status@,
            !r.should_quit,
            !r.show_menu,
            r.send_progress is None,
            r.recv_progress is None,
            r.scroll_offset == 0,
            r.visible_height == 0,
    {
        App {
            messages: Vec::new(),
            input: String::new(),
            cursor_position: 0,
            status: status.to_owned(),
            should_quit: false,
            show_menu: false,
            scroll_offset: 0,
            visible_height: 0,
            send_progress: None,
            recv_progress: None,
        }
    }

    /// Appends a message and scrolls to show it.
    pub fn add_message(&mut self, direction: MessageDirection, content: String, timestamp: String)
        ensures
            final(self).messages@.len() == old(self).messages@.len() + 1,
            forall|i: int|
                0 <= i < old(self).messages@.len() ==> final(self).messages@[i] == old(
                    self,
                ).messages@[i],
            final(self).messages@.last().direction == direction,
            final(self).messages@.last().content@ == content@,
            final(self).messages@.last().timestamp@ == timestamp@,
            final(self).scroll_offset == bottom_offset(
                final(self).messages@.len() as int,
                old(self).visible_height as int,
            ),
            final(self).visible_height == old(self).visible_height,
            final(self).input == old(self).input,
            final(self).cursor_position == old(self).cursor_position,
            final(self).status == old(self).status,
            final(self).should_quit == old(self).should_quit,
            final(self).show_menu == old(self).show_menu,
            final(self).send_progress == old(self).send_progress,
            final(self).recv_progress == old(self).recv_progress,
    {
        self.messages.push(ChatMessage { direction, content, timestamp });
        self.scroll_to_bottom();
    }

    pub fn set_send_progress(&mut self, name: String, size: u64)
        ensures
            final(self).send_progress is Some,
            final(self).send_progress->Some_0.name@ == name@,
            final(self).send_progress->Some_0.size == size,
            final(self).send_progress->Some_0.transferred == 0,
            final(self).recv_progress == old(self).recv_progress,
            final(self).messages == old(self).messages,
            final(self).screen() == old(self).screen(),
            final(self).status == old(self).status,
    {
        self.send_progress = Some(TransferProgress { name, size, transferred: 0 });
    }

    pub fn update_send_progress(&mut self, sent: u64)
        ensures
            old(self).send_progress is None ==> final(self).send_progress == old(self).send_progress,
            old(self).send_progress is Some ==> final(self).send_progress is Some
                && final(self).send_progress->Some_0.transferred == sent
                && final(self).send_progress->Some_0.name == old(self).send_progress->Some_0.name
                && final(self).send_progress->Some_0.size == old(self).send_progress->Some_0.size,
            final(self).recv_progress == old(self).recv_progress,
            final(self).messages == old(self).messages,
            final(self).screen() == old(self).screen(),
            final(self).status == old(self).status,
    {
        match self.send_progress.take() {
            Some(p) => {
                self.send_progress = Some(
                    TransferProgress { name: p.name, size: p.size, transferred: sent },
                );
            },
            None => {},
        }
    }

    pub fn clear_send_progress(&mut self)
        ensures
            final(self).send_progress is None,
            final(self).recv_progress == old(self).recv_progress,
            final(self).messages == old(self).messages,
            final(self).screen() == old(self).screen(),
            final(self).status == old(self).status,
    {
        self.send_progress = None;
    }

    pub fn set_recv_progress(&mut self, name: String, size: u64)
        ensures
            final(self).recv_progress is Some,
            final(self).recv_progress->Some_0.name@ == name@,
            final(self).recv_progress->Some_0.size == size,
            final(self).recv_progress->Some_0.transferred == 0,
            final(self).send_progress == old(self).send_progress,
            final(self).messages == old(self).messages,
            final(self).screen() == (ScreenView { receiving: true, ..old(self).screen() }),
            final(self).status == old(self).status,
    {
        self.recv_progress = Some(TransferProgress { name, size, transferred: 0 });
    }

    pub fn update_recv_progress(&mut self, received: u64)
        ensures
            old(self).recv_progress is None ==> final(self).recv_progress == old(self).recv_progress,
            old(self).recv_progress is Some ==> final(self).recv_progress is Some
                && final(self).recv_progress->Some_0.transferred == received
                && final(self).recv_progress->Some_0.name == old(self).recv_progress->Some_0.name
                && final(self).recv_progress->Some_0.size == old(self).recv_progress->Some_0.size,
            final(self).send_progress == old(self).send_progress,
            final(self).messages == old(self).messages,
            final(self).screen() == old(self).screen(),
            final(self).status == old(self).status,
    {
        match self.recv_progress.take() {
            Some(p) => {
                self.recv_progress = Some(
                    TransferProgress { name: p.name, size: p.size, transferred: received },
                );
            },
            None => {},
        }
    }

    pub fn clear_recv_progress(&mut self)
        ensures
            final(self).recv_progress is None,
            final(self).send_progress == old(self).send_progress,
            final(self).messages == old(self).messages,
            final(self).screen() == (ScreenView { receiving: false, ..old(self).screen() }),
            final(self).status == old(self).status,
    {
        self.recv_progress = None;
    }

    /// Scrolls so that the newest messages are shown.
    pub fn scroll_to_bottom(&mut self)
        ensures
            final(self).scroll_offset == bottom_offset(
                old(self).messages@.len() as int,
                old(self).visible_height as int,
            ),
            final(self).screen() == (ScreenView {
                scroll_offset: final(self).scroll_offset as int,
                ..old(self).screen()
            }),
            final(self).messages == old(self).messages,
            final(self).status == old(self).status,
            final(self).send_progress == old(self).send_progress,
            final(self).recv_progress == old(self).recv_progress,
            final(self).input == old(self).input,
            final(self).cursor_position == old(self).cursor_position,
            final(self).should_quit == old(self).should_quit,
            final(self).show_menu == old(self).show_menu,
            final(self).visible_height == old(self).visible_height,
    {
        let total = self.messages.len();
        if total > self.visible_height && self.visible_height > 0 {
            self.scroll_offset = total - self.visible_height;
        } else {
            self.scroll_offset = 0;
        }
    }

    pub fn scroll_up(&mut self, n: usize)
        ensures
            final(self).screen() == (ScreenView {
                scroll_offset: scrolled_up(old(self).scroll_offset as int, n as int),
                ..old(self).screen()
            }),
            final(self).messages == old(self).messages,
            final(self).status == old(self).status,
            final(self).send_progress == old(self).send_progress,
            final(self).recv_progress == old(self).recv_progress,
    {
        if self.scroll_offset >= n {
            self.scroll_offset = self.scroll_offset - n;
        } else {
            self.scroll_offset = 0;
        }
    }

    pub fn scroll_down(&mut self, n: usize)
        ensures
            final(self).screen() == (ScreenView {
                scroll_offset: scrolled_down(
                    old(self).scroll_offset as int,
                    n as int,
                    old(self).messages@.len() as int,
                    old(self).visible_height as int,
                ),
                ..old(self).screen()
            }),
            final(self).messages == old(self).messages,
            final(self).status == old(self).status,
            final(self).send_progress == old(self).send_progress,
            final(self).recv_progress == old(self).recv_progress,
    {
        let total = self.messages.len();
        let max = if total > self.visible_height {
            total - self.visible_height
        } else {
            0
        };
        if self.scroll_offset < max && n < max - self.scroll_offset {
            self.scroll_offset = self.scroll_offset + n;
        } else {
            self.scroll_offset = max;
        }
    }

    /// Applies one key to the screen; Enter on a non-empty input line
    /// submits it.
    pub fn handle_key(&mut self, key: Key) -> (r: Option<String>)
        requires
            old(self).wf(),
            old(self).input@.len() < usize::MAX,
        ensures
            final(self).wf(),
            (final(self).screen(), opt_view(r)) == key_step(old(self).screen(), key),
            final(self).messages == old(self).messages,
            final(self).status == old(self).status,
            final(self).send_progress == old(self).send_progress,
            final(self).recv_progress == old(self).recv_progress,
    {
        if !key.press {
            return None;
        }
        if key.code == KeyCode::Char('m') && key.alt {
            self.show_menu = !self.show_menu;
            return None;
        }
        if self.show_menu && self.recv_progress.is_none() {
            match key.code {
                KeyCode::Esc => {
                    self.show_menu = false;
                },
                KeyCode::Char('q') | KeyCode::Char('Q') | KeyCode::Enter => {
                    self.should_quit = true;
                },
                KeyCode::Char('s') | KeyCode::Char('S') => {
                    self.show_menu = false;
                    let cmd = vec!['/', 's', 'e', 'n', 'd', ' '];
                    self.input = string_of(&cmd);
                    assert(self.input@ =~= send_command());
                    self.cursor_position = 6;
                },
                _ => {},
            }
            return None;
        }
        match key.code {
            KeyCode::Char(c) => {
                if key.ctrl && (c == 'c' || c == 'd') {
                    self.should_quit = true;
                } else {
                    let cs = chars_of(self.input.as_str());
                    let mut edited = String::new();
                    push_chars(&mut edited, &cs, 0, self.cursor_position);
                    push_char(&mut edited, c);
                    push_chars(&mut edited, &cs, self.cursor_position, cs.len());
                    assert(edited@ =~= cs@.subrange(0, self.cursor_position as int) + seq![c]
                        + cs@.subrange(self.cursor_position as int, cs@.len() as int));
                    self.input = edited;
                    self.cursor_position = self.cursor_position + 1;
                }
                None
            },
            KeyCode::Enter => {
                if self.input.unicode_len() == 0 {
                    return None;
                }
                let cs = chars_of(self.input.as_str());
                let text = string_of(&cs);
                self.input = String::new();
                self.cursor_position = 0;
                Some(text)
            },
            KeyCode::Backspace => {
                if self.cursor_position > 0 {
                    let cs = chars_of(self.input.as_str());
                    let mut edited = String::new();
                    push_chars(&mut edited, &cs, 0, self.cursor_position - 1);
                    push_chars(&mut edited, &cs, self.cursor_position, cs.len());
                    assert(edited@ =~= cs@.subrange(0, self.cursor_position - 1) + cs@.subrange(
                        self.cursor_position as int,
                        cs@.len() as int,
                    ));
                    self.input = edited;
                    self.cursor_position = self.cursor_position - 1;
                }
                None
            },
            KeyCode::Delete => {
                let cs = chars_of(self.input.as_str());
                if self.cursor_position < cs.len() {
                    let mut edited = String::new();
                    push_chars(&mut edited, &cs, 0, self.cursor_position);
                    push_chars(&mut edited, &cs, self.cursor_position + 1, cs.len());
                    assert(edited@ =~= cs@.subrange(0, self.cursor_position as int) + cs@.subrange(
                        self.cursor_position + 1,
                        cs@.len() as int,
                    ));
                    self.input = edited;
                }
                None
            },
            KeyCode::Left => {
                if self.cursor_position > 0 {
                    self.cursor_position = self.cursor_position - 1;
                }
                None
            },
            KeyCode::Right => {
                if self.cursor_position < self.input.unicode_len() {
                    self.cursor_position = self.cursor_position + 1;
                }
                None
            },
            KeyCode::Home => {
                self.cursor_position = 0;
                None
            },
            KeyCode::End => {
                self.cursor_position = self.input.unicode_len();
                None
            },
            KeyCode::PageUp => {
                let h = if self.visible_height > 1 {
                    self.visible_height
                } else {
                    1
                };
                self.scroll_up(h);
                None
            },
            KeyCode::PageDown => {
                let h = if self.visible_height > 1 {
                    self.visible_height
                } else {
                    1
                };
                self.scroll_down(h);
                None
            },
            KeyCode::Up => {
                self.scroll_up(1);
                None
            },
            KeyCode::Down => {
                self.scroll_down(1);
                None
            },
            _ => None,
        }
    }
}

} // verus!