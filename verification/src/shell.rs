use vstd::prelude::*;

use crate::text::{decimal, push_decimal, string_of};

verus! {

/// What a key press asks of the plain X11 shell.
#[derive(Debug, Clone, Copy, PartialEq, Eq, Structural)]
pub enum ShellCommand {
    Quit,
    ScrollDown,
    ScrollUp,
    Ignore,
}

/// The height of the menu bar, in pixels.
pub const MENU_HEIGHT: i32 = 30;

/// The width of the list of views on the left, in pixels.
pub const LIST_WIDTH: i32 = 200;

/// The height of one line of text, in pixels.
pub const ITEM_HEIGHT: i32 = 20;

/// The command of the first byte a key press produced: `q` quits, `j` or `J` scrolls
/// down, `k` or `K` scrolls up, anything else is ignored.
pub fn key_command(byte: u8) -> (r: ShellCommand)
    ensures
        byte == 113 ==> r == ShellCommand::Quit,
        (byte == 106 || byte == 74) ==> r == ShellCommand::ScrollDown,
        (byte == 107 || byte == 75) ==> r == ShellCommand::ScrollUp,
        !(byte == 113 || byte == 106 || byte == 74 || byte == 107 || byte == 75) ==> r
            == ShellCommand::Ignore,
{
    if byte == 113 {
        ShellCommand::Quit
    } else if byte == 106 || byte == 74 {
        ShellCommand::ScrollDown
    } else if byte == 107 || byte == 75 {
        ShellCommand::ScrollUp
    } else {
        ShellCommand::Ignore
    }
}

/// The number of content lines a window of `height` pixels shows: the height below
/// the top 50 pixels in lines of 20, at least one. A height beyond `i32::MAX` reads as
/// a negative one, which shows a single line.
pub open spec fn line_count(height: int) -> int {
    if 70 <= height <= i32::MAX {
        (height - 50) / 20
    } else {
        1
    }
}

/// The number of content lines a window of `height` pixels shows.
pub fn visible_line_count(height: u32) -> (r: usize)
    ensures
        r == line_count(height as int),
        r >= 1,
{
    let h: i64 = height as i64;
    if h > 2147483647 {
        return 1;
    }
    let lines: i64 = (h - 50) / 20;
    if lines < 1 {
        1
    } else {
        lines as usize
    }
}

/// The view a click at (`x`, `y`) picks in the list: below the menu bar and left of
/// the content, one view per line.
pub fn clicked_item(x: i32, y: i32) -> (r: Option<usize>)
    ensures
        (y >= MENU_HEIGHT && x < LIST_WIDTH) ==> r == Some(((y - 30) / 20) as usize),
        !(y >= MENU_HEIGHT && x < LIST_WIDTH) ==> r is None,
{
    if y >= MENU_HEIGHT && x < LIST_WIDTH {
        Some(((y - MENU_HEIGHT) / ITEM_HEIGHT) as usize)
    } else {
        None
    }
}

/// An event of the X11 shell's window.
pub enum ShellEvent {
    /// Part of the window was exposed; `count` more expose events follow.
    Expose { count: i32 },
    /// The window was resized.
    Configure { width: i32, height: i32 },
    /// A key was pressed; the first byte it produced, if any.
    Key { byte: Option<u8> },
    /// A mouse button was pressed at (`x`, `y`).
    Button { x: i32, y: i32 },
    /// A client message whose first datum is `atom`; `delete_atom` is the window
    /// manager's delete request.
    ClientMessage { atom: u64, delete_atom: u64 },
    /// Any other event.
    Other,
}

/// What the shell does for an event.
#[derive(Debug, Clone, Copy, PartialEq, Eq, Structural)]
pub enum ShellAction {
    /// Draw the window again.
    Redraw,
    /// Take the new size, at least one pixel each way, and draw again.
    Resize { width: u32, height: u32 },
    /// Scroll the content by one line (`true`: down) and draw again.
    Scroll { down: bool },
    /// Show list item `item` and draw again.
    Select { item: usize },
    /// Close the window and stop.
    Quit,
    /// Nothing.
    Ignore,
}

/// What the shell does for `event`: the last expose of a series redraws; a resize
/// takes the new size, each side at least one pixel; `q` quits, `j`/`J` and `k`/`K`
/// scroll; a click in the list selects an item; the delete request quits.
pub open spec fn shell_action(event: ShellEvent) -> ShellAction {
    match event {
        ShellEvent::Expose { count } => if count == 0 {
            ShellAction::Redraw
        } else {
            ShellAction::Ignore
        },
        ShellEvent::Configure { width, height } => ShellAction::Resize {
            width: (if width < 1 { 1 } else { width }) as u32,
            height: (if height < 1 { 1 } else { height }) as u32,
        },
        ShellEvent::Key { byte } => match byte {
            Some(b) => if b == 113 {
                ShellAction::Quit
            } else if b == 106 || b == 74 {
                ShellAction::Scroll { down: true }
            } else if b == 107 || b == 75 {
                ShellAction::Scroll { down: false }
            } else {
                ShellAction::Ignore
            },
            None => ShellAction::Ignore,
        },
        ShellEvent::Button { x, y } => if y >= 30 && x < 200 {
            ShellAction::Select { item: ((y - 30) / 20) as usize }
        } else {
            ShellAction::Ignore
        },
        ShellEvent::ClientMessage { atom, delete_atom } => if atom == delete_atom {
            ShellAction::Quit
        } else {
            ShellAction::Ignore
        },
        ShellEvent::Other => ShellAction::Ignore,
    }
}

/// The shell's decision for one event of its loop.
pub fn shell_step(event: &ShellEvent) -> (r: ShellAction)
    ensures
        r == shell_action(*event),
{
    match event {
        ShellEvent::Expose { count } => if *count == 0 {
            ShellAction::Redraw
        } else {
            ShellAction::Ignore
        },
        ShellEvent::Configure { width, height } => {
            let w: u32 = if *width < 1 { 1 } else { *width as u32 };
            let h: u32 = if *height < 1 { 1 } else { *height as u32 };
            ShellAction::Resize { width: w, height: h }
        },
        ShellEvent::Key { byte } => match byte {
            Some(b) => match key_command(*b) {
                ShellCommand::Quit => ShellAction::Quit,
                ShellCommand::ScrollDown => ShellAction::Scroll { down: true },
                ShellCommand::ScrollUp => ShellAction::Scroll { down: false },
                ShellCommand::Ignore => ShellAction::Ignore,
            },
            None => ShellAction::Ignore,
        },
        ShellEvent::Button { x, y } => match clicked_item(*x, *y) {
            Some(item) => ShellAction::Select { item },
            None => ShellAction::Ignore,
        },
        ShellEvent::ClientMessage { atom, delete_atom } => if *atom == *delete_atom {
            ShellAction::Quit
        } else {
            ShellAction::Ignore
        },
        ShellEvent::Other => ShellAction::Ignore,
    }
}

/// The content lines shown from `offset` on: from the offset, kept within the
/// content, to at most `visible` lines later.
pub fn visible_window(offset: usize, len: usize, visible: usize) -> (r: (usize, usize))
    requires
        (if offset < len { offset } else { len }) + visible <= usize::MAX,
    ensures
        r.0 == (if offset < len { offset } else { len }),
        r.1 == (if r.0 + visible < len { r.0 + visible } else { len as int }),
        r.0 <= r.1 <= len,
{
    let start = if offset < len { offset } else { len };
    let end = if start + visible < len { start + visible } else { len };
    (start, end)
}

/// The position shown under the content: `first/total`, counting lines from one.
pub fn scroll_indicator(start: usize, total: usize) -> (r: String)
    requires
        start < usize::MAX,
    ensures
        r@ == decimal((start + 1) as nat) + seq!['/'] + decimal(total as nat),
{
    let mut out: Vec<char> = Vec::new();
    push_decimal(&mut out, (start + 1) as u64);
    out.push('/');
    push_decimal(&mut out, total as u64);
    string_of(&out)
}

/// Each character of `s` that is not ASCII replaced by `?`.
pub open spec fn ascii_only(s: Seq<char>) -> Seq<char> {
    Seq::new(s.len(), |i: int| if (s[i] as u32) < 128 { s[i] } else { '?' })
}

/// The text as the X11 shell draws it: characters outside ASCII become `?`.
pub fn ascii_sanitized(text: &str) -> (r: String)
    ensures
        r@ == ascii_only(text@),
{
    let cs = crate::text::chars_of(text);
    let mut out: Vec<char> = Vec::new();
    let mut i: usize = 0;
    while i < cs.len()
        invariant
            i <= cs@.len(),
            cs@ == text@,
            out@ == ascii_only(cs@).subrange(0, i as int),
        decreases cs.len() - i,
    {
        let c = cs[i];
        if (c as u32) < 128 {
            out.push(c);
        } else {
            out.push('?');
        }
        i += 1;
        assert(out@ =~= ascii_only(cs@).subrange(0, i as int));
    }
    assert(ascii_only(cs@).subrange(0, cs@.len() as int) =~= ascii_only(cs@));
    string_of(&out)
}

} // verus!
