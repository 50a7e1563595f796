//! Keys and the shared list-navigation keymap.
//!
//! Every scrollable list (file picker, menus, playlist picker) routes cursor
//! movement through [`list_move`] so the keys behave identically everywhere.
use vstd::prelude::*;

verus! {

/// A key press, as the terminal reports it.
#[derive(Debug, Clone, Copy, PartialEq, Eq, Structural)]
pub enum KeyCode {
    Backspace,
    Enter,
    Left,
    Right,
    Up,
    Down,
    Home,
    End,
    PageUp,
    PageDown,
    Tab,
    BackTab,
    Delete,
    Esc,
    Char(char),
    /// Any key the app has no binding for.
    Other,
}

/// Modifier keys held with a key press.
#[derive(Debug, Clone, Copy, PartialEq, Eq, Structural)]
pub struct KeyModifiers {
    pub ctrl: bool,
}

/// Rows moved by `PageUp` / `PageDown`.
pub const PAGE: usize = 10;

/// Where a navigation key moves a cursor over `len` items, or `None` when
/// `code` is not a navigation key.
pub open spec fn list_move_spec(code: KeyCode, cursor: int, len: int) -> Option<int> {
    let last = if len > 0 {
        len - 1
    } else {
        0
    };
    let min = |a: int, b: int|
        if a < b {
            a
        } else {
            b
        };
    let down = |n: int| min(cursor + n, last);
    let up = |n: int|
        if cursor >= n {
            cursor - n
        } else {
            0
        };
    match code {
        KeyCode::Char('j') | KeyCode::Down => Some(down(1)),
        KeyCode::Char('k') | KeyCode::Up => Some(up(1)),
        KeyCode::Char('g') | KeyCode::Home => Some(0),
        KeyCode::Char('G') | KeyCode::End => Some(last),
        KeyCode::PageDown => Some(down(PAGE as int)),
        KeyCode::PageUp => Some(up(PAGE as int)),
        _ => None,
    }
}

/// Maps a navigation key to the new cursor index over a list of `len` items.
///
/// Returns `None` for keys that are not list navigation, so callers can fall
/// through to their own bindings.  Supported keys (all clamped to range):
/// `j`/`Down`, `k`/`Up`, `g`/`Home` (top), `G`/`End` (bottom),
/// `PageDown`, `PageUp`.
pub fn list_move(code: KeyCode, cursor: usize, len: usize) -> (r: Option<usize>)
    requires
        cursor + PAGE <= usize::MAX,
    ensures
        r matches Some(t) ==> list_move_spec(code, cursor as int, len as int) == Some(t as int),
        r is None <==> list_move_spec(code, cursor as int, len as int) is None,
{
    let last = if len > 0 {
        len - 1
    } else {
        0
    };
    let target = match code {
        KeyCode::Char('j') | KeyCode::Down => {
            if cursor + 1 < last {
                cursor + 1
            } else {
                last
            }
        },
        KeyCode::Char('k') | KeyCode::Up => {
            if cursor >= 1 {
                cursor - 1
            } else {
                0
            }
        },
        KeyCode::Char('g') | KeyCode::Home => 0,
        KeyCode::Char('G') | KeyCode::End => last,
        KeyCode::PageDown => {
            if cursor + PAGE < last {
                cursor + PAGE
            } else {
                last
            }
        },
        KeyCode::PageUp => {
            if cursor >= PAGE {
                cursor - PAGE
            } else {
                0
            }
        },
        _ => {
            return None;
        },
    };
    Some(target)
}

/// On a list of `len` rows with the cursor on row `c`: one step or a page
/// down moves that many rows, stopping at the last; one step or a page up
/// moves that many rows, stopping at the first; Home and End go to the
/// ends.  A step or page down that stays inside the list is undone by the
/// same step or page up.
pub proof fn lemma_list_moves(c: int, len: int)
    requires
        0 <= c < len,
    ensures
        list_move_spec(KeyCode::Down, c, len) == Some(if c + 1 <= len - 1 { c + 1 } else { len - 1 }),
        list_move_spec(KeyCode::Up, c, len) == Some(if c >= 1 { c - 1 } else { 0 }),
        list_move_spec(KeyCode::PageDown, c, len) == Some(
            if c + PAGE <= len - 1 { c + PAGE } else { len - 1 },
        ),
        list_move_spec(KeyCode::PageUp, c, len) == Some(if c >= PAGE { c - PAGE } else { 0 }),
        list_move_spec(KeyCode::Home, c, len) == Some(0int),
        list_move_spec(KeyCode::End, c, len) == Some(len - 1),
        list_move_spec(KeyCode::Char('j'), c, len) == list_move_spec(KeyCode::Down, c, len),
        list_move_spec(KeyCode::Char('k'), c, len) == list_move_spec(KeyCode::Up, c, len),
        list_move_spec(KeyCode::Char('g'), c, len) == list_move_spec(KeyCode::Home, c, len),
        list_move_spec(KeyCode::Char('G'), c, len) == list_move_spec(KeyCode::End, c, len),
        c + 1 < len ==> list_move_spec(KeyCode::Up, list_move_spec(KeyCode::Down, c, len)->0, len)
            == Some(c),
        c + PAGE < len ==> list_move_spec(
            KeyCode::PageUp,
            list_move_spec(KeyCode::PageDown, c, len)->0,
            len,
        ) == Some(c),
{
}

} // verus!
