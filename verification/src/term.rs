//! What the watch waits for: keys and resizes, by what they mean.

use crate::model::opt_string;
use uncurses::event::{Key as SurfaceKey, KeyCode as SurfaceKeyCode, KeyModifiers};
use vstd::prelude::*;

verus! {

/// Which key was pressed.
#[derive(Copy, Clone, Debug, PartialEq, Eq, Structural)]
pub enum KeyCode {
    Char(char),
    Up,
    Down,
    Backspace,
    Tab,
    Enter,
    Space,
    Escape,
    /// Any other key.
    Other,
}

/// A pressed key: its code, the modifier bits, and the text it typed.
#[derive(Debug)]
pub struct Key {
    pub code: KeyCode,
    pub modifiers: u16,
    pub text: Option<String>,
}

/// The modifier bit of the Alt key.
pub const ALT: u16 = 2;

/// The modifier bit of the Control key.
pub const CTRL: u16 = 4;

/// Whether a key is the one that a binding names.
pub uninterp spec fn key_matches(
    code: KeyCode,
    modifiers: u16,
    text: Option<Seq<char>>,
    binding: Seq<char>,
) -> bool;

/// `uncurses::event::Key::matches`: whether a key is the one that a binding such
/// as `ctrl+c` names, a function of the key and the binding. A key that typed
/// just the text of the binding always is.
#[verifier::external_body]
fn matches(key: &Key, binding: &str) -> (r: bool)
    ensures
        r == key_matches(key.code, key.modifiers, opt_string(key.text), binding@),
        opt_string(key.text) == Some(binding@) ==> r,
{
    let code = match key.code {
        KeyCode::Char(c) => SurfaceKeyCode::Char(c),
        KeyCode::Up => SurfaceKeyCode::Up,
        KeyCode::Down => SurfaceKeyCode::Down,
        KeyCode::Backspace => SurfaceKeyCode::Backspace,
        KeyCode::Tab => SurfaceKeyCode::Tab,
        KeyCode::Enter => SurfaceKeyCode::Enter,
        KeyCode::Space => SurfaceKeyCode::Space,
        KeyCode::Escape => SurfaceKeyCode::Escape,
        KeyCode::Other => SurfaceKeyCode::Find,
    };
    let mut k = SurfaceKey::new(code, KeyModifiers::from_bits_retain(key.modifiers));
    k.text = key.text.clone();
    k.matches(binding)
}

/// What a keypress or resize means outside the search prompt.
#[derive(Copy, Clone, Debug, PartialEq, Eq, Structural)]
pub enum Wait {
    /// An unbound key, or no input event.
    Ignore,
    /// Quit.
    Quit,
    /// Refresh now.
    Refresh,
    /// Toggle the help legend.
    ToggleHelp,
    /// Switch to the other view.
    SwitchView,
    /// Open the selected row in the browser.
    Open,
    /// Copy the link of the selected row.
    CopyLink,
    /// Copy every link of the section that the cursor is in.
    CopySection,
    /// Open the search prompt.
    Search,
    /// Clear an applied filter, or quit when there is none.
    Cancel,
    /// Move the cursor one row up.
    Up,
    /// Move the cursor one row down.
    Down,
    /// Move the cursor to the first row.
    Top,
    /// Move the cursor to the last row.
    Bottom,
    /// Move the cursor half a page up.
    HalfUp,
    /// Move the cursor half a page down.
    HalfDown,
    /// Suspend to the shell.
    Suspend,
    /// The terminal was resized to these columns and rows.
    Resize(u16, u16),
}

/// Which of the bindings outside the search prompt a key is.
#[derive(Copy, Clone, Debug, PartialEq, Eq, Structural)]
pub struct Bindings {
    pub quit: bool,
    pub cancel: bool,
    pub refresh: bool,
    pub help: bool,
    pub switch: bool,
    pub open: bool,
    pub copy_link: bool,
    pub copy_section: bool,
    pub search: bool,
    pub suspend: bool,
    pub down: bool,
    pub up: bool,
    pub top: bool,
    pub bottom: bool,
    pub half_down: bool,
    pub half_up: bool,
}

impl Key {
    /// Whether this key is the one that a binding names.
    pub open spec fn is(self, binding: Seq<char>) -> bool {
        key_matches(self.code, self.modifiers, opt_string(self.text), binding)
    }

    /// The bindings that this key is.
    pub open spec fn bound(self) -> Bindings {
        Bindings {
            quit: self.is("q"@) || self.is("Q"@) || self.is("ctrl+c"@),
            cancel: self.is("esc"@),
            refresh: self.is("r"@) || self.is("R"@),
            help: self.is("?"@),
            switch: self.is("tab"@),
            open: self.is("enter"@),
            copy_link: self.is("y"@),
            copy_section: self.is("Y"@),
            search: self.is("/"@),
            suspend: self.is("ctrl+z"@),
            down: self.is("j"@) || self.is("down"@),
            up: self.is("k"@) || self.is("up"@),
            top: self.is("g"@),
            bottom: self.is("G"@),
            half_down: self.is("ctrl+d"@),
            half_up: self.is("ctrl+u"@),
        }
    }

    /// The bindings that this key is. A binding tells upper from lower case, so
    /// those that do not matter list both.
    pub fn bindings(&self) -> (b: Bindings)
        ensures
            b == self.bound(),
            opt_string(self.text) == Some("q"@) ==> b.quit,
            opt_string(self.text) == Some("r"@) ==> b.refresh,
            opt_string(self.text) == Some("/"@) ==> b.search,
    {
        Bindings {
            quit: matches(self, "q") || matches(self, "Q") || matches(self, "ctrl+c"),
            cancel: matches(self, "esc"),
            refresh: matches(self, "r") || matches(self, "R"),
            help: matches(self, "?"),
            switch: matches(self, "tab"),
            open: matches(self, "enter"),
            copy_link: matches(self, "y"),
            copy_section: matches(self, "Y"),
            search: matches(self, "/"),
            suspend: matches(self, "ctrl+z"),
            down: matches(self, "j") || matches(self, "down"),
            up: matches(self, "k") || matches(self, "up"),
            top: matches(self, "g"),
            bottom: matches(self, "G"),
            half_down: matches(self, "ctrl+d"),
            half_up: matches(self, "ctrl+u"),
        }
    }
}

/// What a key means by the bindings that it is: the first of them in this order.
#[verifier::allow_in_spec]
pub fn action_of(b: Bindings) -> Wait
    returns
        (if b.quit {
            Wait::Quit
        } else if b.cancel {
            Wait::Cancel
        } else if b.refresh {
            Wait::Refresh
        } else if b.help {
            Wait::ToggleHelp
        } else if b.switch {
            Wait::SwitchView
        } else if b.open {
            Wait::Open
        } else if b.copy_link {
            Wait::CopyLink
        } else if b.copy_section {
            Wait::CopySection
        } else if b.search {
            Wait::Search
        } else if b.suspend {
            Wait::Suspend
        } else if b.down {
            Wait::Down
        } else if b.up {
            Wait::Up
        } else if b.top {
            Wait::Top
        } else if b.bottom {
            Wait::Bottom
        } else if b.half_down {
            Wait::HalfDown
        } else if b.half_up {
            Wait::HalfUp
        } else {
            Wait::Ignore
        }),
{
    if b.quit {
        Wait::Quit
    } else if b.cancel {
        Wait::Cancel
    } else if b.refresh {
        Wait::Refresh
    } else if b.help {
        Wait::ToggleHelp
    } else if b.switch {
        Wait::SwitchView
    } else if b.open {
        Wait::Open
    } else if b.copy_link {
        Wait::CopyLink
    } else if b.copy_section {
        Wait::CopySection
    } else if b.search {
        Wait::Search
    } else if b.suspend {
        Wait::Suspend
    } else if b.down {
        Wait::Down
    } else if b.up {
        Wait::Up
    } else if b.top {
        Wait::Top
    } else if b.bottom {
        Wait::Bottom
    } else if b.half_down {
        Wait::HalfDown
    } else if b.half_up {
        Wait::HalfUp
    } else {
        Wait::Ignore
    }
}

/// An input event.
#[derive(Debug)]
pub enum Input {
    /// A key was pressed.
    Press(Key),
    /// The terminal was resized to these columns and rows.
    Resize(u16, u16),
    /// Anything else.
    Other,
}

/// What an event means outside the search prompt.
pub open spec fn meaning(ev: Input) -> Wait {
    match ev {
        Input::Press(k) => action_of(k.bound()),
        Input::Resize(w, h) => Wait::Resize(w, h),
        Input::Other => Wait::Ignore,
    }
}

/// Classifies an event outside the search prompt.
pub fn classify(ev: &Input) -> (a: Wait)
    ensures
        a == meaning(*ev),
{
    match ev {
        Input::Press(k) => action_of(k.bindings()),
        Input::Resize(w, h) => Wait::Resize(*w, *h),
        Input::Other => Wait::Ignore,
    }
}

/// What an event means while the search prompt is open.
#[derive(Copy, Clone, Debug, PartialEq, Eq, Structural)]
pub enum SearchAction {
    /// An unbound key, or no input event.
    Ignore,
    /// A printable character to append to the query.
    Char(char),
    /// Drop the last query character.
    Backspace,
    /// Apply the filter and leave the prompt.
    Enter,
    /// Clear the filter and leave the prompt.
    Esc,
    /// Suspend to the shell.
    Suspend,
    /// The terminal was resized to these columns and rows.
    Resize(u16, u16),
}

/// What a key means while the search prompt is open, if `suspend` says whether
/// it is the suspend key: characters extend the query, everything else edits or
/// leaves it. Quit keys are not bound: `q` is a character to search for.
#[verifier::allow_in_spec]
pub fn search_action_of(code: KeyCode, modifiers: u16, suspend: bool) -> SearchAction
    returns
        (match code {
            KeyCode::Char(c) => if modifiers & (ALT | CTRL) == 0 {
                SearchAction::Char(c)
            } else if suspend {
                SearchAction::Suspend
            } else {
                SearchAction::Ignore
            },
            KeyCode::Space => SearchAction::Char(' '),
            KeyCode::Backspace => SearchAction::Backspace,
            KeyCode::Enter => SearchAction::Enter,
            KeyCode::Escape => SearchAction::Esc,
            _ => if suspend {
                SearchAction::Suspend
            } else {
                SearchAction::Ignore
            },
        }),
{
    match code {
        KeyCode::Char(c) => if modifiers & (ALT | CTRL) == 0 {
            SearchAction::Char(c)
        } else if suspend {
            SearchAction::Suspend
        } else {
            SearchAction::Ignore
        },
        KeyCode::Space => SearchAction::Char(' '),
        KeyCode::Backspace => SearchAction::Backspace,
        KeyCode::Enter => SearchAction::Enter,
        KeyCode::Escape => SearchAction::Esc,
        _ => if suspend {
            SearchAction::Suspend
        } else {
            SearchAction::Ignore
        },
    }
}

/// What an event means while the search prompt is open.
pub open spec fn search_meaning(ev: Input) -> SearchAction {
    match ev {
        Input::Press(k) => search_action_of(k.code, k.modifiers, k.is("ctrl+z"@)),
        Input::Resize(w, h) => SearchAction::Resize(w, h),
        Input::Other => SearchAction::Ignore,
    }
}

/// Classifies an event while the search prompt is open.
pub fn classify_search(ev: &Input) -> (a: SearchAction)
    ensures
        a == search_meaning(*ev),
{
    match ev {
        Input::Press(k) => search_action_of(k.code, k.modifiers, matches(k, "ctrl+z")),
        Input::Resize(w, h) => SearchAction::Resize(*w, *h),
        Input::Other => SearchAction::Ignore,
    }
}

/// A key does what it is bound to and nothing else: whatever an event does, a key
/// that is bound to it was pressed.
pub proof fn each_action_has_its_keys(ev: Input, k: Key, w: Wait)
    requires
        ev == Input::Press(k),
        call_ensures(classify, (&ev,), w),
    ensures
        w is Quit ==> k.is("q"@) || k.is("Q"@) || k.is("ctrl+c"@),
        w is Cancel ==> k.is("esc"@),
        w is Refresh ==> k.is("r"@) || k.is("R"@),
        w is ToggleHelp ==> k.is("?"@),
        w is SwitchView ==> k.is("tab"@),
        w is Open ==> k.is("enter"@),
        w is CopyLink ==> k.is("y"@),
        w is CopySection ==> k.is("Y"@),
        w is Search ==> k.is("/"@),
        w is Suspend ==> k.is("ctrl+z"@),
        w is Down ==> k.is("j"@) || k.is("down"@),
        w is Up ==> k.is("k"@) || k.is("up"@),
        w is Top ==> k.is("g"@),
        w is Bottom ==> k.is("G"@),
        w is HalfDown ==> k.is("ctrl+d"@),
        w is HalfUp ==> k.is("ctrl+u"@),
        !(w is Resize),
        w is Ignore ==> !k.is("q"@) && !k.is("Q"@) && !k.is("ctrl+c"@) && !k.is("esc"@) && !k.is("r"@) && !k.is("R"@) && !k.is("?"@) && !k.is("tab"@) && !k.is("enter"@) && !k.is("y"@) && !k.is("Y"@) && !k.is("/"@) && !k.is("ctrl+z"@) && !k.is("j"@) && !k.is("down"@) && !k.is("k"@) && !k.is("up"@) && !k.is("g"@) && !k.is("G"@) && !k.is("ctrl+d"@) && !k.is("ctrl+u"@),
{
}

/// A key that is bound does what it is bound to, where it is no key of another
/// action.
pub proof fn each_key_has_its_action(b: Bindings, w: Wait)
    requires
        call_ensures(action_of, (b,), w),
    ensures
        b.quit ==> w is Quit,
        b.cancel && !b.quit ==> w is Cancel,
        only(b, 1) ==> w is Quit,
        only(b, 2) ==> w is Cancel,
        only(b, 3) ==> w is Refresh,
        only(b, 4) ==> w is ToggleHelp,
        only(b, 5) ==> w is SwitchView,
        only(b, 6) ==> w is Open,
        only(b, 7) ==> w is CopyLink,
        only(b, 8) ==> w is CopySection,
        only(b, 9) ==> w is Search,
        only(b, 10) ==> w is Suspend,
        only(b, 11) ==> w is Down,
        only(b, 12) ==> w is Up,
        only(b, 13) ==> w is Top,
        only(b, 14) ==> w is Bottom,
        only(b, 15) ==> w is HalfDown,
        only(b, 16) ==> w is HalfUp,
        only(b, 0) ==> w is Ignore,
{
}

/// Whether of all bindings just the `n`-th is meant, or none where `n` is zero.
pub open spec fn only(b: Bindings, n: int) -> bool {
    &&& b.quit == (n == 1)
    &&& b.cancel == (n == 2)
    &&& b.refresh == (n == 3)
    &&& b.help == (n == 4)
    &&& b.switch == (n == 5)
    &&& b.open == (n == 6)
    &&& b.copy_link == (n == 7)
    &&& b.copy_section == (n == 8)
    &&& b.search == (n == 9)
    &&& b.suspend == (n == 10)
    &&& b.down == (n == 11)
    &&& b.up == (n == 12)
    &&& b.top == (n == 13)
    &&& b.bottom == (n == 14)
    &&& b.half_down == (n == 15)
    &&& b.half_up == (n == 16)
}

/// Every event has its meaning in the prompt too: a character without control or
/// alt is typed, quit keys among them, the space is a blank, and the editing keys
/// edit or leave the query.
pub proof fn the_prompt_takes_every_character(code: KeyCode, modifiers: u16, suspend: bool, a: SearchAction)
    requires
        call_ensures(search_action_of, (code, modifiers, suspend), a),
    ensures
        code matches KeyCode::Char(c) ==> (modifiers & (ALT | CTRL) == 0 ==> a
            == SearchAction::Char(c)),
        a matches SearchAction::Char(c) ==> (code == KeyCode::Char(c) && modifiers & (ALT | CTRL)
            == 0) || (code is Space && c == ' '),
        code is Space ==> a == SearchAction::Char(' '),
        a is Backspace <==> code is Backspace,
        a is Enter <==> code is Enter,
        a is Esc <==> code is Escape,
        a is Suspend ==> suspend,
        !(a is Resize),
{
}

/// A new size is passed on as it is, in the prompt and outside it, and what is
/// neither a key nor a new size means nothing.
pub proof fn a_resize_is_passed_on(ev: Input, w: Wait, a: SearchAction)
    requires
        call_ensures(classify, (&ev,), w),
        call_ensures(classify_search, (&ev,), a),
    ensures
        ev matches Input::Resize(x, y) ==> w == Wait::Resize(x, y) && a == SearchAction::Resize(x, y),
        ev is Other ==> w is Ignore && a is Ignore,
{
}

} // verus!
