//! The wallpaper picker's control: pages, messages and keys.
use vstd::prelude::*;
use crate::text::{decimal, to_decimal};

verus! {

/// Number of thumbnail columns in the grid.
pub const COLUMNS: i32 = 3;

/// Where a chosen wallpaper is applied.
#[derive(Clone, Copy, PartialEq, Eq, Structural, Debug)]
pub enum Target {
    Desktop,
    Greeter,
}

/// The page the picker shows.
#[derive(Clone, Copy, PartialEq, Eq, Structural, Debug)]
pub enum Page {
    Grid,
    TargetChooser,
    Applying,
}

/// An event for the picker.
#[derive(Clone, Copy, PartialEq, Eq, Structural, Debug)]
pub enum Msg {
    /// Another instance asked to open or close the picker.
    Toggle,
    /// The wallpaper at this grid index was chosen.
    Confirm(usize),
    /// Apply the chosen wallpaper to this target.
    ApplyTarget(Target),
    /// Escape was pressed.
    Back,
    /// Applying ended, with success or not.
    ApplyFinished(bool),
}

/// What the picker's window is to do after a message.
#[derive(PartialEq, Eq, Debug)]
pub enum PickerAction {
    Nothing,
    /// Build and show the window; then report the wallpapers with `shown`.
    Show,
    /// Close the window and drop what it holds.
    Hide,
    /// Switch to the thumbnail grid.
    ShowGrid,
    /// Switch to the target chooser and focus its first button.
    ShowTargets,
    /// Apply the wallpaper at `path` to `target` in the background and
    /// report the outcome with `ApplyFinished`.
    Apply { path: String, target: Target },
}

/// The picker's state as the contracts see it.
pub struct PickerModel {
    pub open: bool,
    pub page: Page,
    pub selected_idx: usize,
    pub wallpapers: Seq<String>,
}

/// The state after closing the window.
pub open spec fn hidden(s: PickerModel) -> PickerModel {
    PickerModel { open: false, page: Page::Grid, selected_idx: s.selected_idx, wallpapers: Seq::empty() }
}

/// What a message does to the picker: the next state and the action.
pub open spec fn step_spec(s: PickerModel, msg: Msg) -> (PickerModel, PickerAction) {
    match msg {
        Msg::Toggle => if s.open {
            (hidden(s), PickerAction::Hide)
        } else {
            (s, PickerAction::Show)
        },
        Msg::Back => if s.page == Page::TargetChooser {
            (PickerModel { page: Page::Grid, ..s }, PickerAction::ShowGrid)
        } else {
            (hidden(s), PickerAction::Hide)
        },
        Msg::Confirm(idx) => if s.page == Page::Grid {
            (PickerModel { page: Page::TargetChooser, selected_idx: idx, ..s }, PickerAction::ShowTargets)
        } else {
            (s, PickerAction::Nothing)
        },
        Msg::ApplyTarget(t) => if s.page == Page::TargetChooser {
            (
                PickerModel { page: Page::Applying, ..s },
                PickerAction::Apply { path: s.wallpapers[s.selected_idx as int], target: t },
            )
        } else {
            (s, PickerAction::Nothing)
        },
        Msg::ApplyFinished(success) => if success {
            (hidden(s), PickerAction::Hide)
        } else {
            (PickerModel { page: Page::Grid, ..s }, PickerAction::ShowGrid)
        },
    }
}

/// The picker's state.
pub struct PickerState {
    open: bool,
    page: Page,
    selected_idx: usize,
    wallpapers: Vec<String>,
}

impl View for PickerState {
    type V = PickerModel;

    closed spec fn view(&self) -> PickerModel {
        PickerModel {
            open: self.open,
            page: self.page,
            selected_idx: self.selected_idx,
            wallpapers: self.wallpapers@,
        }
    }
}

/// A message that the picker can take in state `s` without failing: applying
/// needs the chosen index to name a wallpaper.
pub open spec fn step_ok(s: PickerModel, msg: Msg) -> bool {
    msg matches Msg::ApplyTarget(_) && s.page == Page::TargetChooser ==> s.selected_idx
        < s.wallpapers.len()
}

impl PickerState {
    /// A closed picker on the grid page.
    pub fn new() -> (s: Self)
        ensures
            s@ == (PickerModel {
                open: false,
                page: Page::Grid,
                selected_idx: 0,
                wallpapers: Seq::empty(),
            }),
    {
        PickerState { open: false, page: Page::Grid, selected_idx: 0, wallpapers: Vec::new() }
    }

    /// The page shown.
    pub fn page(&self) -> (p: Page)
        ensures
            p == self@.page,
    {
        self.page
    }

    /// Whether the window is open.
    pub fn is_open(&self) -> (b: bool)
        ensures
            b == self@.open,
    {
        self.open
    }

    /// Whether taking `msg` now is safe (see `step_ok`).
    pub fn accepts(&self, msg: Msg) -> (b: bool)
        ensures
            b == step_ok(self@, msg),
    {
        match msg {
            Msg::ApplyTarget(_) => self.page != Page::TargetChooser || self.selected_idx
                < self.wallpapers.len(),
            _ => true,
        }
    }

    /// Records that the window was built and shows the grid of `wallpapers`.
    pub fn shown(&mut self, wallpapers: Vec<String>)
        ensures
            final(self)@ == (PickerModel {
                open: true,
                page: Page::Grid,
                selected_idx: old(self)@.selected_idx,
                wallpapers: wallpapers@,
            }),
    {
        self.open = true;
        self.page = Page::Grid;
        self.wallpapers = wallpapers;
    }

    fn close_window(&mut self)
        ensures
            final(self)@ == hidden(old(self)@),
    {
        self.open = false;
        self.wallpapers.clear();
        self.page = Page::Grid;
    }

    /// Takes one message; see `step_spec`.
    pub fn step(&mut self, msg: Msg) -> (a: PickerAction)
        requires
            step_ok(old(self)@, msg),
        ensures
            (final(self)@, a) == step_spec(old(self)@, msg),
    {
        match msg {
            Msg::Toggle => {
                if self.open {
                    self.close_window();
                    PickerAction::Hide
                } else {
                    PickerAction::Show
                }
            },
            Msg::Back => {
                if self.page == Page::TargetChooser {
                    self.page = Page::Grid;
                    PickerAction::ShowGrid
                } else {
                    self.close_window();
                    PickerAction::Hide
                }
            },
            Msg::Confirm(idx) => {
                if self.page == Page::Grid {
                    self.selected_idx = idx;
                    self.page = Page::TargetChooser;
                    PickerAction::ShowTargets
                } else {
                    PickerAction::Nothing
                }
            },
            Msg::ApplyTarget(target) => {
                if self.page == Page::TargetChooser {
                    self.page = Page::Applying;
                    let path = self.wallpapers[self.selected_idx].clone();
                    PickerAction::Apply { path, target }
                } else {
                    PickerAction::Nothing
                }
            },
            Msg::ApplyFinished(success) => {
                if success {
                    self.close_window();
                    PickerAction::Hide
                } else {
                    self.page = Page::Grid;
                    PickerAction::ShowGrid
                }
            },
        }
    }
}

/// A key, as the picker tells keys apart.
#[derive(Clone, Copy, PartialEq, Eq, Structural, Debug)]
pub enum PickerKey {
    Escape,
    /// Return or keypad Enter.
    Enter,
    /// `h` or Left.
    Left,
    /// `j` or Down.
    Down,
    /// `k` or Up.
    Up,
    /// `l` or Right.
    Right,
    /// `d` or `1`.
    Desktop,
    /// `g` or `2`.
    Greeter,
    Other,
}

/// What a key press does in the picker.
#[derive(Clone, Copy, PartialEq, Eq, Structural, Debug)]
pub enum KeyResponse {
    /// Send `Back`; the key is consumed.
    Back,
    /// Confirm the selected thumbnail; the key is consumed.
    ConfirmSelected,
    /// Move the selection by this many thumbnails; the key is consumed.
    Move(i32),
    /// Send `ApplyTarget`; the key is consumed.
    Apply(Target),
    /// Let the key go on to the focused widget.
    Proceed,
}

/// The response to `key` on `page`: Escape always goes back; on the target
/// chooser every other key goes on to the buttons.
pub open spec fn key_response_spec(key: PickerKey, page: Page) -> KeyResponse {
    if key == PickerKey::Escape {
        KeyResponse::Back
    } else if page == Page::TargetChooser {
        KeyResponse::Proceed
    } else {
        match key {
            PickerKey::Enter => KeyResponse::ConfirmSelected,
            PickerKey::Left => KeyResponse::Move(-1i32),
            PickerKey::Down => KeyResponse::Move(COLUMNS),
            PickerKey::Up => KeyResponse::Move((-COLUMNS) as i32),
            PickerKey::Right => KeyResponse::Move(1),
            PickerKey::Desktop => KeyResponse::Apply(Target::Desktop),
            PickerKey::Greeter => KeyResponse::Apply(Target::Greeter),
            _ => KeyResponse::Proceed,
        }
    }
}

/// Decides what a key press does.
pub fn handle_key(key: PickerKey, page: Page) -> (r: KeyResponse)
    ensures
        r == key_response_spec(key, page),
{
    match key {
        PickerKey::Escape => KeyResponse::Back,
        _ if page == Page::TargetChooser => KeyResponse::Proceed,
        PickerKey::Enter => KeyResponse::ConfirmSelected,
        PickerKey::Left => KeyResponse::Move(-1),
        PickerKey::Down => KeyResponse::Move(COLUMNS),
        PickerKey::Up => KeyResponse::Move(-COLUMNS),
        PickerKey::Right => KeyResponse::Move(1),
        PickerKey::Desktop => KeyResponse::Apply(Target::Desktop),
        PickerKey::Greeter => KeyResponse::Apply(Target::Greeter),
        _ => KeyResponse::Proceed,
    }
}

/// The grid index the selection moves to: `current + offset`, but not below 0.
pub fn move_target(current: i32, offset: i32) -> (r: i32)
    requires
        i32::MIN <= current + offset <= i32::MAX,
    ensures
        r == if current + offset < 0 {
            0
        } else {
            current + offset
        },
{
    let n = current + offset;
    if n < 0 {
        0
    } else {
        n
    }
}

/// The generation that opening or closing the picker starts: one more than
/// the last. Thumbnail loads queued in an older generation are dropped.
pub fn next_generation(g: u64) -> (n: u64)
    requires
        g < u64::MAX,
    ensures
        n == g + 1,
{
    g + 1
}

/// Whether a thumbnail load queued in generation `queued` is still to run
/// when the picker is in generation `current`: only if the picker was
/// neither closed nor opened again in between.
pub fn load_wanted(current: u64, queued: u64) -> (b: bool)
    ensures
        b == (current == queued),
{
    current == queued
}

/// The control socket of the user with id `uid`: `/tmp/hyprwall-<uid>.sock`.
pub fn socket_path(uid: u32) -> (p: String)
    ensures
        p@ == "/tmp/hyprwall-"@ + decimal(uid as nat) + ".sock"@,
{
    let s = String::from_str("/tmp/hyprwall-");
    let n = to_decimal(uid as u64);
    s.concat(n.as_str()).concat(".sock")
}

/// The lock file that keeps a second daemon of user `uid` from starting:
/// `/tmp/hyprwall-<uid>.lock`.
pub fn lock_path(uid: u32) -> (p: String)
    ensures
        p@ == "/tmp/hyprwall-"@ + decimal(uid as nat) + ".lock"@,
{
    let s = String::from_str("/tmp/hyprwall-");
    let n = to_decimal(uid as u64);
    s.concat(n.as_str()).concat(".lock")
}

/// Apply requests are only acted on from the target chooser: elsewhere the
/// message changes nothing and does nothing.
pub proof fn lemma_apply_only_from_chooser(s: PickerModel, t: Target)
    requires
        s.page != Page::TargetChooser,
    ensures
        step_spec(s, Msg::ApplyTarget(t)) == (s, PickerAction::Nothing),
{
}

/// Once applying has started, a second apply request starts nothing.
pub proof fn lemma_no_second_apply(s: PickerModel, t1: Target, t2: Target)
    requires
        s.page == Page::TargetChooser,
    ensures
        step_spec(step_spec(s, Msg::ApplyTarget(t1)).0, Msg::ApplyTarget(t2)).1 == PickerAction::Nothing,
{
}

/// Escape on the target chooser returns to the grid with the window open;
/// a second Escape closes it.
pub proof fn lemma_back_twice_closes(s: PickerModel)
    requires
        s.page == Page::TargetChooser,
    ensures
        step_spec(s, Msg::Back).0.page == Page::Grid,
        step_spec(s, Msg::Back).0.open == s.open,
        step_spec(step_spec(s, Msg::Back).0, Msg::Back) == (
            hidden(s),
            PickerAction::Hide,
        ),
{
}

/// A failed apply returns to the grid and keeps the window and its wallpapers;
/// a successful one closes the window.
pub proof fn lemma_apply_outcome(s: PickerModel)
    ensures
        step_spec(s, Msg::ApplyFinished(false)).0 == (PickerModel { page: Page::Grid, ..s }),
        step_spec(s, Msg::ApplyFinished(true)).0 == hidden(s),
        !step_spec(s, Msg::ApplyFinished(true)).0.open,
{
}

/// Closing always leaves the picker on the grid with no wallpapers held, so
/// the next opening starts afresh.
pub proof fn lemma_hide_resets(s: PickerModel, msg: Msg)
    requires
        step_spec(s, msg).1 == PickerAction::Hide,
    ensures
        step_spec(s, msg).0.page == Page::Grid,
        !step_spec(s, msg).0.open,
        step_spec(s, msg).0.wallpapers.len() == 0,
{
}

/// A toggle from another instance closes an open picker, whatever page it
/// shows: the window is hidden, the picker is closed, back on the grid, holds
/// no wallpapers and keeps its selection. On a closed picker it asks for the
/// window to be shown and changes nothing yet; once shown, a second toggle
/// closes it again.
pub proof fn lemma_toggle_opens_and_closes(s: PickerModel, wallpapers: Seq<String>)
    ensures
        s.open ==> step_spec(s, Msg::Toggle).1 == PickerAction::Hide,
        s.open ==> !step_spec(s, Msg::Toggle).0.open,
        s.open ==> step_spec(s, Msg::Toggle).0.page == Page::Grid,
        s.open ==> step_spec(s, Msg::Toggle).0.wallpapers.len() == 0,
        s.open ==> step_spec(s, Msg::Toggle).0.selected_idx == s.selected_idx,
        !s.open ==> step_spec(s, Msg::Toggle) == (s, PickerAction::Show),
        ({
            let shown = PickerModel { open: true, page: Page::Grid, selected_idx: s.selected_idx, wallpapers };
            &&& step_spec(shown, Msg::Toggle).1 == PickerAction::Hide
            &&& !step_spec(shown, Msg::Toggle).0.open
        }),
{
}

} // verus!
