//! The watch: what every key does to the dashboard's state, and what is to be
//! done about it outside.

use crate::cli::ViewKind;
use crate::dashboard::{short_error, shortened, first_line, Ui};
use crate::nav;
use crate::nav::{all_targets, clamped, destination, group_at, is_movement, target_groups, texts};
use crate::screen::{follow, followed};
use crate::sections::Sections;
use crate::term::{classify, classify_search, meaning, search_meaning, Input, SearchAction, Wait};
use crate::text::{concat, folded, is_empty};
use vstd::prelude::*;

verus! {

/// What the watch loop does after an event.
#[derive(Copy, Clone, Debug, PartialEq, Eq, Structural)]
pub enum Flow {
    /// Keep waiting.
    Continue,
    /// Refresh now.
    Refresh,
    /// Leave the loop.
    Quit,
}

/// What is to be done outside after an event.
#[derive(Debug, PartialEq, Eq)]
pub enum Effect {
    /// Nothing.
    Rest,
    /// Paint the dashboard again.
    Repaint,
    /// Suspend to the shell, then paint the dashboard again.
    Suspend,
    /// Size the screen to these columns and rows, then paint it again.
    Resize(u16, u16),
    /// Open this URL in the browser.
    Open(String),
    /// Put this text on the clipboard.
    Copy(String),
}

/// What is to be done outside, as characters.
#[verifier::ext_equal]
pub enum EffectView {
    Rest,
    Repaint,
    Suspend,
    Resize(u16, u16),
    Open(Seq<char>),
    Copy(Seq<char>),
}

impl View for Effect {
    type V = EffectView;

    open spec fn view(&self) -> EffectView {
        match self {
            Effect::Rest => EffectView::Rest,
            Effect::Repaint => EffectView::Repaint,
            Effect::Suspend => EffectView::Suspend,
            Effect::Resize(w, h) => EffectView::Resize(*w, *h),
            Effect::Open(u) => EffectView::Open(u@),
            Effect::Copy(t) => EffectView::Copy(t@),
        }
    }
}

/// The interactive state as characters.
#[verifier::ext_equal]
pub struct UiView {
    pub view: ViewKind,
    pub show_help: bool,
    pub selected: Option<usize>,
    pub search: Seq<char>,
    pub searching: bool,
}

impl View for Ui {
    type V = UiView;

    open spec fn view(&self) -> UiView {
        UiView {
            view: self.view,
            show_help: self.show_help,
            selected: self.selected,
            search: self.search@,
            searching: self.searching,
        }
    }
}

/// The links that the cursor can visit; none before there is any data.
pub open spec fn visited(good: Option<Sections>, ui: UiView) -> Seq<Seq<char>> {
    match good {
        Some(s) => all_targets(ui.view, s, folded(ui.search)),
        None => Seq::empty(),
    }
}

/// The link of the row that the cursor is on, where it is on one.
pub open spec fn selected_link(good: Option<Sections>, ui: UiView) -> Option<Seq<char>> {
    match ui.selected {
        Some(i) => if i < visited(good, ui).len() {
            Some(visited(good, ui)[i as int])
        } else {
            None
        },
        None => None,
    }
}

/// The links of the section that the cursor is in, or of the first that has any.
pub open spec fn selected_section(good: Option<Sections>, ui: UiView) -> Seq<Seq<char>> {
    match good {
        Some(s) => group_at(
            target_groups(ui.view, s, folded(ui.search)),
            match ui.selected {
                Some(i) => i as int,
                None => 0,
            },
        ),
        None => Seq::empty(),
    }
}

/// Links as a markdown list, one to a line.
pub open spec fn markdown_list(urls: Seq<Seq<char>>) -> Seq<char>
    decreases urls.len(),
{
    if urls.len() == 0 {
        Seq::empty()
    } else if urls.len() == 1 {
        "- "@ + urls[0]
    } else {
        markdown_list(urls.drop_last()) + "\n- "@ + urls.last()
    }
}

/// Links as a markdown list.
pub fn markdown(urls: &Vec<&str>) -> (list: String)
    ensures
        list@ == markdown_list(texts(urls@)),
{
    let ghost all = texts(urls@);
    let mut list: String = String::new();
    let mut i: usize = 0;
    assert(all.take(0) =~= Seq::empty());
    assert(list@ =~= Seq::empty());
    while i < urls.len()
        invariant
            i <= urls@.len(),
            all == texts(urls@),
            list@ == markdown_list(all.take(i as int)),
        decreases urls@.len() - i,
    {
        assert(all.take(i + 1).drop_last() =~= all.take(i as int));
        assert(all.take(i + 1).last() == urls@[i as int]@);
        if i > 0 {
            list.append("\n- ");
        } else {
            list.append("- ");
        }
        list.append(urls[i]);
        assert(i == 0 ==> list@ =~= "- "@ + all[0]);
        i += 1;
    }
    assert(all.take(urls@.len() as int) =~= all);
    list
}

/// What an event outside the search prompt does: the new state, how the loop
/// goes on, and what is to be done outside.
pub open spec fn handled(ui: UiView, good: Option<Sections>, action: Wait, half: int) -> (
    UiView,
    Flow,
    EffectView,
) {
    let repaint = |u: UiView| (u, Flow::Continue, paint_again(good));
    match action {
        Wait::Ignore => (ui, Flow::Continue, EffectView::Rest),
        Wait::Quit => (ui, Flow::Quit, EffectView::Rest),
        Wait::Refresh => (ui, Flow::Refresh, EffectView::Rest),
        Wait::Suspend => (ui, Flow::Continue, EffectView::Suspend),
        Wait::ToggleHelp => repaint(UiView { show_help: !ui.show_help, ..ui }),
        Wait::SwitchView => repaint(
            UiView {
                view: match ui.view {
                    ViewKind::Mine => ViewKind::Reviews,
                    ViewKind::Reviews => ViewKind::Mine,
                },
                selected: None,
                ..ui
            },
        ),
        Wait::Search => repaint(UiView { searching: true, ..ui }),
        Wait::Cancel => if ui.search.len() == 0 {
            (ui, Flow::Quit, EffectView::Rest)
        } else {
            repaint(UiView { search: Seq::empty(), selected: None, ..ui })
        },
        Wait::Open => (
            ui,
            Flow::Continue,
            match selected_link(good, ui) {
                Some(u) => EffectView::Open(u),
                None => EffectView::Rest,
            },
        ),
        Wait::CopyLink => (
            ui,
            Flow::Continue,
            match selected_link(good, ui) {
                Some(u) => EffectView::Copy(u),
                None => EffectView::Rest,
            },
        ),
        Wait::CopySection => (
            ui,
            Flow::Continue,
            if selected_section(good, ui).len() > 0 {
                EffectView::Copy(markdown_list(selected_section(good, ui)))
            } else {
                EffectView::Rest
            },
        ),
        Wait::Resize(w, h) => (ui, Flow::Continue, EffectView::Resize(w, h)),
        _ => {
            let next = moved_to(ui, good, action, half);
            if next == ui.selected {
                (ui, Flow::Continue, EffectView::Rest)
            } else {
                repaint(UiView { selected: next, ..ui })
            }
        },
    }
}

/// Where a movement key puts the cursor.
pub open spec fn moved_to(ui: UiView, good: Option<Sections>, action: Wait, half: int) -> Option<
    usize,
> {
    let len = visited(good, ui).len() as int;
    if len == 0 {
        None
    } else {
        Some(destination(action, ui.selected, len, half) as usize)
    }
}

/// The dashboard is painted again once there is something to show.
pub open spec fn paint_again(good: Option<Sections>) -> EffectView {
    if good is Some {
        EffectView::Repaint
    } else {
        EffectView::Rest
    }
}

/// What an event does while the search prompt is open: typing filters live, the
/// escape key clears the filter, and either drops the cursor.
pub open spec fn search_handled(ui: UiView, good: Option<Sections>, action: SearchAction) -> (
    UiView,
    EffectView,
) {
    match action {
        SearchAction::Ignore => (ui, EffectView::Rest),
        SearchAction::Char(c) => (
            UiView { search: ui.search.push(c), selected: None, ..ui },
            paint_again(good),
        ),
        SearchAction::Backspace => (
            UiView {
                search: if ui.search.len() == 0 {
                    ui.search
                } else {
                    ui.search.drop_last()
                },
                selected: None,
                ..ui
            },
            paint_again(good),
        ),
        SearchAction::Enter => (UiView { searching: false, ..ui }, paint_again(good)),
        SearchAction::Esc => (
            UiView { search: Seq::empty(), selected: None, searching: false, ..ui },
            paint_again(good),
        ),
        SearchAction::Suspend => (ui, EffectView::Suspend),
        SearchAction::Resize(w, h) => (ui, EffectView::Resize(w, h)),
    }
}

/// The state of the watch.
pub struct Watch {
    pub ui: Ui,
    /// The last sections that were fetched.
    pub last_good: Option<Sections>,
    /// The last error; empty unless a refresh or an open failed.
    pub last_error: String,
    /// Whether a fetch is in flight.
    pub refreshing: bool,
    /// Whether the bell is armed: the first refresh is silent.
    pub armed: bool,
}

impl Watch {
    /// A watch that has seen nothing yet, over what was kept from the last run.
    pub fn start(view: ViewKind, kept: Option<Sections>) -> (w: Self)
        ensures
            w.ui@ == (UiView {
                view,
                show_help: false,
                selected: None,
                search: Seq::empty(),
                searching: false,
            }),
            w.last_good == kept,
            w.last_error@.len() == 0,
            !w.refreshing,
            !w.armed,
    {
        let ui = Ui { view, show_help: false, selected: None, search: String::new(), searching: false };
        assert(ui.search@ =~= Seq::empty());
        Watch { ui, last_good: kept, last_error: String::new(), refreshing: false, armed: false }
    }

    /// How many rows the cursor can visit.
    fn target_count(&self) -> (n: usize)
        ensures
            n == visited(self.last_good, self.ui@).len(),
    {
        match &self.last_good {
            Some(s) => {
                let urls: Vec<&str> = nav::targets(self.ui.view, s, self.ui.search.as_str());
                assert(texts(urls@).len() == urls@.len());
                urls.len()
            },
            None => 0,
        }
    }

    /// The link of the row that the cursor is on.
    fn selected_url(&self) -> (u: Option<String>)
        ensures
            crate::model::opt_string(u) == selected_link(self.last_good, self.ui@),
    {
        match (self.ui.selected, &self.last_good) {
            (Some(i), Some(s)) => {
                let urls: Vec<&str> = nav::targets(self.ui.view, s, self.ui.search.as_str());
                assert(texts(urls@).len() == urls@.len());
                if i < urls.len() {
                    assert(texts(urls@)[i as int] == urls@[i as int]@);
                    Some(urls[i].to_owned())
                } else {
                    None
                }
            },
            _ => None,
        }
    }

    /// The links of the section that the cursor is in, as a markdown list.
    fn section_list(&self) -> (t: Option<String>)
        ensures
            crate::model::opt_string(t) == (if selected_section(self.last_good, self.ui@).len()
                > 0 {
                Some(markdown_list(selected_section(self.last_good, self.ui@)))
            } else {
                None
            }),
    {
        match &self.last_good {
            Some(s) => {
                let index: usize = match self.ui.selected {
                    Some(i) => i,
                    None => 0,
                };
                let urls: Vec<&str> = nav::section_at(
                    self.ui.view,
                    s,
                    self.ui.search.as_str(),
                    index,
                );
                assert(texts(urls@).len() == urls@.len());
                if urls.len() > 0 {
                    Some(markdown(&urls))
                } else {
                    None
                }
            },
            None => None,
        }
    }

    /// Paints again, once there is something to show.
    fn repaint(&self) -> (e: Effect)
        ensures
            e@ == paint_again(self.last_good),
    {
        if self.last_good.is_some() {
            Effect::Repaint
        } else {
            Effect::Rest
        }
    }

    /// Applies what an event means outside the search prompt. `half` is the
    /// half-page step.
    pub fn handle(&mut self, action: Wait, half: usize) -> (r: (Flow, Effect))
        ensures
            (final(self).ui@, r.0, r.1@) == handled(
                old(self).ui@,
                old(self).last_good,
                action,
                half as int,
            ),
            final(self).last_good == old(self).last_good,
            final(self).last_error == old(self).last_error,
            final(self).refreshing == old(self).refreshing,
            final(self).armed == old(self).armed,
    {
        match action {
            Wait::Ignore => (Flow::Continue, Effect::Rest),
            Wait::Quit => (Flow::Quit, Effect::Rest),
            Wait::Refresh => (Flow::Refresh, Effect::Rest),
            Wait::Suspend => (Flow::Continue, Effect::Suspend),
            Wait::ToggleHelp => {
                self.ui.show_help = !self.ui.show_help;
                (Flow::Continue, self.repaint())
            },
            Wait::SwitchView => {
                // Selection indices don't carry across views, so start fresh.
                self.ui.view = self.ui.view.toggle();
                self.ui.selected = None;
                (Flow::Continue, self.repaint())
            },
            Wait::Search => {
                self.ui.searching = true;
                (Flow::Continue, self.repaint())
            },
            Wait::Cancel => {
                if is_empty(self.ui.search.as_str()) {
                    (Flow::Quit, Effect::Rest)
                } else {
                    self.ui.search = String::new();
                    self.ui.selected = None;
                    assert(self.ui.search@ =~= Seq::empty());
                    (Flow::Continue, self.repaint())
                }
            },
            Wait::Open => {
                let e: Effect = match self.selected_url() {
                    Some(u) => Effect::Open(u),
                    None => Effect::Rest,
                };
                (Flow::Continue, e)
            },
            Wait::CopyLink => {
                let e: Effect = match self.selected_url() {
                    Some(u) => Effect::Copy(u),
                    None => Effect::Rest,
                };
                (Flow::Continue, e)
            },
            Wait::CopySection => {
                let e: Effect = match self.section_list() {
                    Some(t) => Effect::Copy(t),
                    None => Effect::Rest,
                };
                (Flow::Continue, e)
            },
            Wait::Resize(w, h) => (Flow::Continue, Effect::Resize(w, h)),
            _ => {
                let len: usize = self.target_count();
                let next: Option<usize> = nav::moved(action, self.ui.selected, len, half);
                if next == self.ui.selected {
                    (Flow::Continue, Effect::Rest)
                } else {
                    self.ui.selected = next;
                    (Flow::Continue, self.repaint())
                }
            },
        }
    }

    /// Applies what an event means while the search prompt is open.
    pub fn handle_search(&mut self, action: SearchAction) -> (r: (Flow, Effect))
        ensures
            r.0 == Flow::Continue,
            (final(self).ui@, r.1@) == search_handled(
                old(self).ui@,
                old(self).last_good,
                action,
            ),
            final(self).last_good == old(self).last_good,
            final(self).last_error == old(self).last_error,
            final(self).refreshing == old(self).refreshing,
            final(self).armed == old(self).armed,
    {
        match action {
            SearchAction::Char(c) => {
                self.ui.search.push(c);
                self.ui.selected = None;
            },
            SearchAction::Backspace => {
                self.ui.search.pop();
                self.ui.selected = None;
            },
            SearchAction::Enter => {
                self.ui.searching = false;
            },
            SearchAction::Esc => {
                self.ui.search = String::new();
                self.ui.selected = None;
                self.ui.searching = false;
                assert(self.ui.search@ =~= Seq::empty());
            },
            SearchAction::Suspend => {
                return (Flow::Continue, Effect::Suspend);
            },
            SearchAction::Resize(w, h) => {
                return (Flow::Continue, Effect::Resize(w, h));
            },
            SearchAction::Ignore => {
                return (Flow::Continue, Effect::Rest);
            },
        }
        (Flow::Continue, self.repaint())
    }

    /// Applies an input event. While the search prompt is open every key is
    /// text.
    pub fn handle_event(&mut self, ev: &Input, half: usize) -> (r: (Flow, Effect))
        ensures
            old(self).ui.searching ==> r.0 == Flow::Continue && (final(self).ui@, r.1@)
                == search_handled(old(self).ui@, old(self).last_good, search_meaning(*ev)),
            !old(self).ui.searching ==> (final(self).ui@, r.0, r.1@) == handled(
                old(self).ui@,
                old(self).last_good,
                meaning(*ev),
                half as int,
            ),
            final(self).last_good == old(self).last_good,
            final(self).last_error == old(self).last_error,
            final(self).refreshing == old(self).refreshing,
            final(self).armed == old(self).armed,
    {
        if self.ui.searching {
            self.handle_search(classify_search(ev))
        } else {
            self.handle(classify(ev), half)
        }
    }

    /// Takes in a successful fetch: the error is gone, the cursor stays inside
    /// the list. Returns whether the bell is to ring: where something changed,
    /// but not on the first refresh.
    pub fn apply(&mut self, sections: Sections, changed: bool, no_bell: bool) -> (ring: bool)
        ensures
            ring == (old(self).armed && changed && !no_bell),
            final(self).armed,
            final(self).last_error@.len() == 0,
            final(self).last_good == Some(sections),
            final(self).refreshing == old(self).refreshing,
            ({
                let u = old(self).ui@;
                let len = visited(Some(sections), u).len() as int;
                final(self).ui@ == (UiView {
                    selected: match clamped(u.selected, len) {
                        Some(i) => Some(i as usize),
                        None => None,
                    },
                    ..u
                })
            }),
    {
        let ghost u = self.ui@;
        let ring: bool = self.armed && changed && !no_bell;
        self.last_error = String::new();
        self.last_good = Some(sections);
        let len: usize = self.target_count();
        self.ui.selected = nav::clamp(self.ui.selected, len);
        self.armed = true;
        ring
    }

    /// Takes in which sections the terminal has room for: the cursor stays on its
    /// link, and is dropped where no row leads there any more.
    pub fn refit(&mut self, left: Sections)
        ensures
            final(self).last_good == Some(left),
            final(self).last_error == old(self).last_error,
            final(self).refreshing == old(self).refreshing,
            final(self).armed == old(self).armed,
            ({
                let u = old(self).ui@;
                final(self).ui@ == (UiView {
                    selected: if old(self).last_good is Some {
                        match followed(
                            u.selected,
                            visited(old(self).last_good, u),
                            visited(Some(left), u),
                        ) {
                            Some(i) => Some(i as usize),
                            None => None,
                        }
                    } else {
                        u.selected
                    },
                    ..u
                })
            }),
    {
        let selected: Option<usize> = match &self.last_good {
            Some(before) => {
                let from: Vec<&str> = nav::targets(self.ui.view, before, self.ui.search.as_str());
                let to: Vec<&str> = nav::targets(self.ui.view, &left, self.ui.search.as_str());
                follow(self.ui.selected, &from, &to)
            },
            None => self.ui.selected,
        };
        self.ui.selected = selected;
        self.last_good = Some(left);
    }

    /// Takes in a failed fetch: the last data stays, and the error is its first
    /// line, cut.
    pub fn show_error(&mut self, error: &str)
        ensures
            final(self).last_error@ == shortened(first_line(error@)),
            final(self).ui == old(self).ui,
            final(self).last_good == old(self).last_good,
            final(self).refreshing == old(self).refreshing,
            final(self).armed == old(self).armed,
    {
        self.last_error = short_error(error);
    }

    /// Takes in a URL that could not be opened.
    pub fn open_failed(&mut self, error: &str) -> (e: Effect)
        ensures
            final(self).last_error@ == "open failed: "@ + error@,
            e@ == paint_again(old(self).last_good),
            final(self).ui == old(self).ui,
            final(self).last_good == old(self).last_good,
            final(self).refreshing == old(self).refreshing,
            final(self).armed == old(self).armed,
    {
        self.last_error = concat("open failed: ", error);
        self.repaint()
    }
}

/// The half-page step of a window of so many rows, or of one whose size is not
/// known.
pub fn half_page(rows: Option<u16>) -> (n: usize)
    ensures
        n == (match rows {
            Some(h) => if h / 2 < 1 {
                1int
            } else {
                (h / 2) as int
            },
            None => 10,
        }),
{
    match rows {
        Some(h) => {
            let half: u16 = h / 2;
            if half < 1 {
                1
            } else {
                half as usize
            }
        },
        None => 10,
    }
}

/// A cursor on a row stays on a row, whatever is pressed: it is on one of the
/// links that the new state visits, or does not show.
pub open spec fn cursor_on_a_row(ui: UiView, good: Option<Sections>) -> bool {
    ui.selected matches Some(i) ==> i < visited(good, ui).len()
}

/// Events outside the search prompt keep the cursor on a row.
pub proof fn keys_keep_the_cursor_on_a_row(
    ui: UiView,
    good: Option<Sections>,
    action: Wait,
    half: int,
)
    requires
        cursor_on_a_row(ui, good),
        visited(good, ui).len() <= usize::MAX,
    ensures
        cursor_on_a_row(handled(ui, good, action, half).0, good),
{
}

/// Events in the search prompt keep the cursor on a row.
pub proof fn typing_keeps_the_cursor_on_a_row(
    ui: UiView,
    good: Option<Sections>,
    action: SearchAction,
)
    requires
        cursor_on_a_row(ui, good),
    ensures
        cursor_on_a_row(search_handled(ui, good, action).0, good),
{
    match good {
        Some(s) => {
            nav::clearing_the_query_only_adds(ui.view, s, folded(ui.search));
        },
        None => {},
    }
}

/// The cursor only appears once it is moved: no other key brings it up.
pub proof fn the_cursor_appears_only_by_moving(
    ui: UiView,
    good: Option<Sections>,
    action: Wait,
    typed: SearchAction,
    half: int,
)
    requires
        ui.selected is None,
        !is_movement(action),
    ensures
        handled(ui, good, action, half).0.selected is None,
        search_handled(ui, good, typed).0.selected is None,
{
}

/// The cursor is dropped wherever the view or the search changes: it does not
/// speak of other rows.
pub proof fn other_rows_drop_the_cursor(
    ui: UiView,
    good: Option<Sections>,
    action: Wait,
    typed: SearchAction,
    half: int,
)
    ensures
        ({
            let next = handled(ui, good, action, half).0;
            next.view != ui.view || next.search != ui.search ==> next.selected is None
        }),
        ({
            let next = search_handled(ui, good, typed).0;
            next.view != ui.view || next.search != ui.search ==> next.selected is None
        }),
{
}

/// The escape key quits exactly where there is no filter to clear; it never does
/// while the search prompt is open.
pub proof fn escape_clears_before_it_quits(ui: UiView, good: Option<Sections>, half: int)
    ensures
        handled(ui, good, Wait::Cancel, half).1 == Flow::Quit <==> ui.search.len() == 0,
        handled(ui, good, Wait::Cancel, half).0.search.len() == 0,
        search_handled(ui, good, SearchAction::Esc).0.search.len() == 0,
        !search_handled(ui, good, SearchAction::Esc).0.searching,
{
}

/// Switching views twice is back where it started, but for the cursor.
pub proof fn switching_twice_comes_back(ui: UiView, good: Option<Sections>, half: int)
    ensures
        ({
            let once = handled(ui, good, Wait::SwitchView, half).0;
            handled(once, good, Wait::SwitchView, half).0 == UiView { selected: None, ..ui }
        }),
{
}

/// A character that was typed and taken back leaves the query as it was.
pub proof fn backspace_undoes_a_character(ui: UiView, good: Option<Sections>, c: char)
    ensures
        ({
            let typed = search_handled(ui, good, SearchAction::Char(c)).0;
            search_handled(typed, good, SearchAction::Backspace).0 == UiView {
                selected: None,
                ..ui
            }
        }),
{
    assert(ui.search.push(c).drop_last() =~= ui.search);
}

/// The link that is opened or copied is one of those that the cursor visits, and
/// so is every link of a copied section.
pub proof fn only_visited_links_are_used(good: Option<Sections>, ui: UiView)
    ensures
        selected_link(good, ui) matches Some(u) ==> visited(good, ui).contains(u),
        forall|k: int|
            0 <= k < selected_section(good, ui).len() ==> visited(good, ui).contains(
                #[trigger] selected_section(good, ui)[k],
            ),
{
    match good {
        Some(s) => {
            let groups = target_groups(ui.view, s, folded(ui.search));
            let index = match ui.selected {
                Some(i) => i as int,
                None => 0,
            };
            assert forall|k: int| 0 <= k < selected_section(good, ui).len() implies visited(
                good,
                ui,
            ).contains(#[trigger] selected_section(good, ui)[k]) by {
                section_links_are_targets(groups, index, k);
            }
        },
        None => {},
    }
}

/// Every link of a group is a link of all.
proof fn section_links_are_targets(groups: Seq<Seq<Seq<char>>>, index: int, k: int)
    requires
        0 <= k < group_at(groups, index).len(),
    ensures
        nav::joined(groups).contains(group_at(groups, index)[k]),
    decreases groups.len(),
{
    if groups.len() > 0 {
        let rest = groups.drop_first();
        let all = nav::joined(groups);
        if index < groups[0].len() {
            assert(all[k] == groups[0][k]);
        } else {
            section_links_are_targets(rest, index - groups[0].len(), k);
            let u = group_at(groups, index)[k];
            let j = choose|j: int|
                0 <= j < nav::joined(rest).len() && nav::joined(rest)[j] == u;
            assert(all[groups[0].len() + j] == u);
        }
    }
}

/// The cursor opens and copies the link of its own row: the one at its place
/// among those that it visits. Neither does anything without a cursor, and neither
/// changes the dashboard.
pub proof fn the_cursor_uses_its_own_link(ui: UiView, good: Option<Sections>, half: int)
    ensures
        ui.selected matches Some(i) ==> (i < visited(good, ui).len() ==> handled(
            ui,
            good,
            Wait::Open,
            half,
        ).2 == EffectView::Open(visited(good, ui)[i as int]) && handled(
            ui,
            good,
            Wait::CopyLink,
            half,
        ).2 == EffectView::Copy(visited(good, ui)[i as int])),
        ui.selected is None ==> handled(ui, good, Wait::Open, half).2 == EffectView::Rest && handled(
            ui,
            good,
            Wait::CopyLink,
            half,
        ).2 == EffectView::Rest,
        handled(ui, good, Wait::Open, half).0 == ui,
        handled(ui, good, Wait::CopyLink, half).0 == ui,
        handled(ui, good, Wait::CopySection, half).0 == ui,
{
}

/// A section is copied whole, as a list with a line for each link: the section
/// that the cursor is in holds the link of the cursor.
pub proof fn a_copied_section_holds_the_cursor(ui: UiView, good: Option<Sections>, half: int)
    requires
        good is Some,
        ui.selected is Some,
        ui.selected->0 < visited(good, ui).len(),
    ensures
        ({
            let section = selected_section(good, ui);
            &&& section.contains(visited(good, ui)[ui.selected->0 as int])
            &&& handled(ui, good, Wait::CopySection, half).2 == EffectView::Copy(
                markdown_list(section),
            )
        }),
{
    let groups = target_groups(ui.view, good->0, folded(ui.search));
    nav::a_section_holds_its_targets(groups, ui.selected->0 as int);
}

/// A markdown list has a line for each link, which begins with a dash: one more
/// link is one more line below the others.
pub proof fn a_link_is_a_line(urls: Seq<Seq<char>>, url: Seq<char>)
    ensures
        markdown_list(seq![url]) == seq!['-', ' '] + url,
        urls.len() > 0 ==> markdown_list(urls.push(url)) == markdown_list(urls) + seq![
            '\n',
            '-',
            ' ',
        ] + url,
        markdown_list(Seq::empty()).len() == 0,
{
    reveal_strlit("- ");
    reveal_strlit("\n- ");
    assert("- "@ =~= seq!['-', ' ']);
    assert("\n- "@ =~= seq!['\n', '-', ' ']);
    assert(urls.push(url).drop_last() =~= urls);
}

/// The help comes and goes with its key, and nothing else changes.
pub proof fn help_comes_and_goes(ui: UiView, good: Option<Sections>, half: int)
    ensures
        handled(ui, good, Wait::ToggleHelp, half).0 == (UiView { show_help: !ui.show_help, ..ui }),
        handled(ui, good, Wait::ToggleHelp, half).1 == Flow::Continue,
        ({
            let once = handled(ui, good, Wait::ToggleHelp, half).0;
            handled(once, good, Wait::ToggleHelp, half).0 == ui
        }),
{
}

/// The loop goes on but for three keys: the quit key leaves it, the refresh key
/// asks for new data, and the escape key leaves it where there is no filter.
pub proof fn few_keys_leave_the_loop(ui: UiView, good: Option<Sections>, action: Wait, half: int)
    ensures
        handled(ui, good, action, half).1 == Flow::Quit <==> action is Quit || (action is Cancel
            && ui.search.len() == 0),
        handled(ui, good, action, half).1 == Flow::Refresh <==> action is Refresh,
        action is Quit || action is Refresh || action is Suspend || action is Resize
            || action is Ignore ==> handled(ui, good, action, half).0 == ui,
        action is Suspend ==> handled(ui, good, action, half).2 == EffectView::Suspend,
{
}

/// Typing edits the query at its end, and the enter key leaves the prompt with the
/// query and the cursor as they are.
pub proof fn typing_edits_the_query(ui: UiView, good: Option<Sections>, c: char)
    ensures
        search_handled(ui, good, SearchAction::Char(c)).0.search == ui.search.push(c),
        search_handled(ui, good, SearchAction::Char(c)).0.searching == ui.searching,
        search_handled(ui, good, SearchAction::Enter).0 == (UiView { searching: false, ..ui }),
        ui.search.len() == 0 ==> search_handled(ui, good, SearchAction::Backspace).0.search
            == ui.search,
        ui.search.len() > 0 ==> search_handled(ui, good, SearchAction::Backspace).0.search.push(
            ui.search.last(),
        ) == ui.search,
{
    if ui.search.len() > 0 {
        assert(ui.search.drop_last().push(ui.search.last()) =~= ui.search);
    }
}

/// The slash opens the prompt and leaves the query and the cursor as they are.
pub proof fn the_prompt_opens_over_the_list(ui: UiView, good: Option<Sections>, half: int)
    ensures
        handled(ui, good, Wait::Search, half).0 == (UiView { searching: true, ..ui }),
        handled(ui, good, Wait::Search, half).1 == Flow::Continue,
{
}

/// Half a page is half the rows of the window, rounded down, but one row at least;
/// of a window of unknown size it is ten.
pub proof fn half_a_page_is_half_the_rows(rows: Option<u16>, n: usize)
    requires
        call_ensures(half_page, (rows,), n),
    ensures
        rows matches Some(h) ==> n >= 1 && (h >= 2 ==> 2 * n <= h < 2 * n + 2) && (h < 2 ==> n
            == 1),
        rows is None ==> n == 10,
{
}

} // verus!
