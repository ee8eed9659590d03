//! Navigation state of the terminal dashboard: moving through list entries, the
//! sidebar's page menu, scrolling, and the keys that drive them.

use vstd::prelude::*;
use crate::logstore::LogStore;

verus! {

/// The entry after `selected` in a list of `len` entries (wrapping to the first), or
/// before it (wrapping to the last); with nothing selected, the first entry.
pub open spec fn switched(is_next: bool, selected: Option<usize>, len: nat) -> int {
    match selected {
        None => 0,
        Some(i) => if is_next {
            if i >= len - 1 { 0 } else { i + 1 }
        } else {
            if i == 0 { len - 1 } else { i - 1 }
        },
    }
}

/// Moves a list selection one entry on (`is_next`) or back, wrapping around. A list
/// of no entries has no last entry, so a selection in it cannot move.
pub fn np_switch(is_next: bool, selected: Option<usize>, items_len: usize) -> (r: usize)
    requires
        selected is Some ==> items_len >= 1,
    ensures
        r == switched(is_next, selected, items_len as nat),
{
    match is_next {
        true => match selected {
            Some(i) => {
                if i >= items_len - 1 {
                    0
                } else {
                    i + 1
                }
            },
            None => 0,
        },
        false => match selected {
            Some(i) => {
                if i == 0 {
                    items_len - 1
                } else {
                    i - 1
                }
            },
            None => 0,
        },
    }
}

/// Moving on and then back, or back and then on, returns to the same entry.
pub proof fn law_switch_round_trip(i: usize, len: usize)
    requires
        i < len,
    ensures
        switched(false, Some(switched(true, Some(i), len as nat) as usize), len as nat) == i,
        switched(true, Some(switched(false, Some(i), len as nat) as usize), len as nat) == i,
        0 <= switched(true, Some(i), len as nat) < len,
        0 <= switched(false, Some(i), len as nat) < len,
{
}

/// The pages of the dashboard, in menu order.
#[derive(Clone, Copy, PartialEq, Eq, Debug, Structural)]
pub enum CurrentPage {
    Dashboard,
    Proxies,
    Profiles,
    Connections,
    Rules,
    Logs,
    Test,
    Settings,
}

/// The page at position `i` of the menu.
pub open spec fn page_at(i: int) -> CurrentPage {
    if i == 0 {
        CurrentPage::Dashboard
    } else if i == 1 {
        CurrentPage::Proxies
    } else if i == 2 {
        CurrentPage::Profiles
    } else if i == 3 {
        CurrentPage::Connections
    } else if i == 4 {
        CurrentPage::Rules
    } else if i == 5 {
        CurrentPage::Logs
    } else if i == 6 {
        CurrentPage::Test
    } else {
        CurrentPage::Settings
    }
}

/// The page at position `i` of the menu; the menu has eight entries.
pub fn page_of_index(i: usize) -> (r: CurrentPage)
    requires
        i < 8,
    ensures
        r == page_at(i as int),
{
    match i {
        0 => CurrentPage::Dashboard,
        1 => CurrentPage::Proxies,
        2 => CurrentPage::Profiles,
        3 => CurrentPage::Connections,
        4 => CurrentPage::Rules,
        5 => CurrentPage::Logs,
        6 => CurrentPage::Test,
        _ => CurrentPage::Settings,
    }
}

/// The title of the sidebar's page menu.
pub open spec fn menu_title() -> &'static str {
    " Menu(Tab/BackTab) "
}

/// The entries of the sidebar's page menu, in the order of [`CurrentPage`].
pub open spec fn menu_entries() -> Seq<&'static str> {
    seq!["Dashboard", "Proxies", "Profiles", "Connections", "Rules", "Logs", "Test", "Settings"]
}

/// The sidebar's page menu: eight entries, one selected, and the page it shows.
pub struct SidebarTab {
    title: &'static str,
    items: Vec<&'static str>,
    selected: usize,
}

impl SidebarTab {
    #[verifier::type_invariant]
    closed spec fn wf(self) -> bool {
        &&& self.items@ == menu_entries()
        &&& self.title == menu_title()
        &&& self.selected < 8
    }

    /// The selected entry.
    pub closed spec fn selected_spec(&self) -> usize {
        self.selected
    }

    /// The menu on its first entry, the dashboard.
    pub fn new() -> (r: Self)
        ensures
            r.selected_spec() == 0,
    {
        SidebarTab {
            title: " Menu(Tab/BackTab) ",
            items: vec!["Dashboard", "Proxies", "Profiles", "Connections", "Rules", "Logs", "Test", "Settings"],
            selected: 0,
        }
    }

    /// The menu's title.
    pub fn title(&self) -> (r: &'static str)
        ensures
            r == menu_title(),
    {
        proof {
            use_type_invariant(self);
        }
        self.title
    }

    /// The menu's entries, in order.
    pub fn items(&self) -> (r: Vec<&'static str>)
        ensures
            r@ == menu_entries(),
    {
        proof {
            use_type_invariant(self);
        }
        let mut r: Vec<&'static str> = Vec::new();
        for i in 0..self.items.len()
            invariant
                r@ == self.items@.take(i as int),
        {
            r.push(self.items[i]);
            assert(self.items@.take(i + 1) == self.items@.take(i as int).push(self.items@[i as int]));
        }
        assert(self.items@.take(self.items@.len() as int) == self.items@);
        r
    }

    /// The selected entry.
    pub fn selected(&self) -> (r: usize)
        ensures
            r == self.selected_spec(),
            r < 8,
    {
        proof {
            use_type_invariant(self);
        }
        self.selected
    }

    /// The page of the selected entry.
    pub fn current_page(&self) -> (r: CurrentPage)
        ensures
            r == page_at(self.selected_spec() as int),
    {
        proof {
            use_type_invariant(self);
        }
        page_of_index(self.selected)
    }

    /// Selects the next entry, wrapping to the first.
    pub fn tab_next(&mut self)
        ensures
            final(self).selected_spec() == switched(true, Some(old(self).selected_spec()), 8),
    {
        proof {
            use_type_invariant(&*self);
        }
        let i = np_switch(true, Some(self.selected), self.items.len());
        self.selected = i;
    }

    /// Selects the previous entry, wrapping to the last.
    pub fn tab_previous(&mut self)
        ensures
            final(self).selected_spec() == switched(false, Some(old(self).selected_spec()), 8),
    {
        proof {
            use_type_invariant(&*self);
        }
        let i = np_switch(false, Some(self.selected), self.items.len());
        self.selected = i;
    }

    /// Selects entry `index`; the menu has eight entries.
    pub fn tab_switch(&mut self, index: usize)
        requires
            index < 8,
        ensures
            final(self).selected_spec() == index,
    {
        proof {
            use_type_invariant(&*self);
        }
        self.selected = index;
    }
}

/// The proxy mode that the sidebar's logo shows.
#[derive(Clone, Copy, PartialEq, Eq, Debug, Structural)]
pub enum ProxyMode {
    Off,
    Proxy,
    Tun,
}

/// The logo's mode for the system proxy's state (`None` when it is unknown): `Proxy`
/// when it is enabled, `Off` otherwise.
pub fn proxy_mode(system_proxy_enabled: Option<bool>) -> (r: ProxyMode)
    ensures
        r == (if system_proxy_enabled == Some(true) { ProxyMode::Proxy } else { ProxyMode::Off }),
{
    match system_proxy_enabled {
        Some(true) => ProxyMode::Proxy,
        _ => ProxyMode::Off,
    }
}

/// The sidebar's logo: the package name and version, colored by the proxy mode.
pub struct SidebarLogo {
    logo: String,
    version: String,
    mode: ProxyMode,
}

impl SidebarLogo {
    pub closed spec fn mode_spec(&self) -> ProxyMode {
        self.mode
    }

    /// The package name shown.
    pub closed spec fn logo_spec(&self) -> Seq<char> {
        self.logo@
    }

    /// The version shown.
    pub closed spec fn version_spec(&self) -> Seq<char> {
        self.version@
    }

    /// The logo for `logo` and `version`, with the proxy off.
    pub fn new(logo: &str, version: &str) -> (r: Self)
        ensures
            r.mode_spec() == ProxyMode::Off,
            r.logo_spec() == logo@,
            r.version_spec() == version@,
    {
        SidebarLogo { logo: crate::text::string_from(logo), version: crate::text::string_from(version), mode: ProxyMode::Off }
    }

    /// Follows the system proxy's state (see [`proxy_mode`]).
    pub fn update_mode(&mut self, system_proxy_enabled: Option<bool>)
        ensures
            final(self).logo_spec() == old(self).logo_spec(),
            final(self).version_spec() == old(self).version_spec(),
            final(self).mode_spec() == (if system_proxy_enabled == Some(true) { ProxyMode::Proxy } else { ProxyMode::Off }),
    {
        self.mode = proxy_mode(system_proxy_enabled);
    }

    /// The package name shown.
    pub fn logo(&self) -> (r: String)
        ensures
            r@ == self.logo_spec(),
    {
        self.logo.clone()
    }

    /// The version shown.
    pub fn version(&self) -> (r: String)
        ensures
            r@ == self.version_spec(),
    {
        self.version.clone()
    }

    /// The text of the logo: the package name in upper case, a space, `v` and the
    /// version.
    pub fn text(&self) -> (r: String)
        ensures
            r@ == crate::text::upper(self.logo_spec()) + " v"@ + self.version_spec(),
    {
        let mut r = crate::text::uppercase_string(self.logo.as_str());
        r.append(" v");
        r.append(self.version.as_str());
        r
    }

    /// The proxy mode shown.
    pub fn mode(&self) -> (r: ProxyMode)
        ensures
            r == self.mode_spec(),
    {
        self.mode
    }
}

/// The keys that the dashboard reacts to.
#[derive(Clone, Copy, PartialEq, Eq, Debug, Structural)]
pub enum Key {
    Char(char),
    Tab,
    BackTab,
    Enter,
    Esc,
    Other,
}

/// What a key press does at the top level.
#[derive(Clone, Copy, PartialEq, Eq, Debug, Structural)]
pub enum AppAction {
    Quit,
    TabNext,
    TabPrevious,
    TabSwitch(usize),
    /// Handled by the current page.
    Page(Key),
}

/// The top-level meaning of a key press (`ctrl` when Control is held alone): `q` or
/// Control-`c` quits, Tab and BackTab move through the menu, `1` to `8` pick a page,
/// any other key goes to the current page.
pub open spec fn app_action_of(ctrl: bool, key: Key) -> AppAction {
    match key {
        Key::Char(c) => if c == 'q' || (ctrl && (c == 'c' || c == 'C')) {
            AppAction::Quit
        } else if '1' <= c <= '8' {
            AppAction::TabSwitch((c as u32 - '1' as u32) as usize)
        } else {
            AppAction::Page(key)
        },
        Key::Tab => AppAction::TabNext,
        Key::BackTab => AppAction::TabPrevious,
        _ => AppAction::Page(key),
    }
}

/// The top-level meaning of a key press (see [`app_action_of`]).
pub fn app_action(ctrl: bool, key: Key) -> (r: AppAction)
    ensures
        r == app_action_of(ctrl, key),
        r matches AppAction::TabSwitch(i) ==> i < 8,
{
    match key {
        Key::Char(c) => {
            if c == 'q' || (ctrl && (c == 'c' || c == 'C')) {
                AppAction::Quit
            } else if '1' <= c && c <= '8' {
                AppAction::TabSwitch((c as u32 - '1' as u32) as usize)
            } else {
                AppAction::Page(key)
            }
        },
        Key::Tab => AppAction::TabNext,
        Key::BackTab => AppAction::TabPrevious,
        _ => AppAction::Page(key),
    }
}

/// `q` quits, with or without Control, and Control with `c` or `C` quits; Tab and
/// BackTab move through the menu; without such a quit, `1` to `8` pick the page at
/// their position from the first; and every other key, with or without Control, goes
/// to the current page unchanged.
pub proof fn law_app_keys(ctrl: bool, c: char)
    ensures
        app_action_of(ctrl, Key::Char('q')) == AppAction::Quit,
        app_action_of(true, Key::Char('c')) == AppAction::Quit,
        app_action_of(true, Key::Char('C')) == AppAction::Quit,
        app_action_of(ctrl, Key::Tab) == AppAction::TabNext,
        app_action_of(ctrl, Key::BackTab) == AppAction::TabPrevious,
        '1' <= c <= '8' ==> app_action_of(ctrl, Key::Char(c)) == AppAction::TabSwitch((c as u32 - '1' as u32) as usize)
            && (c as u32 - '1' as u32) < 8,
        c != 'q' && c != 'c' && c != 'C' && !('1' <= c <= '8') ==> app_action_of(ctrl, Key::Char(c)) == AppAction::Page(Key::Char(c)),
        !ctrl && c != 'q' && !('1' <= c <= '8') ==> app_action_of(ctrl, Key::Char(c)) == AppAction::Page(Key::Char(c)),
        app_action_of(ctrl, Key::Enter) == AppAction::Page(Key::Enter),
        app_action_of(ctrl, Key::Esc) == AppAction::Page(Key::Esc),
{
}

/// A vertically scrolled view: the scroll position moves by `step` and stops at two
/// lines past the last full screen.
pub struct ScrollView {
    step: usize,
    content_length: usize,
    viewport_height: usize,
    state_length: usize,
    position: usize,
}

/// The largest scroll position for `content_length` lines in `viewport_height` rows.
pub open spec fn pos_max_of(content_length: usize, viewport_height: usize) -> int {
    (if content_length >= viewport_height { content_length - viewport_height } else { 0 }) + 2
}

/// The position after scrolling down a step: the largest position `max` once the
/// position has reached it, else one step further.
pub open spec fn scrolled_down(pos: int, step: int, max: int) -> int {
    if pos >= max {
        max
    } else {
        pos + step
    }
}

/// The position after scrolling up a step: the top when at the top or when the step,
/// taken with the position as 32-bit signed numbers, goes above it; else one step back.
pub open spec fn scrolled_up(pos: usize, step: usize) -> int {
    if pos == 0 || (pos as i32) - (step as i32) < 0 {
        0
    } else {
        pos - step
    }
}

impl ScrollView {
    pub closed spec fn step_spec(&self) -> usize {
        self.step
    }

    pub closed spec fn content_length_spec(&self) -> usize {
        self.content_length
    }

    pub closed spec fn viewport_height_spec(&self) -> usize {
        self.viewport_height
    }

    pub closed spec fn position_spec(&self) -> usize {
        self.position
    }

    pub closed spec fn state_length_spec(&self) -> usize {
        self.state_length
    }

    /// A view at the top of no content, scrolling by `step`.
    pub fn new(step: usize) -> (r: Self)
        ensures
            r.step_spec() == step,
            r.content_length_spec() == 0,
            r.viewport_height_spec() == 0,
            r.position_spec() == 0,
            r.state_length_spec() == 0,
    {
        ScrollView { step, content_length: 0, viewport_height: 0, state_length: 0, position: 0 }
    }

    /// The largest scroll position.
    pub fn pos_max(&self) -> (r: usize)
        requires
            pos_max_of(self.content_length_spec(), self.viewport_height_spec()) <= usize::MAX,
        ensures
            r == pos_max_of(self.content_length_spec(), self.viewport_height_spec()),
    {
        self.content_length.saturating_sub(self.viewport_height) + 2
    }

    /// The scroll position.
    pub fn position(&self) -> (r: usize)
        ensures
            r == self.position_spec(),
    {
        self.position
    }

    /// The length that the scrollbar shows.
    pub fn state_length(&self) -> (r: usize)
        ensures
            r == self.state_length_spec(),
    {
        self.state_length
    }

    /// Scrolls down by a step, stopping at the largest position.
    pub fn j_handler(&mut self)
        requires
            pos_max_of(old(self).content_length_spec(), old(self).viewport_height_spec()) <= usize::MAX,
            old(self).position_spec() < pos_max_of(old(self).content_length_spec(), old(self).viewport_height_spec())
                ==> old(self).position_spec() + old(self).step_spec() <= usize::MAX,
        ensures
            final(self).position_spec() == scrolled_down(
                old(self).position_spec() as int,
                old(self).step_spec() as int,
                pos_max_of(old(self).content_length_spec(), old(self).viewport_height_spec()),
            ),
            final(self).step_spec() == old(self).step_spec(),
            final(self).content_length_spec() == old(self).content_length_spec(),
            final(self).viewport_height_spec() == old(self).viewport_height_spec(),
            final(self).state_length_spec() == old(self).state_length_spec(),
    {
        let max = self.pos_max();
        let pos = self.position;
        if pos >= max {
            self.position = max;
        } else {
            self.position = pos + self.step;
        }
    }

    /// Scrolls up by a step, stopping at the top. Whether a step fits above the position
    /// is decided on the two taken as 32-bit signed numbers.
    pub fn k_handler(&mut self)
        requires
            i32::MIN <= (old(self).position_spec() as i32) - (old(self).step_spec() as i32) <= i32::MAX,
            !(old(self).position_spec() == 0 || (old(self).position_spec() as i32) - (old(self).step_spec() as i32) < 0)
                ==> old(self).step_spec() <= old(self).position_spec(),
        ensures
            final(self).position_spec() == scrolled_up(old(self).position_spec(), old(self).step_spec()),
            final(self).step_spec() == old(self).step_spec(),
            final(self).content_length_spec() == old(self).content_length_spec(),
            final(self).viewport_height_spec() == old(self).viewport_height_spec(),
            final(self).state_length_spec() == old(self).state_length_spec(),
    {
        let pos = self.position;
        let step = self.step;
        if pos == 0 || (pos as i32 - step as i32) < 0 {
            self.position = 0;
        } else {
            self.position = pos - step;
        }
    }

    /// Records the content and viewport of a render; the scrollbar's length becomes
    /// the largest scroll position. The position is left as it is.
    pub fn set_view(&mut self, content_length: usize, viewport_height: usize)
        requires
            pos_max_of(content_length, viewport_height) <= usize::MAX,
        ensures
            final(self).content_length_spec() == content_length,
            final(self).viewport_height_spec() == viewport_height,
            final(self).state_length_spec() == pos_max_of(content_length, viewport_height),
            final(self).position_spec() == old(self).position_spec(),
            final(self).step_spec() == old(self).step_spec(),
    {
        self.content_length = content_length;
        self.viewport_height = viewport_height;
        self.state_length = self.pos_max();
    }

    /// Scrolls on `j` and `k`; other keys do nothing.
    pub fn handle_key(&mut self, key: Key)
        requires
            key == Key::Char('j') ==> pos_max_of(old(self).content_length_spec(), old(self).viewport_height_spec()) <= usize::MAX
                && (old(self).position_spec() < pos_max_of(old(self).content_length_spec(), old(self).viewport_height_spec())
                ==> old(self).position_spec() + old(self).step_spec() <= usize::MAX),
            key == Key::Char('k') ==> i32::MIN <= (old(self).position_spec() as i32) - (old(self).step_spec() as i32) <= i32::MAX
                && (!(old(self).position_spec() == 0 || (old(self).position_spec() as i32) - (old(self).step_spec() as i32) < 0)
                ==> old(self).step_spec() <= old(self).position_spec()),
        ensures
            key == Key::Char('j') ==> final(self).position_spec() == scrolled_down(
                old(self).position_spec() as int,
                old(self).step_spec() as int,
                pos_max_of(old(self).content_length_spec(), old(self).viewport_height_spec()),
            ),
            key == Key::Char('k') ==> final(self).position_spec() == scrolled_up(old(self).position_spec(), old(self).step_spec()),
            key != Key::Char('j') && key != Key::Char('k') ==> final(self).position_spec() == old(self).position_spec(),
            final(self).step_spec() == old(self).step_spec(),
            final(self).content_length_spec() == old(self).content_length_spec(),
            final(self).viewport_height_spec() == old(self).viewport_height_spec(),
    {
        match key {
            Key::Char('j') => self.j_handler(),
            Key::Char('k') => self.k_handler(),
            _ => {},
        }
    }
}

/// Scrolling down from within the largest position goes at most a step past it, and
/// from there back to it; a step up after a step down that was not cut short returns
/// to the start.
pub proof fn law_scroll_bounded(pos: usize, step: usize, max: int)
    requires
        pos <= max,
    ensures
        scrolled_down(pos as int, step as int, max) <= max + step,
        pos >= max ==> scrolled_down(pos as int, step as int, max) == max,
        scrolled_down(max + step, step as int, max) == max,
        pos < max && pos + step <= i32::MAX ==> scrolled_up((pos + step) as usize, step) == pos,
{
}

/// The log line after scrolling down a step over lines up to `last`: back to the first
/// past the last, else one step further.
pub open spec fn log_scrolled_down(pos: int, step: int, last: int) -> int {
    if pos >= last {
        0
    } else {
        pos + step
    }
}

/// The log line after scrolling up a step over lines up to `last`: a step above the
/// last when at the top or when the step, taken with the position as 32-bit signed
/// numbers, goes above it; else one step back.
pub open spec fn log_scrolled_up(pos: usize, step: usize, last: int) -> int {
    if pos == 0 || (pos as i32) - (step as i32) < 0 {
        last - step
    } else {
        pos - step
    }
}

/// The column after scrolling left a step: a step back unless at the left edge.
pub open spec fn scrolled_left(pos: usize, step: usize) -> int {
    if pos != 0 {
        pos - step
    } else {
        0
    }
}

/// On the log page, a step down that does not wrap followed by a step up returns to the
/// same line (unless both are zero: a step up from the top wraps to the last line), and
/// a step right followed by a step left returns to the same column.
pub proof fn law_log_scroll_round_trip(pos: usize, step: usize, last: int, col: usize)
    requires
        pos < last,
        0 < pos + step <= i32::MAX,
        col + step <= usize::MAX,
    ensures
        log_scrolled_up(log_scrolled_down(pos as int, step as int, last) as usize, step, last) == pos,
        scrolled_left((col + step) as usize, step) == col,
{
}

/// The scroll state of the log page: a vertical and a horizontal position, moved by
/// `step_len`.
pub struct LogsStatus {
    scrollbar_pos: (usize, usize),
    step_len: usize,
}

impl LogsStatus {
    pub closed spec fn pos_spec(&self) -> (usize, usize) {
        self.scrollbar_pos
    }

    pub closed spec fn step_spec(&self) -> usize {
        self.step_len
    }

    /// The log page at the top left, scrolling by `step_len`.
    pub fn new(step_len: usize) -> (r: Self)
        ensures
            r.pos_spec() == (0usize, 0usize),
            r.step_spec() == step_len,
    {
        LogsStatus { scrollbar_pos: (0, 0), step_len }
    }

    /// The archived log lines of `store`.
    pub fn get_inner(&self, store: &LogStore) -> (r: Vec<String>)
        ensures
            r@ == store@.archive,
    {
        store.get_inner()
    }

    /// The number of log lines of `store`.
    pub fn get_all_len(&self, store: &LogStore) -> (r: usize)
        requires
            store@.archive.len() + store@.buffer.len() <= usize::MAX,
        ensures
            r == store@.all().len(),
    {
        store.all_len()
    }

    /// The vertical and horizontal positions.
    pub fn get_scrollbar_pos(&self) -> (r: (usize, usize))
        ensures
            r == self.pos_spec(),
    {
        self.scrollbar_pos
    }

    /// Scrolls down by a step over `store`'s lines, wrapping to the top past the last.
    pub fn j_handler(&mut self, store: &LogStore)
        requires
            1 <= store@.archive.len() + store@.buffer.len() <= usize::MAX,
            old(self).pos_spec().0 < store@.all().len() - 1 ==> old(self).pos_spec().0 + old(self).step_spec() <= usize::MAX,
        ensures
            final(self).pos_spec().0 == log_scrolled_down(old(self).pos_spec().0 as int, old(self).step_spec() as int, store@.all().len() - 1),
            final(self).pos_spec().1 == old(self).pos_spec().1,
            final(self).step_spec() == old(self).step_spec(),
    {
        let max = self.get_all_len(store) - 1;
        let step = self.step_len;
        if self.scrollbar_pos.0 >= max {
            self.scrollbar_pos.0 = 0;
        } else {
            self.scrollbar_pos.0 = self.scrollbar_pos.0 + step;
        }
    }

    /// Scrolls up by a step over `store`'s lines, wrapping to a step above the last.
    pub fn k_handler(&mut self, store: &LogStore)
        requires
            1 <= store@.archive.len() + store@.buffer.len() <= usize::MAX,
            i32::MIN <= (old(self).pos_spec().0 as i32) - (old(self).step_spec() as i32) <= i32::MAX,
            old(self).pos_spec().0 == 0 || (old(self).pos_spec().0 as i32) - (old(self).step_spec() as i32) < 0
                ==> old(self).step_spec() <= store@.all().len() - 1,
            !(old(self).pos_spec().0 == 0 || (old(self).pos_spec().0 as i32) - (old(self).step_spec() as i32) < 0)
                ==> old(self).step_spec() <= old(self).pos_spec().0,
        ensures
            final(self).pos_spec().0 == log_scrolled_up(old(self).pos_spec().0, old(self).step_spec(), store@.all().len() - 1),
            final(self).pos_spec().1 == old(self).pos_spec().1,
            final(self).step_spec() == old(self).step_spec(),
    {
        let max = self.get_all_len(store) - 1;
        let step = self.step_len;
        let pos = self.scrollbar_pos.0;
        if pos == 0 || (pos as i32 - step as i32) < 0 {
            self.scrollbar_pos.0 = max - step;
        } else {
            self.scrollbar_pos.0 = pos - step;
        }
    }

    /// Scrolls left by a step unless already at the left edge.
    pub fn h_handler(&mut self)
        requires
            old(self).pos_spec().1 != 0 ==> old(self).step_spec() <= old(self).pos_spec().1,
        ensures
            final(self).pos_spec().1 == scrolled_left(old(self).pos_spec().1, old(self).step_spec()),
            final(self).pos_spec().0 == old(self).pos_spec().0,
            final(self).step_spec() == old(self).step_spec(),
    {
        let step = self.step_len;
        if self.scrollbar_pos.1 != 0 {
            self.scrollbar_pos.1 = self.scrollbar_pos.1 - step;
        }
    }

    /// Scrolls right by a step.
    pub fn l_handler(&mut self)
        requires
            old(self).pos_spec().1 + old(self).step_spec() <= usize::MAX,
        ensures
            final(self).pos_spec().1 == old(self).pos_spec().1 + old(self).step_spec(),
            final(self).pos_spec().0 == old(self).pos_spec().0,
            final(self).step_spec() == old(self).step_spec(),
    {
        self.scrollbar_pos.1 = self.scrollbar_pos.1 + self.step_len;
    }
}

} // verus!
