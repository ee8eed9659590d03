//! What the dashboard shows for delays and usage: the texts, the colors, and the
//! spacing that right-aligns a delay next to a proxy's name.

use vstd::prelude::*;
use vstd::string::StringExecFns;
use crate::socket_http::{all_visible_ascii, ascii_chars};
use crate::subscription::{first_header, usage_of, SubscriptionInfo, Usage};
use crate::navigation::{Key, ScrollView};
use crate::text::{decimal, push_decimal, string_from};

verus! {

/// The color of a delay.
#[derive(Clone, Copy, PartialEq, Eq, Debug, Structural)]
pub enum DelayColor {
    Red,
    Green,
    Blue,
    Yellow,
}

/// A proxy's delay on the proxies page: red for a timeout (`-1`) or no test, green
/// below 250 ms, blue below 500 ms, yellow otherwise.
pub open spec fn proxy_delay_color_of(value: Option<i32>) -> DelayColor {
    match value {
        Some(v) => if v == -1 {
            DelayColor::Red
        } else if 0 <= v < 250 {
            DelayColor::Green
        } else if 250 <= v < 500 {
            DelayColor::Blue
        } else {
            DelayColor::Yellow
        },
        None => DelayColor::Red,
    }
}

/// The color of a proxy's delay (see [`proxy_delay_color_of`]).
pub fn proxy_delay_color(value: Option<i32>) -> (r: DelayColor)
    ensures
        r == proxy_delay_color_of(value),
{
    match value {
        Some(v) => {
            if v == -1 {
                DelayColor::Red
            } else if 0 <= v && v < 250 {
                DelayColor::Green
            } else if 250 <= v && v < 500 {
                DelayColor::Blue
            } else {
                DelayColor::Yellow
            }
        },
        None => DelayColor::Red,
    }
}

/// The color of the selected node's delay on the dashboard: red for 0 (no result),
/// green below 250 ms, blue below 500 ms, yellow otherwise.
pub open spec fn node_delay_color_of(delay: u32) -> DelayColor {
    if delay == 0 {
        DelayColor::Red
    } else if delay < 250 {
        DelayColor::Green
    } else if delay < 500 {
        DelayColor::Blue
    } else {
        DelayColor::Yellow
    }
}

/// The color of the selected node's delay (see [`node_delay_color_of`]).
pub fn node_delay_color(delay: u32) -> (r: DelayColor)
    ensures
        r == node_delay_color_of(delay),
{
    if delay == 0 {
        DelayColor::Red
    } else if delay < 250 {
        DelayColor::Green
    } else if delay < 500 {
        DelayColor::Blue
    } else {
        DelayColor::Yellow
    }
}

/// The decimal rendering of a signed number.
pub open spec fn signed_decimal(v: int) -> Seq<char> {
    if v < 0 {
        "-"@ + decimal((-v) as nat)
    } else {
        decimal(v as nat)
    }
}

/// A proxy's delay as text: `<n>ms`, or nothing when untested.
pub fn delay_text(value: Option<i32>) -> (r: String)
    ensures
        r@ == match value {
            Some(v) => signed_decimal(v as int) + "ms"@,
            None => Seq::<char>::empty(),
        },
{
    match value {
        Some(v) => {
            let mut r = String::new();
            if v < 0 {
                r.append("-");
                push_decimal(&mut r, (-(v as i64)) as u64);
            } else {
                push_decimal(&mut r, v as u64);
            }
            r.append("ms");
            r
        },
        None => String::new(),
    }
}

/// The selected node's delay as text: `<n> ms`.
pub fn node_delay_text(delay: u32) -> (r: String)
    ensures
        r@ == decimal(delay as nat) + " ms"@,
{
    let mut r = String::new();
    push_decimal(&mut r, delay as u64);
    r.append(" ms");
    r
}

/// `UnicodeWidthStr::width`: the columns that a string takes on a terminal.
pub uninterp spec fn unicode_width(s: Seq<char>) -> usize;

/// The display width of `s`, by `unicode_width`. Its result, a function of the
/// characters alone (the Unicode width tables), is named, not stated.
#[verifier::external_body]
fn display_width(s: &str) -> (r: usize)
    ensures
        r == unicode_width(s@),
{
    unicode_width::UnicodeWidthStr::width(s)
}

/// The 32-bit arithmetic of `width - left - right - 3` stays in range.
pub open spec fn spacing_fits(width: u16, left: usize, right: usize) -> bool {
    let a = (width as i32) - (left as i32);
    &&& i32::MIN <= a <= i32::MAX
    &&& i32::MIN <= a - (right as i32) <= i32::MAX
    &&& i32::MIN <= a - (right as i32) - 3 <= i32::MAX
}

/// The spaces between a name `left` columns wide and a delay `right` columns wide in a
/// row `width` columns wide: what is left after three columns of margin, at least one.
pub open spec fn spacing_of(width: u16, left: usize, right: usize) -> int {
    let c = (width as i32) - (left as i32) - (right as i32) - 3;
    if c > 1 {
        c
    } else {
        1
    }
}

/// A row right-aligns its delay: when the name and delay leave more than one column
/// beyond the three of margin, name, spaces and delay fill the row up to that margin;
/// otherwise a single space separates them.
pub proof fn law_item_right_aligned(width: u16, left: usize, right: usize)
    requires
        left <= i32::MAX,
        right <= i32::MAX,
    ensures
        width - left - right - 3 > 1 ==> left + spacing_of(width, left, right) + right + 3 == width,
        width - left - right - 3 <= 1 ==> spacing_of(width, left, right) == 1,
{
}

/// The spaces between name and delay (see [`spacing_of`]), computed in 32-bit signed
/// arithmetic.
pub fn item_spacing(width: u16, left_width: usize, right_width: usize) -> (r: usize)
    requires
        spacing_fits(width, left_width, right_width),
    ensures
        r == spacing_of(width, left_width, right_width),
{
    let c: i32 = width as i32 - left_width as i32 - right_width as i32 - 3;
    let m: i32 = if c > 1 { c } else { 1 };
    m as usize
}

/// One row of the proxies list: the name, the spaces after it, the delay text and its
/// color.
pub struct ItemLayout {
    pub left: String,
    pub spaces: usize,
    pub right: String,
    pub color: DelayColor,
}

/// The row for proxy `name` with delay `value` in a row `width` columns wide; `None`
/// when the widths are beyond 32-bit arithmetic.
pub fn make_item(name: &str, value: Option<i32>, width: u16) -> (r: Option<ItemLayout>)
    ensures
        spacing_fits(width, unicode_width(name@), unicode_width(match value {
            Some(v) => signed_decimal(v as int) + "ms"@,
            None => Seq::<char>::empty(),
        })) ==> r is Some && r->0.left@ == name@ && r->0.right@ == match value {
            Some(v) => signed_decimal(v as int) + "ms"@,
            None => Seq::<char>::empty(),
        } && r->0.color == proxy_delay_color_of(value) && r->0.spaces == spacing_of(width, unicode_width(name@), unicode_width(r->0.right@)),
        !spacing_fits(width, unicode_width(name@), unicode_width(match value {
            Some(v) => signed_decimal(v as int) + "ms"@,
            None => Seq::<char>::empty(),
        })) ==> r is None,
{
    let right = delay_text(value);
    let lw = display_width(name);
    let rw = display_width(right.as_str());
    let a: i64 = width as i32 as i64 - lw as i32 as i64;
    let b: i64 = if i32::MIN as i64 <= a && a <= i32::MAX as i64 { a - rw as i32 as i64 } else { 0 };
    if !(i32::MIN as i64 <= a && a <= i32::MAX as i64) || !(i32::MIN as i64 <= b && b <= i32::MAX as i64) || !(
    i32::MIN as i64 <= b - 3 && b - 3 <= i32::MAX as i64) {
        return None;
    }
    let spaces = item_spacing(width, lw, rw);
    Some(ItemLayout { left: string_from(name), spaces, right, color: proxy_delay_color(value) })
}

/// Bytes in a megabyte.
pub const MB: u64 = 1048576;

/// The usage line of the dashboard: `<downloaded + uploaded> MB / <total> MB` in
/// whole megabytes, or `usage err` without a subscription or usage header.
pub open spec fn usage_line(usage: Option<crate::subscription::UsageSpec>) -> Seq<char> {
    match usage {
        Some(u) => decimal(((u.download + u.upload) / 1048576) as nat) + " MB / "@ + decimal(u.total / 1048576) + " MB"@,
        None => "usage err"@,
    }
}

/// The usage header of `info`, where present, reads as a string, and its traffic fits
/// in 64 bits.
pub open spec fn usage_fits<Time: Copy>(info: Option<SubscriptionInfo<Time>>) -> bool {
    info matches Some(i) ==> (first_header(i.headers_spec(), "subscription-userinfo"@) matches Some(v) ==> all_visible_ascii(v)
        && usage_of(ascii_chars(v)).download + usage_of(ascii_chars(v)).upload <= u64::MAX)
}

/// The usage line for `info` (see [`usage_line`]).
pub open spec fn usage_line_of<Time: Copy>(info: Option<SubscriptionInfo<Time>>) -> Seq<char> {
    usage_line(match info {
        Some(i) => match first_header(i.headers_spec(), "subscription-userinfo"@) {
            Some(v) => Some(usage_of(ascii_chars(v))),
            None => None,
        },
        None => None,
    })
}

/// The usage line for `info` (see [`usage_line`]). The usage header, where present,
/// must read as a string, and the traffic must fit in 64 bits.
pub fn usage_text<Time: Copy>(info: &Option<SubscriptionInfo<Time>>) -> (r: String)
    requires
        usage_fits(*info),
    ensures
        r@ == usage_line_of(*info),
{
    match info {
        Some(i) => match i.parse_usage() {
            Some(u) => {
                let mut r = String::new();
                push_decimal(&mut r, (u.download + u.upload) / MB);
                r.append(" MB / ");
                push_decimal(&mut r, u.total / MB);
                r.append(" MB");
                r
            },
            None => string_from("usage err"),
        },
        None => string_from("usage err"),
    }
}


/// The sections of the dashboard page: each a title followed by the labels of its
/// lines.
pub open spec fn dashboard_sections() -> Seq<Seq<&'static str>> {
    seq![
        seq!["Profiles", "From: ", "Update Time: ", "Used / Total: "],
        seq!["CurrentNode", "Selected: ", "Delay: "],
        seq!["NetworkSettings", "System Proxy: ", "Tun Mode: "],
        seq!["ProxyMode", "Mode: "],
        seq!["TrafficStats", "Upload Speed: ", "Download Speed: ", "Uploaded: ", "Downloaded: ", "Active Connections: ", "Core Usage: "],
        seq!["WebsiteTests", "Apple: ", "GitHub: ", "Google: ", "YouTube: "],
        seq!["IpInformation", "IP: ", "ASN: ", "ISP: ", "ORG: ", "Location: ", "Timezone: "],
        seq!["ClashInfo", "Core Version: ", "System Proxy Address: ", "Mixed Port: ", "Uptime: ", "Rules Count: "],
        seq!["SystemInfo", "OS Info: ", "Auto Launch: ", "Running Mode: ", "Last Check Update: ", "Akasha Version: "],
    ]
}

/// The heading line of a section titled `title`.
pub open spec fn section_heading_of(title: Seq<char>) -> Seq<char> {
    ">>> "@ + title + " <<<"@
}

/// The heading line of a section titled `title`: `>>> <title> <<<`.
pub fn section_heading(title: &str) -> (r: String)
    ensures
        r@ == section_heading_of(title@),
{
    let mut r = string_from(">>> ");
    r.append(title);
    r.append(" <<<");
    r
}

/// The dashboard page: its sections, the subscription, the node in use and its delay,
/// the system proxy's state, and the scrolling of the page.
pub struct Dashboard<Time> {
    sections: Vec<Vec<&'static str>>,
    subscription_info: Option<SubscriptionInfo<Time>>,
    current_node: Option<String>,
    node_delay: u32,
    system_proxy: Option<bool>,
    scroll: ScrollView,
}

impl<Time: Copy> Dashboard<Time> {
    pub closed spec fn node_spec(&self) -> Option<Seq<char>> {
        match &self.current_node {
            Some(n) => Some(n@),
            None => None,
        }
    }

    pub closed spec fn delay_spec(&self) -> u32 {
        self.node_delay
    }

    pub closed spec fn system_proxy_spec(&self) -> Option<bool> {
        self.system_proxy
    }

    pub closed spec fn has_subscription(&self) -> bool {
        self.subscription_info is Some
    }

    /// The recorded subscription.
    pub closed spec fn subscription_spec(&self) -> Option<SubscriptionInfo<Time>> {
        self.subscription_info
    }

    /// The page's scroll state.
    pub closed spec fn scroll_spec(&self) -> ScrollView {
        self.scroll
    }

    /// The sections shown, each a title followed by its labels.
    pub closed spec fn sections_spec(&self) -> Seq<Seq<&'static str>> {
        self.sections@.map_values(|v: Vec<&'static str>| v@)
    }

    /// An empty dashboard with the page's sections, at the top, scrolling two lines at a
    /// time.
    pub fn new() -> (r: Self)
        ensures
            r.sections_spec() == dashboard_sections(),
            r.node_spec() is None,
            r.delay_spec() == 0,
            r.system_proxy_spec() is None,
            !r.has_subscription(),
            r.scroll_spec().step_spec() == 2,
            r.scroll_spec().position_spec() == 0,
            r.scroll_spec().content_length_spec() == 0,
            r.scroll_spec().viewport_height_spec() == 0,
            r.scroll_spec().state_length_spec() == 0,
    {
        let sections: Vec<Vec<&'static str>> = vec![
            vec!["Profiles", "From: ", "Update Time: ", "Used / Total: "],
            vec!["CurrentNode", "Selected: ", "Delay: "],
            vec!["NetworkSettings", "System Proxy: ", "Tun Mode: "],
            vec!["ProxyMode", "Mode: "],
            vec!["TrafficStats", "Upload Speed: ", "Download Speed: ", "Uploaded: ", "Downloaded: ", "Active Connections: ", "Core Usage: "],
            vec!["WebsiteTests", "Apple: ", "GitHub: ", "Google: ", "YouTube: "],
            vec!["IpInformation", "IP: ", "ASN: ", "ISP: ", "ORG: ", "Location: ", "Timezone: "],
            vec!["ClashInfo", "Core Version: ", "System Proxy Address: ", "Mixed Port: ", "Uptime: ", "Rules Count: "],
            vec!["SystemInfo", "OS Info: ", "Auto Launch: ", "Running Mode: ", "Last Check Update: ", "Akasha Version: "],
        ];
        let r = Dashboard {
            sections,
            subscription_info: None,
            current_node: None,
            node_delay: 0,
            system_proxy: None,
            scroll: ScrollView::new(2),
        };
        assert(r.sections_spec() =~= dashboard_sections());
        r
    }

    /// The sections shown, each a title followed by its labels.
    pub fn sections(&self) -> (r: &Vec<Vec<&'static str>>)
        ensures
            r@.map_values(|v: Vec<&'static str>| v@) == self.sections_spec(),
    {
        &self.sections
    }

    /// Records the system proxy's state and the node in use.
    pub fn update(&mut self, system_proxy: Option<bool>, current_node: String)
        ensures
            final(self).sections_spec() == old(self).sections_spec(),
            final(self).system_proxy_spec() == system_proxy,
            final(self).node_spec() == Some(current_node@),
            final(self).delay_spec() == old(self).delay_spec(),
    {
        self.system_proxy = system_proxy;
        self.current_node = Some(current_node);
    }

    /// Records a fetched subscription (or that fetching failed).
    pub fn set_subscription(&mut self, info: Option<SubscriptionInfo<Time>>)
        ensures
            final(self).sections_spec() == old(self).sections_spec(),
            final(self).has_subscription() == info is Some,
            final(self).subscription_spec() == info,
            final(self).system_proxy_spec() == old(self).system_proxy_spec(),
            final(self).node_spec() == old(self).node_spec(),
            final(self).delay_spec() == old(self).delay_spec(),
    {
        self.subscription_info = info;
    }

    /// Records the delay of the node in use.
    pub fn set_node_delay(&mut self, delay: u32)
        ensures
            final(self).sections_spec() == old(self).sections_spec(),
            final(self).delay_spec() == delay,
            final(self).node_spec() == old(self).node_spec(),
    {
        self.node_delay = delay;
    }

    /// The subscription, if fetched.
    pub fn subscription(&self) -> (r: &Option<SubscriptionInfo<Time>>)
        ensures
            *r == self.subscription_spec(),
    {
        &self.subscription_info
    }

    /// The node in use, or `xxx` while unknown.
    pub fn selected_text(&self) -> (r: String)
        ensures
            r@ == match self.node_spec() {
                Some(n) => n,
                None => "xxx"@,
            },
    {
        match &self.current_node {
            Some(n) => n.clone(),
            None => string_from("xxx"),
        }
    }

    /// The node's delay as text and its color.
    pub fn node_delay(&self) -> (r: (String, DelayColor))
        ensures
            r.0@ == decimal(self.delay_spec() as nat) + " ms"@,
            r.1 == node_delay_color_of(self.delay_spec()),
    {
        (node_delay_text(self.node_delay), node_delay_color(self.node_delay))
    }

    /// The system proxy's state as text: `ON`, `OFF`, or `none` while unknown, with its
    /// color (green, red, none).
    pub fn system_proxy_text(&self) -> (r: (&'static str, Option<DelayColor>))
        ensures
            r.0@ == match self.system_proxy_spec() {
                Some(true) => "ON"@,
                Some(false) => "OFF"@,
                None => "none"@,
            },
            r.1 == match self.system_proxy_spec() {
                Some(true) => Some(DelayColor::Green),
                Some(false) => Some(DelayColor::Red),
                None => None::<DelayColor>,
            },
    {
        match self.system_proxy {
            Some(true) => ("ON", Some(DelayColor::Green)),
            Some(false) => ("OFF", Some(DelayColor::Red)),
            None => ("none", None),
        }
    }

    /// The text shown after the label of line `line` of section `section`, and its
    /// color, given the subscription link and the text of the update time: the link, the
    /// update time (`time err` without a subscription) and the usage in the first
    /// section; the node in use and its delay in the second; the system proxy's state in
    /// the third; `xxx` elsewhere.
    pub open spec fn line_value_spec(&self, section: int, line: int, link: Seq<char>, time: Seq<char>) -> (Seq<char>, Option<DelayColor>) {
        if section == 0 && line == 1 {
            (link, None)
        } else if section == 0 && line == 2 {
            (if self.has_subscription() { time } else { "time err"@ }, None)
        } else if section == 0 && line == 3 {
            (usage_line_of(self.subscription_spec()), None)
        } else if section == 1 && line == 1 {
            (match self.node_spec() {
                Some(n) => n,
                None => "xxx"@,
            }, None)
        } else if section == 1 && line == 2 {
            (decimal(self.delay_spec() as nat) + " ms"@, Some(node_delay_color_of(self.delay_spec())))
        } else if section == 2 && line == 1 {
            match self.system_proxy_spec() {
                Some(true) => ("ON"@, Some(DelayColor::Green)),
                Some(false) => ("OFF"@, Some(DelayColor::Red)),
                None => ("none"@, None),
            }
        } else {
            ("xxx"@, None)
        }
    }

    /// The text and color after the label of line `line` of section `section` (see
    /// [`Dashboard::line_value_spec`]); `time` is the text of the update time.
    pub fn line_value(&self, section: usize, line: usize, link: &str, time: &str) -> (r: (String, Option<DelayColor>))
        requires
            section == 0 && line == 3 ==> usage_fits(self.subscription_spec()),
        ensures
            (r.0@, r.1) == self.line_value_spec(section as int, line as int, link@, time@),
    {
        if section == 0 && line == 1 {
            (string_from(link), None)
        } else if section == 0 && line == 2 {
            match &self.subscription_info {
                Some(_) => (string_from(time), None),
                None => (string_from("time err"), None),
            }
        } else if section == 0 && line == 3 {
            (usage_text(&self.subscription_info), None)
        } else if section == 1 && line == 1 {
            (self.selected_text(), None)
        } else if section == 1 && line == 2 {
            let (t, c) = self.node_delay();
            (t, Some(c))
        } else if section == 2 && line == 1 {
            let (t, c) = self.system_proxy_text();
            (string_from(t), c)
        } else {
            (string_from("xxx"), None)
        }
    }

    /// The page's scroll state.
    pub fn scroll(&mut self) -> (r: &mut ScrollView)
        ensures
            final(self).sections_spec() == old(self).sections_spec(),
            *r == old(self).scroll_spec(),
            final(self).scroll_spec() == *final(r),
            final(self).subscription_spec() == old(self).subscription_spec(),
            final(self).node_spec() == old(self).node_spec(),
            final(self).delay_spec() == old(self).delay_spec(),
            final(self).system_proxy_spec() == old(self).system_proxy_spec(),
    {
        &mut self.scroll
    }
}

} // verus!
