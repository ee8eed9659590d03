//! The proxies page: proxy groups and their proxies, which entry is selected, the
//! proxy each group currently uses, and the results of delay tests.

use vstd::prelude::*;
use vstd::string::StringExecFns;
use crate::config::ProxyGroup;
use crate::navigation::{np_switch, switched, Key};
use crate::subscription::chars_eq;
use crate::text::{chars_of, decimal, push_decimal, string_from};

verus! {

/// One proxy of a group, with the result of its last delay test: `None` when none was
/// made, `-1` when it timed out, else milliseconds.
pub struct ProxyItem {
    name: String,
    delay: Option<i32>,
}

/// One proxy group: its name, its proxies, and which of them it currently uses.
pub struct GroupItem {
    name: String,
    subitems: Vec<ProxyItem>,
    current_idx: usize,
}

/// Which list of the page has the keyboard focus.
#[derive(Clone, Copy, PartialEq, Eq, Debug, Structural)]
pub enum Focus {
    Group,
    Proxy,
}

/// A group as the contracts see it.
pub ghost struct GroupView {
    pub name: Seq<char>,
    pub proxies: Seq<Seq<char>>,
    pub delays: Seq<Option<i32>>,
    pub current: usize,
}

impl View for GroupItem {
    type V = GroupView;

    closed spec fn view(&self) -> GroupView {
        GroupView {
            name: self.name@,
            proxies: self.subitems@.map_values(|p: ProxyItem| p.name@),
            delays: self.subitems@.map_values(|p: ProxyItem| p.delay),
            current: self.current_idx,
        }
    }
}

/// What a key press on the proxies page asks of the caller.
pub enum ProxiesAction {
    /// Nothing beyond the page's own state.
    Nothing,
    /// Make the group (by name) use the proxy (by name).
    Select(String, String),
    /// Run a delay test of the group at this position, by name.
    DelayTest(usize, String),
}

/// The state of the proxies page.
pub struct Proxies {
    groups: Vec<GroupItem>,
    state: (Option<usize>, Option<usize>),
    focus: Focus,
}

/// The value that a delay-test result of `delays` gives `name`: the first entry for
/// the name, as a signed number, or `-1` when the name has no entry.
pub open spec fn delay_for(delays: Seq<(Seq<char>, u32)>, name: Seq<char>) -> i32
    decreases delays.len(),
{
    if delays.len() == 0 {
        -1i32
    } else if delays[0].0 == name {
        delays[0].1 as i32
    } else {
        delay_for(delays.drop_first(), name)
    }
}

/// The label of a group called `name` that uses the proxy `current`:
/// `<name>\n(<current>)`.
pub open spec fn group_label_of(name: Seq<char>, current: Seq<char>) -> Seq<char> {
    name + "\n("@ + current + ")"@
}

/// The position of the first `name` in `names` (or the length).
pub open spec fn position_of(names: Seq<Seq<char>>, name: Seq<char>) -> int
    decreases names.len(),
{
    if names.len() == 0 || names[0] == name {
        0
    } else {
        1 + position_of(names.drop_first(), name)
    }
}

proof fn lemma_position_found(names: Seq<Seq<char>>, name: Seq<char>)
    requires
        names.contains(name),
    ensures
        0 <= position_of(names, name) < names.len(),
        names[position_of(names, name)] == name,
    decreases names.len(),
{
    if names[0] != name {
        let j = choose|j: int| 0 <= j < names.len() && names[j] == name;
        assert(names.drop_first()[j - 1] == name);
        lemma_position_found(names.drop_first(), name);
    }
}

impl Proxies {
    /// The groups.
    pub closed spec fn groups_spec(&self) -> Seq<GroupView> {
        self.groups@.map_values(|g: GroupItem| g@)
    }

    /// The selected group and the selected proxy.
    pub closed spec fn state_spec(&self) -> (Option<usize>, Option<usize>) {
        self.state
    }

    pub closed spec fn focus_spec(&self) -> Focus {
        self.focus
    }

    /// A group is selected, and it exists.
    pub open spec fn group_selected(&self) -> bool {
        self.state_spec().0 is Some && self.state_spec().0->0 < self.groups_spec().len()
    }

    /// A group and one of its proxies are selected, and both exist.
    pub open spec fn proxy_selected(&self) -> bool {
        self.group_selected() && self.state_spec().1 is Some && self.state_spec().1->0 < self.groups_spec()[self.state_spec().0->0 as int].proxies.len()
    }

    /// The focused list's selection can move: a selected group is in a non-empty list;
    /// on the proxies, the selected group exists and a selected proxy is in a non-empty list.
    pub open spec fn can_switch(&self) -> bool {
        &&& self.focus_spec() == Focus::Group ==> (self.state_spec().0 is Some ==> self.groups_spec().len() >= 1)
        &&& self.focus_spec() == Focus::Proxy ==> self.group_selected() && (self.state_spec().1 is Some ==> self.groups_spec()[self.state_spec().0->0 as int].proxies.len() >= 1)
    }

    /// The selection after moving one entry on (`is_next`) or back in the focused list:
    /// on the groups, the next group with its first proxy; on the proxies, the next proxy
    /// of the selected group.
    pub open spec fn state_after_switch(&self, is_next: bool) -> (Option<usize>, Option<usize>) {
        if self.focus_spec() == Focus::Group {
            (Some(switched(is_next, self.state_spec().0, self.groups_spec().len()) as usize), Some(0usize))
        } else {
            (
                self.state_spec().0,
                Some(switched(is_next, self.state_spec().1, self.groups_spec()[self.state_spec().0->0 as int].proxies.len()) as usize),
            )
        }
    }

    /// The page for the configured groups: every proxy untested, each group on its first
    /// proxy, the first group and proxy selected, the focus on the groups.
    pub fn new(proxy_groups: &Vec<ProxyGroup>) -> (r: Self)
        ensures
            r.groups_spec().len() == proxy_groups@.len(),
            forall|i: int| 0 <= i < proxy_groups@.len() ==> {
                &&& #[trigger] r.groups_spec()[i].name == proxy_groups@[i].name@
                &&& r.groups_spec()[i].proxies == proxy_groups@[i].proxies@.map_values(|p: String| p@)
                &&& r.groups_spec()[i].delays == Seq::new(proxy_groups@[i].proxies@.len(), |k: int| None::<i32>)
                &&& r.groups_spec()[i].current == 0
            },
            r.state_spec() == (Some(0usize), Some(0usize)),
            r.focus_spec() == Focus::Group,
    {
        let mut groups: Vec<GroupItem> = Vec::new();
        for i in 0..proxy_groups.len()
            invariant
                groups@.len() == i,
                forall|k: int| 0 <= k < i ==> {
                    &&& (#[trigger] groups@[k])@.name == proxy_groups@[k].name@
                    &&& groups@[k]@.proxies == proxy_groups@[k].proxies@.map_values(|p: String| p@)
                    &&& groups@[k]@.delays == Seq::new(proxy_groups@[k].proxies@.len(), |j: int| None::<i32>)
                    &&& groups@[k]@.current == 0
                },
        {
            let g = &proxy_groups[i];
            let mut items: Vec<ProxyItem> = Vec::new();
            for j in 0..g.proxies.len()
                invariant
                    items@.len() == j,
                    forall|k: int| 0 <= k < j ==> (#[trigger] items@[k]).name@ == g.proxies@[k]@ && items@[k].delay is None,
            {
                items.push(ProxyItem { name: g.proxies[j].clone(), delay: None });
            }
            let item = GroupItem { name: g.name.clone(), subitems: items, current_idx: 0 };
            proof {
                assert(item@.proxies =~= g.proxies@.map_values(|p: String| p@));
                assert(item@.delays =~= Seq::new(g.proxies@.len(), |j: int| None::<i32>));
            }
            groups.push(item);
        }
        let r = Proxies { groups, state: (Some(0), Some(0)), focus: Focus::Group };
        r
    }

    /// The proxy that the first group uses.
    pub fn current_proxy(&self) -> (r: String)
        requires
            self.groups_spec().len() > 0,
            self.groups_spec()[0].current < self.groups_spec()[0].proxies.len(),
        ensures
            r@ == self.groups_spec()[0].proxies[self.groups_spec()[0].current as int],
    {
        let g = &self.groups[0];
        proof {
            assert(self.groups_spec()[0] == g@);
        }
        g.subitems[g.current_idx].name.clone()
    }

    /// The number of groups.
    pub fn group_count(&self) -> (r: usize)
        ensures
            r == self.groups_spec().len(),
    {
        self.groups.len()
    }

    /// The name of group `g`.
    pub fn group_name(&self, g: usize) -> (r: String)
        requires
            g < self.groups_spec().len(),
        ensures
            r@ == self.groups_spec()[g as int].name,
    {
        self.groups[g].name.clone()
    }

    /// The proxy that group `g` currently uses, by position.
    pub fn group_current(&self, g: usize) -> (r: usize)
        requires
            g < self.groups_spec().len(),
        ensures
            r == self.groups_spec()[g as int].current,
    {
        self.groups[g].current_idx
    }

    /// The number of proxies of group `g`.
    pub fn proxy_count(&self, g: usize) -> (r: usize)
        requires
            g < self.groups_spec().len(),
        ensures
            r == self.groups_spec()[g as int].proxies.len(),
    {
        self.groups[g].subitems.len()
    }

    /// The name and last delay of proxy `p` of group `g`.
    pub fn proxy_entry(&self, g: usize, p: usize) -> (r: (String, Option<i32>))
        requires
            g < self.groups_spec().len(),
            p < self.groups_spec()[g as int].proxies.len(),
        ensures
            r.0@ == self.groups_spec()[g as int].proxies[p as int],
            r.1 == self.groups_spec()[g as int].delays[p as int],
    {
        let item = &self.groups[g].subitems[p];
        (item.name.clone(), item.delay)
    }

    /// The label of group `g` in the groups list: its name, and on the next line the
    /// proxy it uses, in brackets.
    pub fn group_label(&self, g: usize) -> (r: String)
        requires
            g < self.groups_spec().len(),
            self.groups_spec()[g as int].current < self.groups_spec()[g as int].proxies.len(),
        ensures
            r@ == group_label_of(
                self.groups_spec()[g as int].name,
                self.groups_spec()[g as int].proxies[self.groups_spec()[g as int].current as int],
            ),
    {
        let item = &self.groups[g];
        proof {
            assert(self.groups_spec()[g as int] == item@);
        }
        let mut r = item.name.clone();
        r.append("\n(");
        r.append(item.subitems[item.current_idx].name.as_str());
        r.append(")");
        r
    }

    /// The selected group and proxy.
    pub fn selection(&self) -> (r: (Option<usize>, Option<usize>))
        ensures
            r == self.state_spec(),
    {
        self.state
    }

    /// Which list has the focus.
    pub fn focus(&self) -> (r: Focus)
        ensures
            r == self.focus_spec(),
    {
        self.focus
    }

    /// Enter: on the groups, moves the focus to the proxies; on the proxies, names the
    /// selected group and proxy for selection.
    pub fn enter_handler(&mut self) -> (r: Option<(String, String)>)
        requires
            old(self).focus_spec() == Focus::Proxy ==> old(self).proxy_selected(),
        ensures
            old(self).focus_spec() == Focus::Group ==> r is None && final(self).focus_spec() == Focus::Proxy,
            old(self).focus_spec() == Focus::Proxy ==> final(self).focus_spec() == Focus::Proxy && r is Some
                && r.unwrap().0@ == old(self).groups_spec()[old(self).state_spec().0->0 as int].name
                && r.unwrap().1@ == old(self).groups_spec()[old(self).state_spec().0->0 as int].proxies[old(self).state_spec().1->0 as int],
            final(self).groups_spec() == old(self).groups_spec(),
            final(self).state_spec() == old(self).state_spec(),
    {
        match self.focus {
            Focus::Group => {
                self.focus = Focus::Proxy;
                None
            },
            Focus::Proxy => {
                let g = match self.state.0 {
                    Some(g) => g,
                    None => 0,
                };
                let p = match self.state.1 {
                    Some(p) => p,
                    None => 0,
                };
                let group_name = self.groups[g].name.clone();
                let node = self.groups[g].subitems[p].name.clone();
                Some((group_name, node))
            },
        }
    }

    /// Moves the selection one entry on (`is_next`) or back in the focused list; moving
    /// through the groups puts the proxy selection on the first proxy.
    pub fn switch(&mut self, is_next: bool)
        requires
            old(self).can_switch(),
        ensures
            old(self).focus_spec() == Focus::Group ==> final(self).state_spec() == (
                Some(switched(is_next, old(self).state_spec().0, old(self).groups_spec().len()) as usize),
                Some(0usize),
            ),
            old(self).focus_spec() == Focus::Proxy ==> final(self).state_spec() == (
                old(self).state_spec().0,
                Some(
                    switched(
                        is_next,
                        old(self).state_spec().1,
                        old(self).groups_spec()[old(self).state_spec().0->0 as int].proxies.len(),
                    ) as usize,
                ),
            ),
            final(self).state_spec() == old(self).state_after_switch(is_next),
            final(self).groups_spec() == old(self).groups_spec(),
            final(self).focus_spec() == old(self).focus_spec(),
    {
        match self.focus {
            Focus::Group => {
                let g = np_switch(is_next, self.state.0, self.groups.len());
                self.state = (Some(g), Some(0));
            },
            Focus::Proxy => {
                let g = match self.state.0 {
                    Some(g) => g,
                    None => 0,
                };
                let p = np_switch(is_next, self.state.1, self.groups[g].subitems.len());
                self.state = (self.state.0, Some(p));
            },
        }
    }

    /// Names the selected group for a delay test.
    pub fn d_handler(&self) -> (r: (usize, String))
        requires
            self.group_selected(),
        ensures
            r.0 == self.state_spec().0->0,
            r.1@ == self.groups_spec()[r.0 as int].name,
    {
        let g = match self.state.0 {
            Some(g) => g,
            None => 0,
        };
        (g, self.groups[g].name.clone())
    }

    /// Sets the focus.
    pub fn set_focus(&mut self, focus: Focus)
        ensures
            final(self).focus_spec() == focus,
            final(self).groups_spec() == old(self).groups_spec(),
            final(self).state_spec() == old(self).state_spec(),
    {
        self.focus = focus;
    }

    /// Reacts to a key: Enter selects, Esc or `h` focuses the groups, `l` the proxies,
    /// `j` and `k` move, `d` asks for a delay test of the selected group.
    pub fn handle_key_event(&mut self, key: Key) -> (r: ProxiesAction)
        requires
            key == Key::Enter && old(self).focus_spec() == Focus::Proxy ==> old(self).proxy_selected(),
            key == Key::Char('j') || key == Key::Char('k') ==> old(self).can_switch(),
            key == Key::Char('d') ==> old(self).group_selected(),
        ensures
            key == Key::Esc || key == Key::Char('h') ==> final(self).focus_spec() == Focus::Group && r is Nothing,
            key == Key::Char('l') ==> final(self).focus_spec() == Focus::Proxy && r is Nothing,
            key == Key::Char('d') ==> r is DelayTest && r->DelayTest_0 == old(self).state_spec().0->0
                && r->DelayTest_1@ == old(self).groups_spec()[old(self).state_spec().0->0 as int].name,
            key == Key::Char('j') ==> r is Nothing && final(self).state_spec() == old(self).state_after_switch(true)
                && final(self).focus_spec() == old(self).focus_spec(),
            key == Key::Char('k') ==> r is Nothing && final(self).state_spec() == old(self).state_after_switch(false)
                && final(self).focus_spec() == old(self).focus_spec(),
            key == Key::Enter && old(self).focus_spec() == Focus::Group ==> r is Nothing && final(self).focus_spec() == Focus::Proxy,
            key == Key::Enter && old(self).focus_spec() == Focus::Proxy ==> final(self).focus_spec() == Focus::Proxy
                && r is Select && r->Select_0@ == old(self).groups_spec()[old(self).state_spec().0->0 as int].name
                && r->Select_1@ == old(self).groups_spec()[old(self).state_spec().0->0 as int].proxies[old(self).state_spec().1->0 as int],
            key != Key::Char('j') && key != Key::Char('k') ==> final(self).state_spec() == old(self).state_spec(),
            !(key == Key::Enter || key == Key::Esc || key == Key::Char('h') || key == Key::Char('l') || key == Key::Char('j')
                || key == Key::Char('k') || key == Key::Char('d')) ==> r is Nothing && final(self).focus_spec() == old(self).focus_spec(),
            key == Key::Char('d') ==> final(self).focus_spec() == old(self).focus_spec(),
            final(self).groups_spec() == old(self).groups_spec(),
    {
        match key {
            Key::Enter => match self.enter_handler() {
                Some((g, n)) => ProxiesAction::Select(g, n),
                None => ProxiesAction::Nothing,
            },
            Key::Esc | Key::Char('h') => {
                self.focus = Focus::Group;
                ProxiesAction::Nothing
            },
            Key::Char('l') => {
                self.focus = Focus::Proxy;
                ProxiesAction::Nothing
            },
            Key::Char('j') => {
                self.switch(true);
                ProxiesAction::Nothing
            },
            Key::Char('k') => {
                self.switch(false);
                ProxiesAction::Nothing
            },
            Key::Char('d') => {
                let (g, n) = self.d_handler();
                ProxiesAction::DelayTest(g, n)
            },
            _ => ProxiesAction::Nothing,
        }
    }

    /// Records the proxy that each group uses, given by name in group order. The names
    /// must be one per group and each a proxy of its group.
    pub fn sync_client(&mut self, current: &Vec<String>)
        requires
            current@.len() == old(self).groups_spec().len(),
            forall|i: int| 0 <= i < current@.len() ==> old(self).groups_spec()[i].proxies.contains(#[trigger] current@[i]@),
        ensures
            final(self).groups_spec().len() == old(self).groups_spec().len(),
            forall|i: int| 0 <= i < current@.len() ==> {
                &&& (#[trigger] final(self).groups_spec()[i]).current == position_of(old(self).groups_spec()[i].proxies, current@[i]@)
                &&& final(self).groups_spec()[i].current < final(self).groups_spec()[i].proxies.len()
                &&& final(self).groups_spec()[i].proxies[final(self).groups_spec()[i].current as int] == current@[i]@
                &&& final(self).groups_spec()[i].name == old(self).groups_spec()[i].name
                &&& final(self).groups_spec()[i].proxies == old(self).groups_spec()[i].proxies
                &&& final(self).groups_spec()[i].delays == old(self).groups_spec()[i].delays
            },
            final(self).state_spec() == old(self).state_spec(),
            final(self).focus_spec() == old(self).focus_spec(),
    {
        let ghost before = self.groups_spec();
        let mut groups: Vec<GroupItem> = Vec::new();
        std::mem::swap(&mut groups, &mut self.groups);
        let n = groups.len();
        let mut done: Vec<GroupItem> = Vec::new();
        let mut i: usize = 0;
        while i < n
            invariant
                n == before.len(),
                current@.len() == n,
                i <= n,
                groups@.len() == n - i,
                done@.len() == i,
                forall|k: int| 0 <= k < n - i ==> (#[trigger] groups@[k])@ == before[i + k],
                forall|k: int| 0 <= k < n ==> before[k].proxies.contains(#[trigger] current@[k]@),
                forall|k: int| 0 <= k < i ==> {
                    &&& (#[trigger] done@[k])@.current == position_of(before[k].proxies, current@[k]@)
                    &&& done@[k]@.current < before[k].proxies.len()
                    &&& before[k].proxies[done@[k]@.current as int] == current@[k]@
                    &&& done@[k]@.name == before[k].name
                    &&& done@[k]@.proxies == before[k].proxies
                    &&& done@[k]@.delays == before[k].delays
                },
            decreases n - i,
        {
            let ghost old_groups = groups@;
            let mut g = groups.remove(0);
            assert(g@ == before[i as int]);
            assert forall|k: int| 0 <= k < n - i - 1 implies (#[trigger] groups@[k])@ == before[i + 1 + k] by {
                assert(groups@[k] == old_groups[k + 1]);
            }
            let ghost names = g@.proxies;
            let mut j: usize = 0;
            assert(names.subrange(0, names.len() as int) == names);
            while j < g.subitems.len() && g.subitems[j].name != current[i]
                invariant
                    i < n,
                    current@.len() == n,
                    j <= g.subitems@.len(),
                    names == g.subitems@.map_values(|p: ProxyItem| p.name@),
                    position_of(names, current@[i as int]@) == j + position_of(names.subrange(j as int, names.len() as int), current@[i as int]@),
                decreases g.subitems@.len() - j,
            {
                proof {
                    let rest = names.subrange(j as int, names.len() as int);
                    assert(rest[0] == names[j as int]);
                    assert(rest.drop_first() == names.subrange(j + 1, names.len() as int));
                }
                j = j + 1;
            }
            proof {
                let rest = names.subrange(j as int, names.len() as int);
                lemma_position_found(names, current@[i as int]@);
                if j < g.subitems@.len() {
                    assert(rest[0] == current@[i as int]@);
                } else {
                    assert(rest.len() == 0);
                }
            }
            g.current_idx = j;
            done.push(g);
            i = i + 1;
        }
        self.groups = done;
        proof {
            assert forall|k: int| 0 <= k < current@.len() implies {
                &&& (#[trigger] self.groups_spec()[k]).current == position_of(before[k].proxies, current@[k]@)
                &&& self.groups_spec()[k].current < self.groups_spec()[k].proxies.len()
                &&& self.groups_spec()[k].proxies[self.groups_spec()[k].current as int] == current@[k]@
                &&& self.groups_spec()[k].name == before[k].name
                &&& self.groups_spec()[k].proxies == before[k].proxies
                &&& self.groups_spec()[k].delays == before[k].delays
            } by {
                assert(self.groups_spec()[k] == done@[k]@);
            }
        }
    }

    /// Records the results of a delay test of group `group_idx`: each proxy gets the
    /// delay given for its name, or `-1` (timed out) when none is given.
    pub fn update(&mut self, delays: &Vec<(String, u32)>, group_idx: usize)
        requires
            group_idx < old(self).groups_spec().len(),
        ensures
            final(self).groups_spec().len() == old(self).groups_spec().len(),
            forall|i: int| 0 <= i < old(self).groups_spec().len() && i != group_idx ==> #[trigger] final(self).groups_spec()[i] == old(self).groups_spec()[i],
            final(self).groups_spec()[group_idx as int].name == old(self).groups_spec()[group_idx as int].name,
            final(self).groups_spec()[group_idx as int].proxies == old(self).groups_spec()[group_idx as int].proxies,
            final(self).groups_spec()[group_idx as int].current == old(self).groups_spec()[group_idx as int].current,
            final(self).groups_spec()[group_idx as int].delays == Seq::new(
                old(self).groups_spec()[group_idx as int].proxies.len(),
                |k: int| Some(delay_for(delays@.map_values(|d: (String, u32)| (d.0@, d.1)), old(self).groups_spec()[group_idx as int].proxies[k])),
            ),
            final(self).state_spec() == old(self).state_spec(),
            final(self).focus_spec() == old(self).focus_spec(),
    {
        let ghost before = self.groups_spec();
        let ghost ds = delays@.map_values(|d: (String, u32)| (d.0@, d.1));
        let mut groups: Vec<GroupItem> = Vec::new();
        std::mem::swap(&mut groups, &mut self.groups);
        assert(groups@.map_values(|g: GroupItem| g@) == before);
        let mut g = groups.remove(group_idx);
        assert(g@ == before[group_idx as int]);
        let mut items: Vec<ProxyItem> = Vec::new();
        std::mem::swap(&mut items, &mut g.subitems);
        let ghost src = items@;
        let m = items.len();
        let mut out: Vec<ProxyItem> = Vec::new();
        let mut k: usize = 0;
        while k < m
            invariant
                m == src.len(),
                k <= m,
                items@ == src.subrange(k as int, m as int),
                out@.len() == k,
                ds == delays@.map_values(|d: (String, u32)| (d.0@, d.1)),
                forall|j: int| 0 <= j < k ==> (#[trigger] out@[j]).name@ == src[j].name@ && out@[j].delay == Some(delay_for(ds, src[j].name@)),
            decreases m - k,
        {
            let mut p = items.remove(0);
            assert(p == src[k as int]);
            assert(items@ == src.subrange(k + 1, m as int));
            p.delay = Some(lookup_delay(delays, &p.name));
            out.push(p);
            k = k + 1;
        }
        g.subitems = out;
        proof {
            assert(g@.proxies =~= before[group_idx as int].proxies);
            assert(g@.delays =~= Seq::new(
                before[group_idx as int].proxies.len(),
                |k: int| Some(delay_for(ds, before[group_idx as int].proxies[k])),
            ));
        }
        groups.insert(group_idx, g);
        self.groups = groups;
        proof {
            assert forall|i: int| 0 <= i < before.len() && i != group_idx implies #[trigger] self.groups_spec()[i] == before[i] by {}
        }
    }
}

/// After a delay test of a group run with `keep_fixed`, the proxy to fix the group to
/// again: the proxy it was fixed to before the test, unless that was none or empty.
pub fn fixed_to_restore(keep_fixed: bool, fixed: &Option<String>) -> (r: Option<String>)
    ensures
        keep_fixed && fixed is Some && fixed->0@.len() > 0 ==> r is Some && r->0@ == fixed->0@,
        !(keep_fixed && fixed is Some && fixed->0@.len() > 0) ==> r is None,
{
    if keep_fixed {
        match fixed {
            Some(f) => {
                if f.as_str().is_empty() {
                    None
                } else {
                    Some(f.clone())
                }
            },
            None => None,
        }
    } else {
        None
    }
}

/// The delay given for `name` in a delay-test result: the first entry for the name,
/// converted to a signed number, or `-1`.
pub fn lookup_delay(delays: &Vec<(String, u32)>, name: &String) -> (r: i32)
    ensures
        r == delay_for(delays@.map_values(|d: (String, u32)| (d.0@, d.1)), name@),
{
    let ghost ds = delays@.map_values(|d: (String, u32)| (d.0@, d.1));
    let mut i: usize = 0;
    assert(ds.subrange(0, ds.len() as int) == ds);
    while i < delays.len()
        invariant
            i <= delays@.len(),
            ds == delays@.map_values(|d: (String, u32)| (d.0@, d.1)),
            delay_for(ds, name@) == delay_for(ds.subrange(i as int, ds.len() as int), name@),
        decreases delays@.len() - i,
    {
        let ghost rest = ds.subrange(i as int, ds.len() as int);
        assert(rest[0] == ds[i as int]);
        assert(rest.drop_first() == ds.subrange(i + 1, ds.len() as int));
        if delays[i].0 == *name {
            return delays[i].1 as i32;
        }
        i = i + 1;
    }
    -1
}

} // verus!
