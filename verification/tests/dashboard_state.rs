use akasha::config::ProxyGroup;
use akasha::display::{
    delay_text, item_spacing, make_item, node_delay_color, proxy_delay_color, section_heading, usage_text, Dashboard,
    DelayColor,
};
use akasha::navigation::{
    app_action, np_switch, page_of_index, proxy_mode, AppAction, CurrentPage, Key, LogsStatus, ProxyMode,
    ScrollView, SidebarLogo, SidebarTab,
};
use akasha::logstore::LogStore;
use akasha::proxies::{fixed_to_restore, lookup_delay, Focus, Proxies, ProxiesAction};
use akasha::subscription::SubscriptionInfo;
use akasha::websocket::{generate_websocket_key, websocket_key_from_bytes};

#[test]
fn switching_wraps_around() {
    assert_eq!(np_switch(true, Some(0), 3), 1);
    assert_eq!(np_switch(true, Some(2), 3), 0);
    assert_eq!(np_switch(false, Some(0), 3), 2);
    assert_eq!(np_switch(false, Some(2), 3), 1);
    assert_eq!(np_switch(true, None, 0), 0);
    for i in 0..5 {
        assert_eq!(np_switch(false, Some(np_switch(true, Some(i), 5)), 5), i);
    }
}

#[test]
fn sidebar_menu_pages() {
    let mut tab = SidebarTab::new();
    assert_eq!(tab.current_page(), CurrentPage::Dashboard);
    tab.tab_previous();
    assert_eq!(tab.current_page(), CurrentPage::Settings);
    tab.tab_next();
    tab.tab_next();
    assert_eq!(tab.current_page(), CurrentPage::Proxies);
    tab.tab_switch(5);
    assert_eq!(tab.current_page(), CurrentPage::Logs);
    assert_eq!(tab.items().len(), 8);
    assert_eq!(page_of_index(6), CurrentPage::Test);
}

#[test]
fn keys_at_top_level() {
    assert_eq!(app_action(false, Key::Char('q')), AppAction::Quit);
    assert_eq!(app_action(true, Key::Char('C')), AppAction::Quit);
    assert_eq!(app_action(false, Key::Char('c')), AppAction::Page(Key::Char('c')));
    assert_eq!(app_action(false, Key::Tab), AppAction::TabNext);
    assert_eq!(app_action(false, Key::BackTab), AppAction::TabPrevious);
    assert_eq!(app_action(false, Key::Char('8')), AppAction::TabSwitch(7));
    assert_eq!(app_action(false, Key::Char('9')), AppAction::Page(Key::Char('9')));
    assert_eq!(app_action(false, Key::Enter), AppAction::Page(Key::Enter));
}

#[test]
fn scroll_view_limits() {
    let mut v = ScrollView::new(2);
    v.set_view(10, 6);
    assert_eq!(v.pos_max(), 6);
    assert_eq!(v.state_length(), 6);
    for _ in 0..5 {
        v.handle_key(Key::Char('j'));
    }
    assert_eq!(v.position(), 6);
    v.handle_key(Key::Char('k'));
    assert_eq!(v.position(), 4);
    v.handle_key(Key::Char('x'));
    assert_eq!(v.position(), 4);
    let mut w = ScrollView::new(3);
    w.set_view(1, 5);
    w.j_handler();
    assert_eq!(w.position(), 3);
    w.j_handler();
    assert_eq!(w.position(), 2);
    w.k_handler();
    w.k_handler();
    assert_eq!(w.position(), 0);
}

#[test]
fn log_page_scrolling() {
    let mut store = LogStore::new(10);
    for i in 0..5 {
        store.push(format!("{i}"));
    }
    let mut s = LogsStatus::new(2);
    assert_eq!(s.get_all_len(&store), 5);
    s.j_handler(&store);
    s.j_handler(&store);
    assert_eq!(s.get_scrollbar_pos(), (4, 0));
    s.j_handler(&store);
    assert_eq!(s.get_scrollbar_pos(), (0, 0));
    s.k_handler(&store);
    assert_eq!(s.get_scrollbar_pos(), (2, 0));
    s.l_handler();
    s.l_handler();
    s.h_handler();
    assert_eq!(s.get_scrollbar_pos(), (2, 2));
    assert!(s.get_inner(&store).is_empty());
}

#[test]
fn logo_follows_system_proxy() {
    assert_eq!(proxy_mode(Some(true)), ProxyMode::Proxy);
    assert_eq!(proxy_mode(Some(false)), ProxyMode::Off);
    assert_eq!(proxy_mode(None), ProxyMode::Off);
    let mut logo = SidebarLogo::new("akasha", "0.1.0");
    logo.update_mode(Some(true));
    assert_eq!(logo.mode(), ProxyMode::Proxy);
    assert_eq!(logo.logo(), "akasha");
}

fn groups() -> Vec<ProxyGroup> {
    vec![
        ProxyGroup { name: "GLOBAL".into(), group_type: "select".into(), proxies: vec!["DIRECT".into(), "hk".into(), "jp".into()] },
        ProxyGroup { name: "Auto".into(), group_type: "url-test".into(), proxies: vec!["hk".into(), "jp".into()] },
    ]
}

#[test]
fn proxies_page_navigation() {
    let mut p = Proxies::new(&groups());
    assert_eq!(p.selection(), (Some(0), Some(0)));
    assert_eq!(p.focus(), Focus::Group);
    assert!(matches!(p.handle_key_event(Key::Char('j')), ProxiesAction::Nothing));
    assert_eq!(p.selection(), (Some(1), Some(0)));
    assert!(matches!(p.handle_key_event(Key::Enter), ProxiesAction::Nothing));
    assert_eq!(p.focus(), Focus::Proxy);
    p.handle_key_event(Key::Char('k'));
    assert_eq!(p.selection(), (Some(1), Some(1)));
    match p.handle_key_event(Key::Enter) {
        ProxiesAction::Select(g, n) => assert_eq!((g.as_str(), n.as_str()), ("Auto", "jp")),
        _ => panic!("expected a selection"),
    }
    match p.handle_key_event(Key::Char('d')) {
        ProxiesAction::DelayTest(i, g) => assert_eq!((i, g.as_str()), (1, "Auto")),
        _ => panic!("expected a delay test"),
    }
    p.handle_key_event(Key::Char('h'));
    assert_eq!(p.focus(), Focus::Group);
}

#[test]
fn proxies_page_current_and_delays() {
    let mut p = Proxies::new(&groups());
    assert_eq!(p.current_proxy(), "DIRECT");
    p.sync_client(&vec!["jp".to_string(), "hk".to_string()]);
    assert_eq!(p.current_proxy(), "jp");
    assert_eq!(p.group_current(1), 0);
    let delays = vec![("hk".to_string(), 120u32), ("DIRECT".to_string(), 3)];
    p.update(&delays, 0);
    assert_eq!(p.proxy_entry(0, 0), ("DIRECT".to_string(), Some(3)));
    assert_eq!(p.proxy_entry(0, 1), ("hk".to_string(), Some(120)));
    assert_eq!(p.proxy_entry(0, 2), ("jp".to_string(), Some(-1)));
    assert_eq!(p.proxy_entry(1, 0), ("hk".to_string(), None));
    assert_eq!(lookup_delay(&delays, &"nope".to_string()), -1);
    assert_eq!(lookup_delay(&vec![("x".to_string(), u32::MAX)], &"x".to_string()), -1);
}

#[test]
fn fixed_node_restored_after_delay_test() {
    assert_eq!(fixed_to_restore(true, &Some("hk".to_string())), Some("hk".to_string()));
    assert_eq!(fixed_to_restore(true, &Some(String::new())), None);
    assert_eq!(fixed_to_restore(false, &Some("hk".to_string())), None);
    assert_eq!(fixed_to_restore(true, &None), None);
}

#[test]
fn delay_colors_and_texts() {
    assert_eq!(proxy_delay_color(Some(-1)), DelayColor::Red);
    assert_eq!(proxy_delay_color(Some(0)), DelayColor::Green);
    assert_eq!(proxy_delay_color(Some(250)), DelayColor::Blue);
    assert_eq!(proxy_delay_color(Some(500)), DelayColor::Yellow);
    assert_eq!(proxy_delay_color(Some(-7)), DelayColor::Yellow);
    assert_eq!(proxy_delay_color(None), DelayColor::Red);
    assert_eq!(node_delay_color(0), DelayColor::Red);
    assert_eq!(node_delay_color(249), DelayColor::Green);
    assert_eq!(node_delay_color(499), DelayColor::Blue);
    assert_eq!(node_delay_color(500), DelayColor::Yellow);
    assert_eq!(delay_text(Some(-1)), "-1ms");
    assert_eq!(delay_text(Some(i32::MIN)), format!("{}ms", i32::MIN));
    assert_eq!(delay_text(Some(87)), "87ms");
    assert_eq!(delay_text(None), "");
}

#[test]
fn item_layout_right_aligns_delay() {
    let item = make_item("hk-01", Some(87), 30).unwrap();
    assert_eq!(item.left, "hk-01");
    assert_eq!(item.right, "87ms");
    assert_eq!(item.spaces, 30 - 5 - 4 - 3);
    assert_eq!(item.color, DelayColor::Green);
    let wide = make_item("日本", None, 10).unwrap();
    assert_eq!(wide.spaces, 10 - 4 - 0 - 3);
    assert_eq!(make_item("a-very-long-proxy-name", None, 5).unwrap().spaces, 1);
    assert_eq!(item_spacing(20, 3, 4), 10);
}

#[test]
fn usage_line_in_megabytes() {
    let none: Option<SubscriptionInfo<u8>> = None;
    assert_eq!(usage_text(&none), "usage err");
    let info = SubscriptionInfo::new(
        "u".to_string(),
        vec![("subscription-userinfo".to_string(), b"upload=1048576; download=2097152; total=10485760".to_vec())],
        String::new(),
        0u8,
    );
    assert_eq!(usage_text(&Some(info)), "3 MB / 10 MB");
    let bare = SubscriptionInfo::new("u".to_string(), vec![], String::new(), 0u8);
    assert_eq!(usage_text(&Some(bare)), "usage err");
}

#[test]
fn dashboard_texts() {
    let mut d: Dashboard<u8> = Dashboard::new();
    assert_eq!(d.selected_text(), "xxx");
    assert_eq!(d.system_proxy_text(), ("none", None));
    d.update(Some(true), "hk".to_string());
    d.set_node_delay(300);
    assert_eq!(d.selected_text(), "hk");
    assert_eq!(d.system_proxy_text(), ("ON", Some(DelayColor::Green)));
    assert_eq!(d.node_delay(), ("300 ms".to_string(), DelayColor::Blue));
    d.update(Some(false), "jp".to_string());
    assert_eq!(d.system_proxy_text(), ("OFF", Some(DelayColor::Red)));
}

#[test]
fn websocket_keys() {
    assert_eq!(websocket_key_from_bytes(&[0u8; 16]), "AAAAAAAAAAAAAAAAAAAAAA==");
    let bytes: [u8; 16] = *b"the sample nonce";
    assert_eq!(websocket_key_from_bytes(&bytes), "dGhlIHNhbXBsZSBub25jZQ==");
    let k = generate_websocket_key();
    assert_eq!(k.len(), 24);
    assert!(k.ends_with("=="));
}

#[test]
fn sync_points_groups_at_named_proxies() {
    let mut p = Proxies::new(&groups());
    let names = vec!["hk".to_string(), "hk".to_string()];
    p.sync_client(&names);
    for g in 0..p.group_count() {
        let current = p.group_current(g);
        assert!(current < p.proxy_count(g));
        assert_eq!(p.proxy_entry(g, current).0, names[g]);
    }
}

#[test]
fn log_scroll_round_trips() {
    let mut store = LogStore::new(10);
    for i in 0..7 {
        store.push(format!("{i}"));
    }
    let mut s = LogsStatus::new(2);
    s.j_handler(&store);
    s.j_handler(&store);
    s.k_handler(&store);
    assert_eq!(s.get_scrollbar_pos(), (2, 0));
    s.l_handler();
    s.h_handler();
    assert_eq!(s.get_scrollbar_pos(), (2, 0));
    let mut top = LogsStatus::new(0);
    top.k_handler(&store);
    assert_eq!(top.get_scrollbar_pos(), (6, 0));
}

#[test]
fn dashboard_sections_and_scrolling() {
    let mut d: Dashboard<u8> = Dashboard::new();
    let sections = d.sections();
    let sizes: Vec<usize> = sections.iter().map(|s| s.len()).collect();
    assert_eq!(sizes, vec![4, 3, 3, 2, 7, 5, 7, 6, 6]);
    assert_eq!(sizes.iter().sum::<usize>(), 43);
    assert_eq!(sections[0][0], "Profiles");
    assert_eq!(sections[1][1], "Selected: ");
    assert_eq!(sections[8][5], "Akasha Version: ");
    assert_eq!(section_heading("CurrentNode"), ">>> CurrentNode <<<");
    assert_eq!(d.node_delay(), ("0 ms".to_string(), DelayColor::Red));
    d.scroll().set_view(43, 10);
    d.scroll().handle_key(Key::Char('j'));
    assert_eq!(d.scroll().position(), 2);
}

#[test]
fn proxies_keys_move_and_select() {
    let mut p = Proxies::new(&groups());
    assert!(matches!(p.handle_key_event(Key::Char('j')), ProxiesAction::Nothing));
    assert_eq!(p.selection(), (Some(1), Some(0)));
    p.handle_key_event(Key::Char('k'));
    assert_eq!(p.selection(), (Some(0), Some(0)));
    assert!(matches!(p.handle_key_event(Key::Enter), ProxiesAction::Nothing));
    assert_eq!(p.focus(), Focus::Proxy);
    p.handle_key_event(Key::Char('k'));
    assert_eq!(p.selection(), (Some(0), Some(2)));
    match p.handle_key_event(Key::Enter) {
        ProxiesAction::Select(g, n) => assert_eq!((g.as_str(), n.as_str()), ("GLOBAL", "jp")),
        _ => panic!("expected a selection"),
    }
    assert!(matches!(p.handle_key_event(Key::Other), ProxiesAction::Nothing));
    assert_eq!(p.selection(), (Some(0), Some(2)));
}

#[test]
fn dashboard_line_values() {
    let mut d: Dashboard<u8> = Dashboard::new();
    assert_eq!(d.line_value(0, 1, "http://sub", "t"), ("http://sub".to_string(), None));
    assert_eq!(d.line_value(0, 2, "l", "t"), ("time err".to_string(), None));
    assert_eq!(d.line_value(0, 3, "l", "t"), ("usage err".to_string(), None));
    assert_eq!(d.line_value(1, 1, "l", "t"), ("xxx".to_string(), None));
    assert_eq!(d.line_value(1, 2, "l", "t"), ("0 ms".to_string(), Some(DelayColor::Red)));
    assert_eq!(d.line_value(2, 1, "l", "t"), ("none".to_string(), None));
    assert_eq!(d.line_value(4, 2, "l", "t"), ("xxx".to_string(), None));
    d.update(Some(true), "hk".to_string());
    d.set_node_delay(120);
    let header = b"upload=1048576; download=2097152; total=10485760".to_vec();
    d.set_subscription(Some(SubscriptionInfo::new(
        "u".to_string(),
        vec![("subscription-userinfo".to_string(), header)],
        String::new(),
        7u8,
    )));
    assert_eq!(d.line_value(0, 2, "l", "t7"), ("t7".to_string(), None));
    assert_eq!(d.line_value(0, 3, "l", "t"), ("3 MB / 10 MB".to_string(), None));
    assert_eq!(d.line_value(1, 1, "l", "t"), ("hk".to_string(), None));
    assert_eq!(d.line_value(1, 2, "l", "t"), ("120 ms".to_string(), Some(DelayColor::Green)));
    assert_eq!(d.line_value(2, 1, "l", "t"), ("ON".to_string(), Some(DelayColor::Green)));
}

#[test]
fn group_labels_and_logo_text() {
    let mut p = Proxies::new(&groups());
    assert_eq!(p.group_label(0), "GLOBAL\n(DIRECT)");
    p.sync_client(&vec!["jp".to_string(), "hk".to_string()]);
    assert_eq!(p.group_label(0), "GLOBAL\n(jp)");
    assert_eq!(p.group_label(1), "Auto\n(hk)");
    assert_eq!(SidebarLogo::new("akasha", "0.1.0").text(), "AKASHA v0.1.0");
    assert_eq!(SidebarLogo::new("straße", "1").text(), "STRASSE v1");
}
