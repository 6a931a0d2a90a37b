use nets::app::{was_plain_g, App, Key, KeyPress};
use nets::connection::SocketInfoWithProcName;
use nets::filter::{FilterField, FilterMode};
use nets::ordering::sort_by_port;
use nets::pipeline::{records_matching, records_under_tab, visible_records};
use nets::protocol::{AddressFamily, ProtocolFlags};
use nets::socket::{
    IpAddress, ProtocolSocketInfo, SocketInfo, TcpSocketInfo, TcpState, UdpSocketInfo,
};
use nets::table::StatefulTable;
use nets::tabs::{StatefulTabItem, StatefulTabs};
use nets::utils::{
    get_total_sockets_ip_count, get_total_sockets_protocol_count, get_total_sockets_state_count,
    get_total_sockets_unique_count, peer_key,
};
use regex::{Regex, RegexBuilder};

fn addr(family: AddressFamily, text: &str) -> IpAddress {
    IpAddress { family, text: text.to_string() }
}

fn tcp_record(port: u16, name: &str) -> SocketInfoWithProcName {
    tcp_full("10.0.0.1", port, "10.0.0.9", TcpState::Established, name)
}

fn tcp_full(local: &str, port: u16, remote: &str, state: TcpState, name: &str) -> SocketInfoWithProcName {
    let info = SocketInfo {
        protocol_socket_info: ProtocolSocketInfo::Tcp(TcpSocketInfo {
            local_addr: addr(AddressFamily::IPv4, local),
            local_port: port,
            remote_addr: addr(AddressFamily::IPv4, remote),
            remote_port: 40000,
            state,
        }),
        associated_pids: vec![100],
    };
    SocketInfoWithProcName::new(info, name.to_string())
}

fn udp_record(port: u16, name: &str) -> SocketInfoWithProcName {
    udp_full(AddressFamily::IPv4, "0.0.0.0", port, name)
}

fn udp_full(family: AddressFamily, local: &str, port: u16, name: &str) -> SocketInfoWithProcName {
    let info = SocketInfo {
        protocol_socket_info: ProtocolSocketInfo::Udp(UdpSocketInfo {
            local_addr: addr(family, local),
            local_port: port,
        }),
        associated_pids: vec![200],
    };
    SocketInfoWithProcName::new(info, name.to_string())
}

fn ports(records: &Vec<SocketInfoWithProcName>) -> Vec<u16> {
    records.iter().map(|record| record.info.local_port()).collect()
}

fn names(records: &Vec<SocketInfoWithProcName>) -> Vec<&str> {
    records.iter().map(|record| record.process_name.as_str()).collect()
}

fn scenario() -> Vec<SocketInfoWithProcName> {
    vec![tcp_record(80, "curl"), udp_record(53, "resolver"), tcp_record(443, "curl")]
}

fn plain(code: Key) -> KeyPress {
    KeyPress { code, plain: true }
}

fn type_text(app: &mut App, text: &str) {
    let mut previous = None;
    for c in text.chars() {
        previous = app.on_key_press(plain(Key::Char(c)), previous);
    }
}

fn table_of(n: u16) -> StatefulTable {
    let mut items = Vec::new();
    for port in 0..n {
        items.push(tcp_record(port, "p"));
    }
    StatefulTable::with_items(items)
}

#[test]
fn next_then_previous_returns_cursor() {
    for len in 1..6u16 {
        for start in 0..len as usize {
            let mut table = table_of(len);
            table.cursor = Some(start);
            table.next();
            table.previous();
            assert_eq!(table.cursor, Some(start));
            table.previous();
            table.next();
            assert_eq!(table.cursor, Some(start));
        }
    }
}

#[test]
fn next_wraps_from_last_to_first() {
    let mut table = table_of(4);
    table.cursor = Some(3);
    table.next();
    assert_eq!(table.cursor, Some(0));
    table.next();
    assert_eq!(table.cursor, Some(1));
}

#[test]
fn previous_wraps_from_first_to_last() {
    let mut table = table_of(4);
    table.cursor = Some(0);
    table.previous();
    assert_eq!(table.cursor, Some(3));
    table.previous();
    assert_eq!(table.cursor, Some(2));
}

#[test]
fn moves_from_no_selection() {
    let mut table = table_of(3);
    assert_eq!(table.cursor, None);
    assert_eq!(table.selected(), None);
    table.next();
    assert_eq!(table.cursor, Some(0));
    let mut table = table_of(3);
    table.previous();
    assert_eq!(table.cursor, Some(2));
}

#[test]
fn first_and_last_jump_to_the_ends() {
    let mut table = table_of(5);
    table.last();
    assert_eq!(table.cursor, Some(4));
    table.first();
    assert_eq!(table.cursor, Some(0));
    assert_eq!(table.selected(), Some(0));
}

#[test]
fn moves_in_an_empty_list_change_nothing() {
    let mut table = table_of(0);
    table.next();
    assert_eq!(table.cursor, None);
    table.previous();
    assert_eq!(table.cursor, None);
    table.first();
    assert_eq!(table.cursor, None);
    table.last();
    assert_eq!(table.cursor, None);
    table.cursor = Some(2);
    table.next();
    table.previous();
    table.first();
    table.last();
    assert_eq!(table.cursor, Some(2));
    assert_eq!(table.selected(), None);
}

#[test]
fn single_record_list_keeps_the_cursor_on_it() {
    let mut table = table_of(1);
    table.next();
    assert_eq!(table.cursor, Some(0));
    table.next();
    assert_eq!(table.cursor, Some(0));
    table.previous();
    assert_eq!(table.cursor, Some(0));
}

#[test]
fn replacing_the_list_keeps_the_cursor_number() {
    let mut table = table_of(10);
    table.cursor = Some(7);
    table.replace_items(vec![tcp_record(1, "a"), tcp_record(2, "b"), tcp_record(3, "c")]);
    assert_eq!(table.cursor, Some(7));
    assert_eq!(table.items.len(), 3);
    assert_eq!(table.selected(), None);
}

#[test]
fn stale_cursor_comes_back_onto_the_list() {
    let mut table = table_of(3);
    table.cursor = Some(7);
    table.next();
    assert_eq!(table.cursor, Some(0));
    table.cursor = Some(7);
    table.previous();
    assert_eq!(table.cursor, Some(2));
    table.cursor = Some(3);
    table.previous();
    assert_eq!(table.cursor, Some(2));
    table.cursor = Some(usize::MAX);
    table.next();
    assert_eq!(table.cursor, Some(0));
    table.cursor = Some(usize::MAX);
    table.previous();
    assert_eq!(table.cursor, Some(2));
}

fn three_tabs() -> StatefulTabs {
    StatefulTabs::with_items(vec![
        StatefulTabItem { title: "All".to_string(), protocol: ProtocolFlags::all() },
        StatefulTabItem { title: "TCP".to_string(), protocol: ProtocolFlags::tcp() },
        StatefulTabItem { title: "UDP".to_string(), protocol: ProtocolFlags::udp() },
    ])
}

#[test]
fn tabs_wrap_in_both_directions() {
    let mut tabs = three_tabs();
    assert_eq!(tabs.index, 0);
    assert_eq!(tabs.selected_protocol(), ProtocolFlags::all());
    tabs.next();
    assert_eq!(tabs.index, 1);
    assert_eq!(tabs.selected_protocol(), ProtocolFlags::tcp());
    tabs.next();
    assert_eq!(tabs.index, 2);
    assert_eq!(tabs.selected_protocol(), ProtocolFlags::udp());
    tabs.next();
    assert_eq!(tabs.index, 0);
    tabs.previous();
    assert_eq!(tabs.index, 2);
    tabs.previous();
    assert_eq!(tabs.index, 1);
}

#[test]
fn tabs_cover_their_protocols_together() {
    assert_eq!(three_tabs().every_protocol(), ProtocolFlags::all());
    let only_udp = StatefulTabs::with_items(vec![StatefulTabItem {
        title: "UDP".to_string(),
        protocol: ProtocolFlags::udp(),
    }]);
    assert_eq!(only_udp.every_protocol(), ProtocolFlags::udp());
    assert_eq!(StatefulTabs::with_items(Vec::new()).every_protocol(), ProtocolFlags { bits: 0 });
}

#[test]
fn sort_is_descending_by_numeric_port() {
    let app = App::new(vec![
        tcp_record(9, "a"),
        tcp_record(100, "b"),
        udp_record(65535, "c"),
        tcp_record(0, "d"),
        udp_record(10, "e"),
    ]);
    assert_eq!(ports(&app.connections), vec![65535, 100, 10, 9, 0]);
    assert_eq!(ports(&app.connection_table.items), vec![65535, 100, 10, 9, 0]);
}

#[test]
fn sort_keeps_records_with_equal_ports_in_snapshot_order() {
    let app = App::new(vec![
        tcp_record(80, "first"),
        udp_record(53, "x"),
        tcp_record(80, "second"),
        udp_record(80, "third"),
        tcp_record(443, "y"),
        tcp_record(80, "fourth"),
    ]);
    assert_eq!(ports(&app.connection_table.items), vec![443, 80, 80, 80, 80, 53]);
    assert_eq!(names(&app.connection_table.items), vec!["y", "first", "second", "third", "fourth", "x"]);
}

#[test]
fn new_app_starts_unpaused_on_the_first_tab_without_filter() {
    let app = App::new(scenario());
    assert!(!app.should_quit);
    assert!(!app.show_help);
    assert!(!app.show_connection_info);
    assert!(!app.is_paused());
    assert_eq!(app.filter.input, "");
    assert_eq!(app.filter.mode, FilterMode::Normal);
    assert!(app.filter.regex.is_none());
    assert_eq!(app.tabs.index, 0);
    assert_eq!(app.tabs.items.len(), 3);
    assert_eq!(app.tabs.items[0].title, "All");
    assert_eq!(app.tabs.items[1].title, "TCP");
    assert_eq!(app.tabs.items[2].title, "UDP");
    assert_eq!(app.tabs.items[0].protocol, ProtocolFlags::all());
    assert_eq!(app.tabs.items[1].protocol, ProtocolFlags::tcp());
    assert_eq!(app.tabs.items[2].protocol, ProtocolFlags::udp());
    assert_eq!(app.connection_table.cursor, None);
    assert_eq!(app.snapshot_request(), Some(ProtocolFlags::all()));
}

#[test]
fn udp_record_is_under_all_and_udp_but_not_tcp() {
    let records = vec![udp_record(53, "resolver")];
    assert_eq!(records_under_tab(&records, ProtocolFlags::tcp()).len(), 0);
    assert_eq!(records_under_tab(&records, ProtocolFlags::all()).len(), 1);
    assert_eq!(records_under_tab(&records, ProtocolFlags::udp()).len(), 1);
    let records = vec![tcp_record(80, "curl")];
    assert_eq!(records_under_tab(&records, ProtocolFlags::tcp()).len(), 1);
    assert_eq!(records_under_tab(&records, ProtocolFlags::all()).len(), 1);
    assert_eq!(records_under_tab(&records, ProtocolFlags::udp()).len(), 0);
}

#[test]
fn filter_matches_in_any_column() {
    let record = tcp_full("10.0.0.1", 8080, "10.0.0.9", TcpState::Listen, "nginx");
    let find = |text: &str| Some(Regex::new(&regex::escape(text)).unwrap());
    assert!(record.should_print(&find("nginx")));
    assert!(record.should_print(&find("ngin")));
    assert!(record.should_print(&find("tcp4")));
    assert!(record.should_print(&find("10.0.0.1")));
    assert!(record.should_print(&find("808")));
    assert!(record.should_print(&find("LISTEN")));
    assert!(record.should_print(&find("100")));
    assert!(!record.should_print(&find("apache")));
    assert!(!record.should_print(&find("NGINX")));
    assert!(!record.should_print(&find("tcp4 10")));
    assert!(record.should_print(&None));
}

#[test]
fn empty_filter_text_matches_every_record() {
    let mut app = App::new(scenario());
    app.update_regex();
    assert!(app.filter.regex.is_none());
    app.update_connections(Some(scenario()));
    assert_eq!(ports(&app.connection_table.items), vec![443, 80, 53]);
    for record in &app.connections {
        assert!(record.should_print(&app.filter.regex));
    }
}

#[test]
fn filter_text_is_taken_literally() {
    let mut app = App::new(Vec::new());
    app.filter.input = "10.0.0.1".to_string();
    app.update_regex();
    assert_eq!(app.filter.regex.as_ref().unwrap().as_str(), "10\\.0\\.0\\.1");
    let dotted = tcp_full("10.0.0.1", 80, "1.1.1.1", TcpState::Listen, "a");
    let other = tcp_full("10a0b0c1", 80, "1.1.1.1", TcpState::Listen, "a");
    assert!(dotted.should_print(&app.filter.regex));
    assert!(!other.should_print(&app.filter.regex));
    app.filter.input = "a+b*(c)[d]{e}^$|?\\#&-~".to_string();
    app.update_regex();
    assert_eq!(
        app.filter.regex.as_ref().unwrap().as_str(),
        "a\\+b\\*\\(c\\)\\[d\\]\\{e\\}\\^\\$\\|\\?\\\\\\#\\&\\-\\~"
    );
    let odd = udp_record(1, "xa+b*(c)[d]{e}^$|?\\#&-~y");
    assert!(odd.should_print(&app.filter.regex));
    assert!(!udp_record(1, "aab").should_print(&app.filter.regex));
}

#[test]
fn failed_compile_keeps_the_previous_pattern() {
    let mut filter = FilterField::new();
    filter.input = "abc".to_string();
    filter.install(Regex::new("abc"));
    assert_eq!(filter.regex.as_ref().unwrap().as_str(), "abc");
    filter.install(Regex::new("("));
    assert_eq!(filter.regex.as_ref().unwrap().as_str(), "abc");
    assert_eq!(filter.input, "abc");
    filter.install(Regex::new("x"));
    assert_eq!(filter.regex.as_ref().unwrap().as_str(), "x");
    filter.input.clear();
    filter.recompile();
    assert!(filter.regex.is_none());
}

#[test]
fn scenario_all_tab_without_filter() {
    let mut app = App::new(Vec::new());
    app.update_connections(Some(scenario()));
    assert_eq!(ports(&app.connection_table.items), vec![443, 80, 53]);
    assert_eq!(ports(&app.connections), vec![80, 53, 443]);
}

#[test]
fn scenario_udp_tab() {
    let mut app = App::new(Vec::new());
    app.on_left();
    assert_eq!(app.tabs.index, 2);
    app.update_connections(Some(scenario()));
    assert_eq!(ports(&app.connection_table.items), vec![53]);
    app.on_left();
    app.update_connections(Some(scenario()));
    assert_eq!(ports(&app.connection_table.items), vec![443, 80]);
}

#[test]
fn scenario_filter_curl_on_all_tab() {
    let mut app = App::new(Vec::new());
    let mut previous = app.on_key_press(plain(Key::Char('/')), None);
    assert_eq!(app.filter.mode, FilterMode::Typing);
    for c in "curl".chars() {
        previous = app.on_key_press(plain(Key::Char(c)), previous);
    }
    app.on_key_press(plain(Key::Enter), previous);
    assert_eq!(app.filter.mode, FilterMode::Normal);
    assert_eq!(app.filter.input, "curl");
    assert_eq!(app.tabs.index, 0);
    app.update_connections(Some(scenario()));
    assert_eq!(ports(&app.connection_table.items), vec![443, 80]);
}

#[test]
fn pausing_freezes_the_list_until_resumed() {
    let mut app = App::new(Vec::new());
    app.update_connections(Some(scenario()));
    app.on_pause();
    assert!(app.is_paused());
    assert_eq!(app.snapshot_request(), None);
    app.update_connections(Some(vec![tcp_record(1, "new")]));
    assert_eq!(ports(&app.connection_table.items), vec![443, 80, 53]);
    app.update_connections(None);
    assert_eq!(ports(&app.connection_table.items), vec![443, 80, 53]);
    app.update_connections(Some(Vec::new()));
    assert_eq!(ports(&app.connection_table.items), vec![443, 80, 53]);
    assert_eq!(ports(&app.connections), vec![80, 53, 443]);
    app.on_pause();
    assert!(!app.is_paused());
    app.update_connections(Some(vec![tcp_record(1, "new")]));
    assert_eq!(ports(&app.connection_table.items), vec![1]);
    assert_eq!(ports(&app.connections), vec![1]);
}

#[test]
fn paused_list_still_follows_tab_and_filter() {
    let mut app = App::new(scenario());
    app.on_pause();
    app.on_right();
    app.update_connections(None);
    assert_eq!(ports(&app.connection_table.items), vec![443, 80]);
    app.on_right();
    app.update_connections(None);
    assert_eq!(ports(&app.connection_table.items), vec![53]);
}

#[test]
fn failed_fetch_leaves_the_list_as_it_was() {
    let mut app = App::new(scenario());
    app.connection_table.cursor = Some(1);
    app.update_connections(None);
    assert_eq!(ports(&app.connection_table.items), vec![443, 80, 53]);
    assert_eq!(ports(&app.connections), vec![443, 80, 53]);
    assert_eq!(app.connection_table.cursor, Some(1));
}

#[test]
fn refresh_keeps_the_cursor_number() {
    let mut app = App::new(scenario());
    app.on_last();
    assert_eq!(app.connection_table.cursor, Some(2));
    app.update_connections(Some(vec![tcp_record(5, "only")]));
    assert_eq!(app.connection_table.cursor, Some(2));
    assert_eq!(app.connection_table.selected(), None);
    app.on_down();
    assert_eq!(app.connection_table.cursor, Some(0));
}

#[test]
fn character_commands() {
    let mut app = App::new(scenario());
    app.on_key('j');
    assert_eq!(app.connection_table.cursor, Some(0));
    app.on_key('j');
    assert_eq!(app.connection_table.cursor, Some(1));
    app.on_key('k');
    assert_eq!(app.connection_table.cursor, Some(0));
    app.on_key('G');
    assert_eq!(app.connection_table.cursor, Some(2));
    app.on_key('l');
    assert_eq!(app.tabs.index, 1);
    app.on_key('h');
    assert_eq!(app.tabs.index, 0);
    app.on_key('h');
    assert_eq!(app.tabs.index, 2);
    app.on_key('i');
    assert!(app.show_connection_info);
    app.on_key('i');
    assert!(!app.show_connection_info);
    app.on_key('x');
    app.on_key('q');
    app.on_key('g');
    assert!(!app.should_quit);
    assert_eq!(app.connection_table.cursor, Some(2));
    app.on_key('/');
    assert_eq!(app.filter.mode, FilterMode::Typing);
}

#[test]
fn clear_command_empties_the_filter() {
    let mut app = App::new(scenario());
    app.filter.input = "curl".to_string();
    app.update_regex();
    assert!(app.filter.regex.is_some());
    app.on_key('c');
    assert_eq!(app.filter.input, "");
    assert!(app.filter.regex.is_none());
}

#[test]
fn double_g_goes_to_the_first_record() {
    let mut app = App::new(scenario());
    app.on_last();
    let previous = app.on_key_press(plain(Key::Char('g')), None);
    assert_eq!(previous, Some(plain(Key::Char('g'))));
    assert_eq!(app.connection_table.cursor, Some(2));
    let previous = app.on_key_press(plain(Key::Char('g')), previous);
    assert_eq!(previous, None);
    assert_eq!(app.connection_table.cursor, Some(0));
    app.on_last();
    let previous = app.on_key_press(plain(Key::Char('g')), previous);
    assert_eq!(app.connection_table.cursor, Some(2));
    let previous = app.on_key_press(plain(Key::Down), previous);
    assert_eq!(app.connection_table.cursor, Some(0));
    app.on_last();
    let previous = app.on_key_press(plain(Key::Char('g')), previous);
    assert_eq!(app.connection_table.cursor, Some(2));
    assert_eq!(previous, Some(plain(Key::Char('g'))));
}

#[test]
fn g_with_a_modifier_does_not_start_a_double_g() {
    let mut app = App::new(scenario());
    app.on_last();
    let held = KeyPress { code: Key::Char('g'), plain: false };
    let previous = app.on_key_press(held, None);
    assert_eq!(previous, Some(held));
    let previous = app.on_key_press(plain(Key::Char('g')), previous);
    assert_eq!(app.connection_table.cursor, Some(2));
    app.on_key_press(held, previous);
    assert_eq!(app.connection_table.cursor, Some(0));
    assert!(was_plain_g(Some(plain(Key::Char('g')))));
    assert!(!was_plain_g(Some(held)));
    assert!(!was_plain_g(Some(plain(Key::Char('G')))));
    assert!(!was_plain_g(Some(plain(Key::Enter))));
    assert!(!was_plain_g(None));
}

#[test]
fn normal_mode_keys() {
    let mut app = App::new(scenario());
    app.on_key_press(plain(Key::Down), None);
    assert_eq!(app.connection_table.cursor, Some(0));
    app.on_key_press(plain(Key::Up), None);
    assert_eq!(app.connection_table.cursor, Some(2));
    app.on_key_press(plain(Key::Right), None);
    assert_eq!(app.tabs.index, 1);
    app.on_key_press(plain(Key::Tab), None);
    assert_eq!(app.tabs.index, 2);
    app.on_key_press(plain(Key::Left), None);
    assert_eq!(app.tabs.index, 1);
    app.on_key_press(plain(Key::Char('?')), None);
    assert!(app.show_help);
    app.on_key_press(plain(Key::Char('?')), None);
    assert!(!app.show_help);
    app.on_key_press(plain(Key::Char('p')), None);
    assert!(app.is_paused());
    app.on_key_press(plain(Key::Char('p')), None);
    assert!(!app.is_paused());
    app.on_key_press(plain(Key::Enter), None);
    app.on_key_press(plain(Key::Esc), None);
    app.on_key_press(plain(Key::Backspace), None);
    app.on_key_press(plain(Key::Other), None);
    assert_eq!(app.filter.mode, FilterMode::Normal);
    assert_eq!(app.filter.input, "");
    assert!(!app.should_quit);
    app.on_key_press(plain(Key::Char('q')), None);
    assert!(app.should_quit);
}

#[test]
fn typing_mode_edits_the_filter_and_ignores_commands() {
    let mut app = App::new(scenario());
    app.on_key('/');
    type_text(&mut app, "qpjg?");
    assert_eq!(app.filter.input, "qpjg?");
    assert_eq!(app.filter.regex.as_ref().unwrap().as_str(), "qpjg\\?");
    assert!(!app.should_quit);
    assert!(!app.is_paused());
    assert!(!app.show_help);
    assert_eq!(app.connection_table.cursor, None);
    app.on_key_press(plain(Key::Up), None);
    app.on_key_press(plain(Key::Tab), None);
    app.on_key_press(plain(Key::Left), None);
    assert_eq!(app.connection_table.cursor, None);
    assert_eq!(app.tabs.index, 0);
    app.on_key_press(plain(Key::Backspace), None);
    assert_eq!(app.filter.input, "qpjg");
    assert_eq!(app.filter.regex.as_ref().unwrap().as_str(), "qpjg");
    for _ in 0..6 {
        app.on_key_press(plain(Key::Backspace), None);
    }
    assert_eq!(app.filter.input, "");
    assert!(app.filter.regex.is_none());
    assert_eq!(app.filter.mode, FilterMode::Typing);
    type_text(&mut app, "ab");
    app.on_key_press(plain(Key::Esc), None);
    assert_eq!(app.filter.mode, FilterMode::Normal);
    assert_eq!(app.filter.input, "ab");
    assert_eq!(app.filter.regex.as_ref().unwrap().as_str(), "ab");
}

#[test]
fn pipeline_steps() {
    let records = vec![
        tcp_record(80, "curl"),
        udp_record(53, "resolver"),
        tcp_record(443, "curl"),
        udp_record(443, "quic"),
    ];
    let pattern = Some(Regex::new("c").unwrap());
    let shown = visible_records(&records, ProtocolFlags::all(), &pattern);
    assert_eq!(names(&shown), vec!["curl", "quic", "curl"]);
    assert_eq!(ports(&shown), vec![443, 443, 80]);
    let shown = visible_records(&records, ProtocolFlags::udp(), &pattern);
    assert_eq!(names(&shown), vec!["quic"]);
    let shown = visible_records(&records, ProtocolFlags { bits: 0 }, &None);
    assert_eq!(shown.len(), 0);
    let kept = records_matching(records, &Some(Regex::new("resolver").unwrap()));
    assert_eq!(ports(&kept), vec![53]);
}

#[test]
fn header_counts() {
    let app = App::new(vec![
        tcp_full("10.0.0.1", 80, "1.1.1.1", TcpState::Established, "a"),
        tcp_full("10.0.0.1", 81, "1.1.1.1", TcpState::Established, "b"),
        tcp_full("10.0.0.1", 22, "0.0.0.0", TcpState::Listen, "c"),
        udp_full(AddressFamily::IPv4, "0.0.0.0", 53, "d"),
        udp_full(AddressFamily::IPv6, "::", 53, "e"),
        udp_full(AddressFamily::IPv6, "::", 5353, "f"),
    ]);
    assert_eq!(get_total_sockets_protocol_count(&app, ProtocolFlags::all()), 6);
    assert_eq!(get_total_sockets_protocol_count(&app, ProtocolFlags::tcp()), 3);
    assert_eq!(get_total_sockets_protocol_count(&app, ProtocolFlags::udp()), 3);
    assert_eq!(get_total_sockets_protocol_count(&app, ProtocolFlags { bits: 0 }), 0);
    assert_eq!(get_total_sockets_state_count(&app, TcpState::Established), 2);
    assert_eq!(get_total_sockets_state_count(&app, TcpState::Listen), 1);
    assert_eq!(get_total_sockets_state_count(&app, TcpState::Closed), 0);
    assert_eq!(get_total_sockets_ip_count(&app, AddressFamily::IPv4), 4);
    assert_eq!(get_total_sockets_ip_count(&app, AddressFamily::IPv6), 2);
    assert_eq!(get_total_sockets_unique_count(&app), 3);
}

#[test]
fn unique_count_tells_families_apart() {
    let app = App::new(vec![
        udp_full(AddressFamily::IPv4, "same", 1, "a"),
        udp_full(AddressFamily::IPv6, "same", 2, "b"),
        udp_full(AddressFamily::IPv4, "same", 3, "c"),
        tcp_full("other", 4, "same", TcpState::Listen, "d"),
    ]);
    assert_eq!(get_total_sockets_unique_count(&app), 2);
    assert_eq!(get_total_sockets_unique_count(&App::new(Vec::new())), 0);
    let record = tcp_full("local", 4, "remote", TcpState::Listen, "d");
    assert_eq!(peer_key(&record), (true, "remote"));
    let record = udp_full(AddressFamily::IPv6, "local", 4, "d");
    assert_eq!(peer_key(&record), (false, "local"));
}

#[test]
fn sort_agrees_with_a_stable_sort_on_many_records() {
    for len in [0usize, 1, 2, 3, 4, 5, 7, 8, 16, 33, 100, 257] {
        let mut seed: u32 = 12345 + len as u32;
        let mut records = Vec::new();
        let mut expected: Vec<(u16, String)> = Vec::new();
        for i in 0..len {
            seed = seed.wrapping_mul(1103515245).wrapping_add(12345);
            let port = ((seed >> 16) % 7) as u16 * 1000;
            let name = format!("n{}", i);
            expected.push((port, name.clone()));
            if seed % 2 == 0 {
                records.push(tcp_record(port, &name));
            } else {
                records.push(udp_record(port, &name));
            }
        }
        expected.sort_by(|a, b| b.0.cmp(&a.0));
        let sorted = sort_by_port(records);
        let found: Vec<(u16, String)> = sorted
            .iter()
            .map(|record| (record.info.local_port(), record.process_name.clone()))
            .collect();
        assert_eq!(found, expected);
    }
}

#[test]
fn sort_of_sorted_and_reversed_lists() {
    let descending = vec![tcp_record(3, "a"), tcp_record(2, "b"), tcp_record(1, "c")];
    assert_eq!(names(&sort_by_port(descending)), vec!["a", "b", "c"]);
    let ascending = vec![tcp_record(1, "a"), tcp_record(2, "b"), tcp_record(3, "c")];
    assert_eq!(names(&sort_by_port(ascending)), vec!["c", "b", "a"]);
    let equal = vec![tcp_record(5, "a"), udp_record(5, "b"), tcp_record(5, "c"), udp_record(5, "d")];
    assert_eq!(names(&sort_by_port(equal)), vec!["a", "b", "c", "d"]);
    let extremes = vec![tcp_record(0, "low"), tcp_record(65535, "high"), tcp_record(0, "low2")];
    assert_eq!(names(&sort_by_port(extremes)), vec!["high", "low", "low2"]);
}

#[test]
fn pattern_built_with_options_matches_by_its_options() {
    let record = tcp_full("10.0.0.1", 8080, "10.0.0.9", TcpState::Listen, "nginx");
    let exact = Some(Regex::new("NGINX").unwrap());
    let relaxed = Some(RegexBuilder::new("NGINX").case_insensitive(true).build().unwrap());
    assert_eq!(exact.as_ref().unwrap().as_str(), relaxed.as_ref().unwrap().as_str());
    assert!(!record.should_print(&exact));
    assert!(record.should_print(&relaxed));
    let mut filter = FilterField::new();
    filter.install(RegexBuilder::new("NGINX").case_insensitive(true).build());
    assert!(record.should_print(&filter.regex));
    let kept = records_matching(vec![record, tcp_record(1, "other")], &filter.regex);
    assert_eq!(names(&kept), vec!["nginx"]);
}

#[test]
fn non_empty_filter_text_always_leaves_its_literal_pattern() {
    let texts = ["a", ".", "*", "(", "[", "+", "?", "|", "\\", "a.b*c", "(unclosed", "[a-", "x{2", "^$", "tcp4", " "];
    for text in texts {
        let mut app = App::new(Vec::new());
        app.filter.input = text.to_string();
        app.update_regex();
        let pattern = app.filter.regex.as_ref().unwrap();
        for hay in ["", "a", "a.b*c", "axb", "(unclosed)", "[a-z]", "x{2}", "^$", "tcp4 ", "\\", "a+b?c|d"] {
            assert_eq!(pattern.is_match(hay), hay.contains(text));
        }
        assert_eq!(app.filter.input, text);
        assert_eq!(app.filter.mode, FilterMode::Normal);
    }
}

#[test]
fn typing_recompiles_the_pattern_after_every_key() {
    let mut app = App::new(scenario());
    app.on_key('/');
    let mut typed = String::new();
    for c in "p.q*".chars() {
        app.on_key_press(plain(Key::Char(c)), None);
        typed.push(c);
        assert_eq!(app.filter.input, typed);
        assert_eq!(app.filter.regex.as_ref().unwrap().as_str(), regex::escape(&typed));
        assert_eq!(app.filter.mode, FilterMode::Typing);
    }
    app.on_key_press(plain(Key::Backspace), None);
    assert_eq!(app.filter.regex.as_ref().unwrap().as_str(), "p\\.q");
    app.on_key_press(plain(Key::Enter), None);
    assert_eq!(app.filter.regex.as_ref().unwrap().as_str(), "p\\.q");
    assert_eq!(app.filter.mode, FilterMode::Normal);
    assert!(!app.is_paused());
    assert!(!app.should_quit);
    assert_eq!(app.tabs.index, 0);
    assert_eq!(app.connection_table.cursor, None);
}
