use nsdiag::parse::{parse_interface_line, parse_links_output, split_ws, trim_trailing_colons,
    InterfaceStatus, LinkState};

#[test]
fn lo_line_is_up() {
    let st = parse_interface_line("1: lo: <LOOPBACK,UP,LOWER_UP> mtu 65536 ...").unwrap();
    assert_eq!(st.name, "lo");
    assert_eq!(st.state, LinkState::Up);
}

#[test]
fn eth0_line_without_up_is_down() {
    let st = parse_interface_line("2: eth0: <BROADCAST,MULTICAST> mtu 1500 ...").unwrap();
    assert_eq!(st.name, "eth0");
    assert_eq!(st.state, LinkState::Down);
}

#[test]
fn one_token_line_is_skipped() {
    assert!(parse_interface_line("1:").is_none());
}

#[test]
fn empty_line_is_skipped() {
    assert!(parse_interface_line("").is_none());
}

#[test]
fn two_token_line_is_skipped() {
    assert!(parse_interface_line("2: eth0:").is_none());
}

#[test]
fn state_field_marks_up() {
    let st =
        parse_interface_line("3: eno1: <BROADCAST,MULTICAST> mtu 1500 qdisc mq state UP mode DEFAULT")
            .unwrap();
    assert_eq!(st.name, "eno1");
    assert_eq!(st.state, LinkState::Up);
}

#[test]
fn name_keeps_inner_colons_loses_trailing_ones() {
    let st = parse_interface_line("4: veth0@if2:: <BROADCAST> mtu 1500").unwrap();
    assert_eq!(st.name, "veth0@if2");
    assert_eq!(st.state, LinkState::Down);
}

#[test]
fn all_colon_token_gives_empty_name() {
    let st = parse_interface_line("5: :: mtu 1500").unwrap();
    assert_eq!(st.name, "");
}

#[test]
fn whole_output_in_line_order() {
    let text = "1: lo: <LOOPBACK,UP,LOWER_UP> mtu 65536\n\
                2: eth0: <BROADCAST,MULTICAST> mtu 1500\n\
                junk\n\
                3: wlan0: <BROADCAST,MULTICAST,UP,LOWER_UP> mtu 1500\n";
    let got = parse_links_output(text);
    let want = vec![
        InterfaceStatus { name: String::from("lo"), state: LinkState::Up },
        InterfaceStatus { name: String::from("eth0"), state: LinkState::Down },
        InterfaceStatus { name: String::from("wlan0"), state: LinkState::Up },
    ];
    assert_eq!(got, want);
}

#[test]
fn every_status_is_up_or_down_with_clean_name() {
    let text = "1: lo: <LOOPBACK,UP,LOWER_UP> mtu 65536\n\
                2: eth0: <BROADCAST,MULTICAST> mtu 1500\n\
                3: wlan0: <BROADCAST,MULTICAST,UP,LOWER_UP> mtu 1500\n";
    for st in parse_links_output(text) {
        assert!(st.state.label() == "UP" || st.state.label() == "DOWN");
        assert!(!st.name.is_empty());
        assert!(!st.name.ends_with(':'));
    }
}

#[test]
fn reparsing_identical_text_is_identical() {
    let text = "1: lo: <LOOPBACK,UP,LOWER_UP> mtu 65536\n2: eth0: <BROADCAST> mtu 1500";
    let first = parse_links_output(text);
    let second = parse_links_output(text);
    assert_eq!(first, second);
}

#[test]
fn empty_text_yields_no_statuses() {
    assert!(parse_links_output("").is_empty());
}

#[test]
fn blank_and_short_lines_yield_no_statuses() {
    assert!(parse_links_output("\n\n1:\nmtu 1500\n").is_empty());
}

#[test]
fn split_ws_splits_on_runs_of_whitespace() {
    let toks = split_ws("  1: lo:\t <LOOPBACK>  mtu\t65536 ");
    assert_eq!(toks, vec!["1:", "lo:", "<LOOPBACK>", "mtu", "65536"]);
}

#[test]
fn split_ws_of_blank_line_is_empty() {
    assert!(split_ws(" \t ").is_empty());
    assert!(split_ws("").is_empty());
}

#[test]
fn trim_trailing_colons_only_touches_the_tail() {
    assert_eq!(trim_trailing_colons("lo:"), "lo");
    assert_eq!(trim_trailing_colons("eth0@if2::"), "eth0@if2");
    assert_eq!(trim_trailing_colons("a:b"), "a:b");
    assert_eq!(trim_trailing_colons(":::"), "");
    assert_eq!(trim_trailing_colons(""), "");
}
