use mipcmanager_patch::audio_wifi_route::{
    format_state, ipv4_prefix, message, parse_ipv4, parse_state, parse_wifi_subnet, state, validate_prefix,
    RouteError, RouteState, StateFile, WifiSubnet,
};

fn addr(s: &str) -> u32 {
    parse_ipv4(&s.chars().collect()).unwrap()
}

#[test]
fn audio_wifi_route_creates_local_wifi_prefix_without_changing_default_route() {
    assert_eq!(ipv4_prefix(addr("192.168.50.123"), 24).unwrap(), "192.168.50.0/24");
    assert_eq!(ipv4_prefix(addr("10.33.42.7"), 16).unwrap(), "10.33.0.0/16");
}

#[test]
fn audio_wifi_route_parses_the_adapter_data_emitted_by_powershell() {
    assert_eq!(
        parse_wifi_subnet("13|192.168.50.123|24").unwrap(),
        WifiSubnet { interface_index: 13, prefix: "192.168.50.0/24".to_string() }
    );
}

#[test]
fn audio_wifi_route_rejects_non_network_or_default_prefixes() {
    assert!(validate_prefix("192.168.50.123/24").is_err());
    assert!(ipv4_prefix(addr("192.168.50.123"), 0).is_err());
    assert!(ipv4_prefix(addr("192.168.50.123"), 32).is_err());
}

#[test]
fn mod_creates_local_wifi_prefix_without_changing_default_route() {
    assert_eq!(ipv4_prefix(addr("192.168.50.123"), 24).unwrap(), "192.168.50.0/24");
    assert_eq!(ipv4_prefix(addr("10.33.42.7"), 16).unwrap(), "10.33.0.0/16");
}

#[test]
fn mod_parses_the_adapter_data_emitted_by_powershell() {
    assert_eq!(
        parse_wifi_subnet("13|192.168.50.123|24").unwrap(),
        WifiSubnet { interface_index: 13, prefix: "192.168.50.0/24".to_string() }
    );
}

#[test]
fn mod_rejects_non_network_or_default_prefixes() {
    assert!(validate_prefix("192.168.50.123/24").is_err());
    assert!(ipv4_prefix(addr("192.168.50.123"), 0).is_err());
    assert!(ipv4_prefix(addr("192.168.50.123"), 32).is_err());
}

#[test]
fn dotted_addresses_are_read_as_numbers() {
    assert_eq!(addr("0.0.0.0"), 0);
    assert_eq!(addr("255.255.255.255"), u32::MAX);
    assert_eq!(addr("192.168.50.123"), 0xC0A8_327B);
    let bad = ["", "1.2.3", "1.2.3.4.5", "01.2.3.4", "256.1.1.1", "1..2.3", "a.b.c.d", "1.2.3.4 "];
    for b in bad {
        assert_eq!(parse_ipv4(&b.chars().collect()), None, "{b}");
    }
}

#[test]
fn prefix_lengths_at_the_edges() {
    assert_eq!(ipv4_prefix(addr("192.168.50.123"), 1).unwrap(), "128.0.0.0/1");
    assert_eq!(ipv4_prefix(addr("192.168.50.123"), 31).unwrap(), "192.168.50.122/31");
    assert_eq!(ipv4_prefix(addr("192.168.50.123"), 0), Err(RouteError::PrefixLengthOutOfRange));
}

#[test]
fn every_written_prefix_is_accepted_back() {
    for len in 1u8..=31 {
        let p = ipv4_prefix(addr("172.20.129.77"), len).unwrap();
        assert_eq!(validate_prefix(&p), Ok(p.as_str()));
    }
}

#[test]
fn recorded_prefix_errors() {
    assert_eq!(validate_prefix("192.168.50.0"), Err(RouteError::InvalidRoutePrefix));
    assert_eq!(validate_prefix("192.168.50/24"), Err(RouteError::InvalidRouteAddress));
    assert_eq!(validate_prefix("192.168.50.0/x"), Err(RouteError::InvalidRoutePrefixLength));
    assert_eq!(validate_prefix("192.168.50.0/32"), Err(RouteError::PrefixLengthOutOfRange));
    assert_eq!(validate_prefix("192.168.50.123/24"), Err(RouteError::NotNetworkAddress));
    assert_eq!(validate_prefix("192.168.50.0/+24"), Err(RouteError::NotNetworkAddress));
    assert_eq!(validate_prefix("192.168.50.0/24"), Ok("192.168.50.0/24"));
}

#[test]
fn adapter_answer_errors() {
    assert_eq!(parse_wifi_subnet("x|192.168.50.123|24"), Err(RouteError::InvalidIndex));
    assert_eq!(parse_wifi_subnet("13"), Err(RouteError::MissingAddress));
    assert_eq!(parse_wifi_subnet("13|192.168.50|24"), Err(RouteError::InvalidAddress));
    assert_eq!(parse_wifi_subnet("13|192.168.50.123"), Err(RouteError::MissingPrefixLength));
    assert_eq!(parse_wifi_subnet("13|192.168.50.123|300"), Err(RouteError::InvalidPrefixLength));
    assert_eq!(parse_wifi_subnet("13|192.168.50.123|24|x"), Err(RouteError::ExtraField));
    assert_eq!(parse_wifi_subnet("13|192.168.50.123|32"), Err(RouteError::PrefixLengthOutOfRange));
}

#[test]
fn state_file_text_reads_back() {
    let route = RouteState { interface_index: 13, prefix: "192.168.50.0/24".to_string() };
    let text = format_state(&route);
    assert_eq!(text, "version=1\ninterface_index=13\nprefix=192.168.50.0/24\n");
    assert_eq!(parse_state(&text), Ok(route));
}

#[test]
fn state_file_reading_rules() {
    let crlf = "version=1\r\ninterface_index=7\r\nprefix=10.0.0.0/8\r\n";
    assert_eq!(
        parse_state(crlf),
        Ok(RouteState { interface_index: 7, prefix: "10.0.0.0/8".to_string() })
    );
    let later_wins = "interface_index=1\ninterface_index=2\nprefix=10.0.0.0/8\nnote=x";
    assert_eq!(parse_state(later_wins).unwrap().interface_index, 2);
    assert_eq!(parse_state("version=1\nprefix=10.0.0.0/8\n"), Err(RouteError::MalformedStateFile));
    assert_eq!(parse_state("interface_index=-1\nprefix=10.0.0.0/8\n"), Err(RouteError::InvalidStateIndex));
    assert_eq!(parse_state("interface_index=1\nprefix=10.0.0.1/8\n"), Err(RouteError::NotNetworkAddress));
}

#[test]
fn state_lines_and_messages() {
    assert_eq!(state("p", StateFile::Missing), "未配置");
    assert_eq!(state("p", StateFile::Unreadable), "状态不可读（读取路由状态文件失败 p）");
    assert_eq!(
        state("p", StateFile::Text("interface_index=13\nprefix=192.168.50.0/24\n".to_string())),
        "已固定 Wi-Fi 本地路由（192.168.50.0/24，接口 13）"
    );
    assert_eq!(state("p", StateFile::Text(String::new())), "状态不可读（路由状态文件格式无效 p）");
    assert_eq!(message(RouteError::NotNetworkAddress, "p"), "IPv4 路由前缀必须是网络地址");
}
