use is2fp::config::{
    get_app_port, get_i2p_http_proxy, get_i2p_proxy_port, parse_router_port_line, parse_u16,
    router_override_disabled,
};
use is2fp::error::Ip2pError;
use is2fp::i2p::{
    check_connection, encode_proxy_status, get_destination, get_i2p_status, HttpProxyStatus,
    ProxyStatus,
};

#[test]
fn app_port_parses_or_defaults() {
    assert_eq!(get_app_port(&None), 5555);
    assert_eq!(get_app_port(&Some(String::from(""))), 5555);
    assert_eq!(get_app_port(&Some(String::from("8080"))), 8080);
    assert_eq!(get_app_port(&Some(String::from("+8080"))), 8080);
    assert_eq!(get_app_port(&Some(String::from("65535"))), 65535);
    assert_eq!(get_app_port(&Some(String::from("65536"))), 5555);
    assert_eq!(get_app_port(&Some(String::from("0000065535"))), 65535);
    assert_eq!(get_app_port(&Some(String::from("80a"))), 5555);
    assert_eq!(get_app_port(&Some(String::from("-1"))), 5555);
    assert_eq!(get_app_port(&Some(String::from("+"))), 5555);
}

#[test]
fn parse_u16_matches_std() {
    for s in ["", "0", "1", "80", "65535", "65536", "99999999999999", "+12", "1 2", "x"] {
        assert_eq!(parse_u16(s), s.parse::<u16>().ok(), "input {:?}", s);
    }
}

#[test]
fn proxy_host_defaults() {
    assert_eq!(get_i2p_http_proxy(&None), "127.0.0.1:4242");
    assert_eq!(
        get_i2p_http_proxy(&Some(String::from("10.0.0.2:4444"))),
        "10.0.0.2:4444"
    );
}

#[test]
fn proxy_port_is_cut_from_host() {
    assert_eq!(get_i2p_proxy_port("127.0.0.1:4242"), "4242");
    assert_eq!(get_i2p_proxy_port("host:1234:extra"), "1234");
    assert_eq!(get_i2p_proxy_port(":"), "");
}

#[test]
fn override_flag_must_be_set_explicitly() {
    // with no override set the managed router stays mandatory
    assert!(router_override_disabled(&None));
    assert!(router_override_disabled(&Some(String::from(""))));
    // an explicitly set value enables degraded startup
    assert!(!router_override_disabled(&Some(String::from("1"))));
}

#[test]
fn startup_aborts_only_without_override() {
    assert!(is2fp::config::startup_fatal(true, true));
    assert!(!is2fp::config::startup_fatal(true, false));
    assert!(!is2fp::config::startup_fatal(false, true));
    assert!(!is2fp::config::startup_fatal(false, false));
}

#[test]
fn router_config_line_yields_port() {
    assert_eq!(
        parse_router_port_line("i2np.udp.port=12345").unwrap(),
        "12345"
    );
    assert_eq!(parse_router_port_line("i2np.udp.host=x"), None);
    assert_eq!(parse_router_port_line("i2np.udp.port 12345"), None);
}

#[test]
fn proxy_status_text_and_body() {
    assert_eq!(ProxyStatus::Opening.value(), "opening\n");
    assert_eq!(ProxyStatus::Open.value(), "open\n");
    let body: HttpProxyStatus = get_i2p_status(&ProxyStatus::Open);
    assert!(body.open);
    assert!(!get_i2p_status(&ProxyStatus::Opening).open);
}

#[test]
fn connection_check_reads_stored_status() {
    assert_eq!(check_connection(&None), Err(Ip2pError::StoreFailure));
    assert_eq!(check_connection(&Some(Vec::new())), Err(Ip2pError::StoreFailure));
    let open = encode_proxy_status(&ProxyStatus::Open);
    assert_eq!(check_connection(&Some(open)), Ok(ProxyStatus::Open));
    let opening = encode_proxy_status(&ProxyStatus::Opening);
    assert_eq!(check_connection(&Some(opening)), Ok(ProxyStatus::Opening));
    // garbage reads as still opening
    assert_eq!(check_connection(&Some(vec![7, 7])), Ok(ProxyStatus::Opening));
}

#[test]
fn destination_reads_stored_address() {
    assert_eq!(get_destination(&None), Err(Ip2pError::StoreFailure));
    let stored = is2fp::codec::encode_string("me.b32.i2p");
    assert_eq!(get_destination(&Some(stored)).unwrap(), "me.b32.i2p");
    // malformed bytes fall back to the empty address
    assert_eq!(get_destination(&Some(vec![3])).unwrap(), "");
}

#[test]
fn error_bodies() {
    assert_eq!(
        is2fp::error::ErrorResponse::not_found().error,
        "Resource does not exist"
    );
    assert_eq!(
        is2fp::error::ErrorResponse::internal_error().error,
        "Internal server error"
    );
}
