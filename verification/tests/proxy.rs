use elegant_clipboard::proxy::{format_proxy_url, proxy_choice, system_proxy_from_settings, ProxyChoice};

#[test]
fn system_proxy_settings() {
    assert_eq!(system_proxy_from_settings(0, Some("127.0.0.1:7890")), None);
    assert_eq!(system_proxy_from_settings(1, None), None);
    assert_eq!(system_proxy_from_settings(1, Some("   ")), None);
    assert_eq!(
        system_proxy_from_settings(1, Some(" 127.0.0.1:7890 ")),
        Some("http://127.0.0.1:7890".to_string())
    );
    assert_eq!(
        system_proxy_from_settings(1, Some("http=h:1;https= s:2 ;socks=k:3")),
        Some("http://s:2".to_string())
    );
    assert_eq!(
        system_proxy_from_settings(1, Some("ftp=f:1; http=h:1")),
        Some("http://h:1".to_string())
    );
    assert_eq!(
        system_proxy_from_settings(1, Some("https=;socks=k:3")),
        Some("socks5://k:3".to_string())
    );
    assert_eq!(system_proxy_from_settings(1, Some("ftp=f:1")), None);
}

#[test]
fn proxy_urls_and_modes() {
    assert_eq!(format_proxy_url("socks4://a:1"), "socks4://a:1");
    assert_eq!(format_proxy_url("a:1"), "http://a:1");
    assert_eq!(proxy_choice("none", "x", Some("s".into())), ProxyChoice::Direct);
    assert_eq!(proxy_choice("custom", " http://p:1 ", None), ProxyChoice::Through("http://p:1".into()));
    assert_eq!(proxy_choice("custom", "  ", None), ProxyChoice::Direct);
    assert_eq!(proxy_choice("system", "", Some("http://s:1".into())), ProxyChoice::Through("http://s:1".into()));
    assert_eq!(proxy_choice("system", "", None), ProxyChoice::Default);
}
