//! Which proxy outgoing requests use: none, a configured one, or the system's, read
//! from the Windows Internet settings (`ProxyEnable`, `ProxyServer`).
use vstd::prelude::*;
use crate::text::{
    append_chars, char_views, chars_eq, chars_of, contains_char, split_chars, split_on,
    starts_with, starts_with_chars, string_of, trim, trim_chars,
};

verus! {

/// The scheme-qualified proxy URL of an address: kept when it names `http`, `https`,
/// `socks5` or `socks4`, else taken as `http`.
pub open spec fn proxy_url_spec(addr: Seq<char>) -> Seq<char> {
    if starts_with(addr, "http://"@) || starts_with(addr, "https://"@) || starts_with(
        addr,
        "socks5://"@,
    ) || starts_with(addr, "socks4://"@) {
        addr
    } else {
        "http://"@ + addr
    }
}

fn starts_with_str(s: &[char], p: &str) -> (b: bool)
    ensures
        b == starts_with(s@, p@),
{
    let pc = chars_of(p);
    starts_with_chars(s, pc.as_slice())
}

/// The scheme-qualified proxy URL of an address.
pub fn format_proxy_url(addr: &str) -> (u: String)
    ensures
        u@ == proxy_url_spec(addr@),
{
    let a = chars_of(addr);
    if starts_with_str(a.as_slice(), "http://") || starts_with_str(a.as_slice(), "https://")
        || starts_with_str(a.as_slice(), "socks5://") || starts_with_str(
        a.as_slice(),
        "socks4://",
    ) {
        addr.to_owned()
    } else {
        let mut out = chars_of("http://");
        append_chars(&mut out, a.as_slice());
        string_of(out.as_slice())
    }
}

/// The address a `;`-separated part gives for a protocol prefix such as `https=`:
/// the trimmed rest of the trimmed part, when it has that prefix and the rest is not
/// empty.
pub open spec fn part_address(part: Seq<char>, prefix: Seq<char>) -> Option<Seq<char>> {
    let t = trim(part);
    if starts_with(t, prefix) && trim(t.skip(prefix.len() as int)).len() > 0 {
        Some(trim(t.skip(prefix.len() as int)))
    } else {
        None
    }
}

/// The address of the first part, from `k` on, that gives one for `prefix`.
pub open spec fn first_address(parts: Seq<Seq<char>>, prefix: Seq<char>, k: int) -> Option<
    Seq<char>,
>
    decreases parts.len() - k,
{
    if k < 0 || k >= parts.len() {
        None
    } else {
        match part_address(parts[k], prefix) {
            Some(a) => Some(a),
            None => first_address(parts, prefix, k + 1),
        }
    }
}

/// The system proxy the Internet settings describe. Nothing when the proxy is
/// disabled, unset or blank. A server list of `protocol=address` parts gives the
/// `https` address, else the `http` one, else the `socks` one (as `socks5://`); a
/// single address is used as it is.
pub open spec fn system_proxy_spec(enabled: u32, server: Option<Seq<char>>) -> Option<Seq<char>> {
    if enabled == 0 {
        None
    } else {
        match server {
            None => None,
            Some(raw) => {
                let s = trim(raw);
                if s.len() == 0 {
                    None
                } else if s.contains('=') {
                    let parts = split_on(s, ';');
                    match first_address(parts, "https="@, 0) {
                        Some(a) => Some(proxy_url_spec(a)),
                        None => match first_address(parts, "http="@, 0) {
                            Some(a) => Some(proxy_url_spec(a)),
                            None => match first_address(parts, "socks="@, 0) {
                                Some(a) => Some("socks5://"@ + a),
                                None => None,
                            },
                        },
                    }
                } else {
                    Some(proxy_url_spec(s))
                }
            },
        }
    }
}

fn address_in(parts: &Vec<Vec<char>>, prefix: &str) -> (r: Option<Vec<char>>)
    ensures
        match r {
            Some(a) => first_address(char_views(parts@), prefix@, 0) == Some(a@),
            None => first_address(char_views(parts@), prefix@, 0) is None,
        },
{
    let pc = chars_of(prefix);
    let ghost ps = char_views(parts@);
    let mut i: usize = 0;
    while i < parts.len()
        invariant
            i <= parts@.len(),
            ps == char_views(parts@),
            pc@ == prefix@,
            first_address(ps, prefix@, 0) == first_address(ps, prefix@, i as int),
        decreases parts.len() - i,
    {
        let t = trim_chars(parts[i].as_slice());
        assert(ps[i as int] == parts@[i as int]@);
        if starts_with_chars(t.as_slice(), pc.as_slice()) {
            let rest = crate::text::copy_chars(&t[pc.len()..t.len()]);
            assert(rest@ =~= t@.skip(pc@.len() as int));
            let addr = trim_chars(rest.as_slice());
            if addr.len() > 0 {
                return Some(addr);
            }
        }
        i += 1;
    }
    None
}

/// The system proxy the Internet settings describe (see `system_proxy_spec`);
/// `server` is the `ProxyServer` value when it could be read.
pub fn system_proxy_from_settings(enabled: u32, server: Option<&str>) -> (r: Option<String>)
    ensures
        match r {
            Some(u) => system_proxy_spec(
                enabled,
                match server {
                    Some(t) => Some(t@),
                    None => None,
                },
            ) == Some(u@),
            None => system_proxy_spec(
                enabled,
                match server {
                    Some(t) => Some(t@),
                    None => None,
                },
            ) is None,
        },
{
    if enabled == 0 {
        return None;
    }
    let raw = match server {
        None => return None,
        Some(t) => t,
    };
    let rc = chars_of(raw);
    let s = trim_chars(rc.as_slice());
    if s.len() == 0 {
        return None;
    }
    if contains_char(s.as_slice(), '=') {
        let parts = split_chars(s.as_slice(), ';');
        match address_in(&parts, "https=") {
            Some(a) => {
                let addr = string_of(a.as_slice());
                return Some(format_proxy_url(addr.as_str()));
            },
            None => {},
        }
        match address_in(&parts, "http=") {
            Some(a) => {
                let addr = string_of(a.as_slice());
                return Some(format_proxy_url(addr.as_str()));
            },
            None => {},
        }
        match address_in(&parts, "socks=") {
            Some(a) => {
                let mut out = chars_of("socks5://");
                append_chars(&mut out, a.as_slice());
                Some(string_of(out.as_slice()))
            },
            None => None,
        }
    } else {
        let addr = string_of(s.as_slice());
        Some(format_proxy_url(addr.as_str()))
    }
}

/// How a request client is set up for proxies.
#[derive(Debug, Clone, PartialEq, Eq)]
pub enum ProxyChoice {
    /// No proxy at all.
    Direct,
    /// Every request through this proxy URL.
    Through(String),
    /// The client's own default (the proxy environment variables).
    Default,
}

/// The proxy set-up for a mode: `none` is direct; `custom` uses the configured URL
/// (trimmed), direct when it is blank; anything else uses the system proxy when
/// there is one, else the client's default.
pub fn proxy_choice(mode: &str, url: &str, system: Option<String>) -> (c: ProxyChoice)
    ensures
        mode@ == "none"@ ==> c == ProxyChoice::Direct,
        mode@ != "none"@ && mode@ == "custom"@ ==> if trim(url@).len() > 0 {
            c is Through && c->Through_0@ == trim(url@)
        } else {
            c == ProxyChoice::Direct
        },
        mode@ != "none"@ && mode@ != "custom"@ ==> match system {
            Some(sys) => c is Through && c->Through_0@ == sys@,
            None => c == ProxyChoice::Default,
        },
{
    let m = chars_of(mode);
    let none = chars_of("none");
    let custom = chars_of("custom");
    if chars_eq(m.as_slice(), none.as_slice()) {
        ProxyChoice::Direct
    } else if chars_eq(m.as_slice(), custom.as_slice()) {
        let u = chars_of(url);
        let t = trim_chars(u.as_slice());
        if t.len() > 0 {
            ProxyChoice::Through(string_of(t.as_slice()))
        } else {
            ProxyChoice::Direct
        }
    } else {
        match system {
            Some(sys) => ProxyChoice::Through(sys),
            None => ProxyChoice::Default,
        }
    }
}

} // verus!
