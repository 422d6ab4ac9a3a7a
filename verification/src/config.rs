//! Configuration: the on-disk layout, the raw `config.toml` model, and its
//! resolution into listeners ready to serve.

use vstd::prelude::*;

use crate::address::{port_of, socket_address, socket_for, IpAddress, SocketAddress};
use crate::text::{chars_of, decimal, decimal_string, str_equal};
use crate::upstream_url::{
    char_count, edit_fits, host_of, parse_url, scheme_of, url_edit_fits, url_host_str, url_parse,
    url_parse_error, url_scheme, url_set_host, url_set_host_error, with_host,
};

verus! {

/// The address a freshly written configuration listens on.
pub const DEFAULT_LISTEN: &'static str = "127.0.0.1:9718";

/// `Path::join` on a Unix path: an absolute segment replaces the base, otherwise a
/// separator is added unless the base is empty or already ends with one.
pub open spec fn join_path(base: Seq<char>, segment: Seq<char>) -> Seq<char> {
    if segment.len() > 0 && segment[0] == '/' {
        segment
    } else if base.len() == 0 || base.last() == '/' {
        base + segment
    } else {
        base + seq!['/'] + segment
    }
}

/// Joins a path segment onto a base path.
pub fn join(base: &str, segment: &str) -> (r: String)
    ensures
        r@ == join_path(base@, segment@),
{
    let b = chars_of(base);
    let s = chars_of(segment);
    if s.len() > 0 && s[0] == '/' {
        String::from_str(segment)
    } else if b.len() == 0 || b[b.len() - 1] == '/' {
        String::from_str(base).concat(segment)
    } else {
        proof {
            reveal_strlit("/");
        }
        String::from_str(base).concat("/").concat(segment)
    }
}

/// Where the program keeps its files.
#[derive(Clone, Debug)]
pub struct Layout {
    pub config_path: String,
    pub logs_dir: String,
    pub pid_file: String,
}

/// The data directory under a home directory.
pub open spec fn data_dir_spec(home: Seq<char>) -> Seq<char> {
    join_path(home, ".eproxy"@)
}

/// The data directory, `.eproxy` under the home directory.
pub fn data_dir(home: &str) -> (r: String)
    ensures
        r@ == data_dir_spec(home@),
{
    join(home, ".eproxy")
}

/// The layout under a home directory: `config.toml`, `logs` and `eproxy.pid` in the
/// data directory.
pub fn layout_for_home(home: &str) -> (r: Layout)
    ensures
        r.config_path@ == join_path(data_dir_spec(home@), "config.toml"@),
        r.logs_dir@ == join_path(data_dir_spec(home@), "logs"@),
        r.pid_file@ == join_path(data_dir_spec(home@), "eproxy.pid"@),
{
    let dir = data_dir(home);
    Layout {
        config_path: join(dir.as_str(), "config.toml"),
        logs_dir: join(dir.as_str(), "logs"),
        pid_file: join(dir.as_str(), "eproxy.pid"),
    }
}

/// The configuration file to use: the one named on the command line, else the default.
pub fn resolve_config_path(cli_path: Option<&str>, default_path: &str) -> (r: String)
    ensures
        r@ == (match cli_path {
            Some(p) => p@,
            None => default_path@,
        }),
{
    match cli_path {
        Some(p) => String::from_str(p),
        None => String::from_str(default_path),
    }
}

/// The log level used where the configuration names none.
pub fn default_log_level() -> (r: String)
    ensures
        r@ == "info"@,
{
    String::from_str("info")
}

/// The `[log]` table.
#[derive(Debug)]
pub struct RawLog {
    pub level: String,
}

impl Default for RawLog {
    fn default() -> (r: Self)
        ensures
            r.level@ == "info"@,
    {
        RawLog { level: default_log_level() }
    }
}

/// One `[[listeners]]` entry as written in the file.
#[derive(Debug)]
pub struct RawListener {
    pub name: Option<String>,
    pub listen: String,
    pub upstream: String,
    pub connect_ip: String,
    pub connect_port: u16,
    pub sni: Option<String>,
    pub host_header: Option<String>,
}

/// The configuration file as written.
#[derive(Debug)]
pub struct RawConfig {
    pub log: RawLog,
    pub listeners: Vec<RawListener>,
}

/// The socket addresses of one listener entry, as `std::net` read `listen` and
/// `connect_ip`; an error carries the reader's message.
#[derive(Debug)]
pub struct ParsedAddresses {
    pub listen: Result<SocketAddress, String>,
    pub connect_ip: Result<IpAddress, String>,
}

/// A listener ready to serve.
#[derive(Clone, Debug)]
pub struct ResolvedListener {
    pub name: String,
    pub listen_addr: SocketAddress,
    /// The serialization of the upstream base URL.
    pub upstream_base: String,
    pub connect_addr: SocketAddress,
    pub host_header: String,
    pub server_name: String,
}

/// The mathematical value of a [`ResolvedListener`].
pub struct ListenerView {
    pub name: Seq<char>,
    pub listen_addr: SocketAddress,
    pub upstream_base: Seq<char>,
    pub connect_addr: SocketAddress,
    pub host_header: Seq<char>,
    pub server_name: Seq<char>,
}

impl View for ResolvedListener {
    type V = ListenerView;

    open spec fn view(&self) -> ListenerView {
        ListenerView {
            name: self.name@,
            listen_addr: self.listen_addr,
            upstream_base: self.upstream_base@,
            connect_addr: self.connect_addr,
            host_header: self.host_header@,
            server_name: self.server_name@,
        }
    }
}

/// The configuration ready to serve.
#[derive(Clone, Debug)]
pub struct ResolvedConfig {
    pub log_level: String,
    pub listeners: Vec<ResolvedListener>,
}

/// What is wrong with a configuration.
#[derive(Clone, Copy, Debug, PartialEq, Eq, Structural)]
pub enum ConfigErrorKind {
    NoListeners,
    InvalidListen,
    InvalidConnectIp,
    InvalidConnectPort,
    InvalidUpstreamUrl,
    UpstreamNotHttps,
    UpstreamMissingHost,
    InvalidServerName,
    UpstreamTooLong,
}

/// A configuration error: its kind, the listener it concerns, and the message of
/// the reader that refused a value, where there is one.
#[derive(Debug)]
pub struct ConfigError {
    pub kind: ConfigErrorKind,
    pub listener: String,
    pub cause: Option<String>,
}

/// The first line of a configuration error's message.
pub open spec fn headline(kind: ConfigErrorKind, listener: Seq<char>) -> Seq<char> {
    match kind {
        ConfigErrorKind::NoListeners => "config requires at least one [[listeners]] entry"@,
        ConfigErrorKind::InvalidListen => "listener '"@ + listener + "' has invalid listen address"@,
        ConfigErrorKind::InvalidConnectIp => "listener '"@ + listener + "' has invalid connect_ip"@,
        ConfigErrorKind::InvalidConnectPort => "listener '"@ + listener
            + "' has invalid connect_port: 0"@,
        ConfigErrorKind::InvalidUpstreamUrl => "listener '"@ + listener
            + "' has invalid upstream URL"@,
        ConfigErrorKind::UpstreamNotHttps => "listener '"@ + listener
            + "' upstream must use https://"@,
        ConfigErrorKind::UpstreamMissingHost => "upstream URL requires host"@,
        ConfigErrorKind::InvalidServerName => "listener '"@ + listener
            + "' has invalid sni/server_name"@,
        ConfigErrorKind::UpstreamTooLong => "listener '"@ + listener
            + "' has an upstream URL or sni too long to edit"@,
    }
}

impl ConfigError {
    /// The error as the program reports it: the headline, then the reader's message.
    pub fn message(&self) -> (r: String)
        ensures
            r@ == (match self.cause {
                Some(c) => headline(self.kind, self.listener@) + ": "@ + c@,
                None => headline(self.kind, self.listener@),
            }),
    {
        let name = self.listener.as_str();
        let head = match self.kind {
            ConfigErrorKind::NoListeners => String::from_str(
                "config requires at least one [[listeners]] entry",
            ),
            ConfigErrorKind::InvalidListen => String::from_str("listener '").concat(name).concat(
                "' has invalid listen address",
            ),
            ConfigErrorKind::InvalidConnectIp => String::from_str("listener '").concat(
                name,
            ).concat("' has invalid connect_ip"),
            ConfigErrorKind::InvalidConnectPort => String::from_str("listener '").concat(
                name,
            ).concat("' has invalid connect_port: 0"),
            ConfigErrorKind::InvalidUpstreamUrl => String::from_str("listener '").concat(
                name,
            ).concat("' has invalid upstream URL"),
            ConfigErrorKind::UpstreamNotHttps => String::from_str("listener '").concat(
                name,
            ).concat("' upstream must use https://"),
            ConfigErrorKind::UpstreamMissingHost => String::from_str("upstream URL requires host"),
            ConfigErrorKind::InvalidServerName => String::from_str("listener '").concat(
                name,
            ).concat("' has invalid sni/server_name"),
            ConfigErrorKind::UpstreamTooLong => String::from_str("listener '").concat(
                name,
            ).concat("' has an upstream URL or sni too long to edit"),
        };
        match &self.cause {
            Some(c) => head.concat(": ").concat(c.as_str()),
            None => head,
        }
    }
}

} // verus!

verus! {

/// The name of the listener at position `idx`: the one it was given, else
/// `listener-` and its position counted from one.
pub open spec fn listener_name(idx: int, name: Option<String>) -> Seq<char> {
    match name {
        Some(n) => n@,
        None => "listener-"@ + decimal((idx + 1) as nat),
    }
}

/// What resolving one listener entry gives: the listener, or the kind of error and
/// the listener's name. Checks go in this order: listen address, connect IP, connect
/// port, upstream URL, its scheme, its host, and the server name set as host.
pub open spec fn resolve_listener_spec(idx: int, raw: RawListener, addrs: ParsedAddresses) -> Result<
    ListenerView,
    (ConfigErrorKind, Seq<char>),
> {
    let name = listener_name(idx, raw.name);
    if addrs.listen is Err {
        Err((ConfigErrorKind::InvalidListen, name))
    } else if addrs.connect_ip is Err {
        Err((ConfigErrorKind::InvalidConnectIp, name))
    } else if raw.connect_port == 0 {
        Err((ConfigErrorKind::InvalidConnectPort, name))
    } else {
        match url_parse(raw.upstream@) {
            None => Err((ConfigErrorKind::InvalidUpstreamUrl, name)),
            Some(href) => if url_scheme(href) != Some("https"@) {
                Err((ConfigErrorKind::UpstreamNotHttps, name))
            } else {
                match url_host_str(href) {
                    Some(Some(host)) => {
                        let server_name = match raw.sni {
                            Some(s) => s@,
                            None => host,
                        };
                        if !url_edit_fits(href, server_name.len() as int) {
                            Err((ConfigErrorKind::UpstreamTooLong, name))
                        } else {
                        match url_set_host(href, server_name) {
                            None => Err((ConfigErrorKind::InvalidServerName, name)),
                            Some(base) => Ok(
                                ListenerView {
                                    name,
                                    listen_addr: addrs.listen->Ok_0,
                                    upstream_base: base,
                                    connect_addr: socket_for(addrs.connect_ip->Ok_0, raw.connect_port),
                                    host_header: match raw.host_header {
                                        Some(h) => h@,
                                        None => server_name,
                                    },
                                    server_name,
                                },
                            ),
                        }
                        }
                    },
                    _ => Err((ConfigErrorKind::UpstreamMissingHost, name)),
                }
            },
        }
    }
}

/// The TLS server name and the `Host` header of a listener: `sni` where given,
/// else the upstream URL's host; `host_header` where given, else the server name.
pub fn tls_names(sni: &Option<String>, upstream_host: String, host_header: &Option<String>) -> (r: (
    String,
    String,
))
    ensures
        r.0@ == (match sni {
            Some(s) => s@,
            None => upstream_host@,
        }),
        r.1@ == (match host_header {
            Some(h) => h@,
            None => r.0@,
        }),
{
    let server_name = match sni {
        Some(s) => s.clone(),
        None => upstream_host,
    };
    let header = match host_header {
        Some(h) => h.clone(),
        None => server_name.clone(),
    };
    (server_name, header)
}

/// The TLS server name of a listener whose upstream URL reads as `href`.
pub open spec fn server_name_for(raw: RawListener, href: Seq<char>) -> Seq<char> {
    match raw.sni {
        Some(s) => s@,
        None => url_host_str(href)->0->0,
    }
}

/// The cause an error of `kind` carries for a listener whose addresses were read as
/// `addrs`: the address reader's message for an unreadable address, the `url`
/// crate's message for a refused URL or server name, and none otherwise.
pub open spec fn cause_fits(
    kind: ConfigErrorKind,
    cause: Option<String>,
    raw: RawListener,
    addrs: ParsedAddresses,
) -> bool {
    match kind {
        ConfigErrorKind::InvalidListen => match (cause, addrs.listen) {
            (Some(c), Err(t)) => c@ == t@,
            _ => false,
        },
        ConfigErrorKind::InvalidConnectIp => match (cause, addrs.connect_ip) {
            (Some(c), Err(t)) => c@ == t@,
            _ => false,
        },
        ConfigErrorKind::InvalidUpstreamUrl => match cause {
            Some(c) => c@ == url_parse_error(raw.upstream@),
            None => false,
        },
        ConfigErrorKind::InvalidServerName => match cause {
            Some(c) => c@ == url_set_host_error(
                url_parse(raw.upstream@)->0,
                server_name_for(raw, url_parse(raw.upstream@)->0),
            ),
            None => false,
        },
        _ => cause is None,
    }
}

fn config_error(kind: ConfigErrorKind, listener: String, cause: Option<String>) -> (e: ConfigError)
    ensures
        e.kind == kind,
        e.listener@ == listener@,
        e.cause == cause,
{
    ConfigError { kind, listener, cause }
}

/// Resolves the listener entry at position `idx`.
fn resolve_listener(idx: usize, raw: &RawListener, addrs: &ParsedAddresses) -> (r: Result<
    ResolvedListener,
    ConfigError,
>)
    requires
        idx < usize::MAX,
    ensures
        r matches Ok(l) ==> resolve_listener_spec(idx as int, *raw, *addrs) == Ok::<
            ListenerView,
            (ConfigErrorKind, Seq<char>),
        >(l@),
        r matches Err(e) ==> resolve_listener_spec(idx as int, *raw, *addrs) == Err::<
            ListenerView,
            (ConfigErrorKind, Seq<char>),
        >((e.kind, e.listener@)),
        r matches Err(e) ==> cause_fits(e.kind, e.cause, *raw, *addrs),
{
    let name = match &raw.name {
        Some(n) => n.clone(),
        None => String::from_str("listener-").concat(decimal_string(idx as u64 + 1).as_str()),
    };
    let listen_addr = match &addrs.listen {
        Ok(a) => *a,
        Err(c) => return Err(config_error(ConfigErrorKind::InvalidListen, name, Some(c.clone()))),
    };
    let connect_ip = match &addrs.connect_ip {
        Ok(a) => *a,
        Err(c) => return Err(
            config_error(ConfigErrorKind::InvalidConnectIp, name, Some(c.clone())),
        ),
    };
    if raw.connect_port == 0 {
        return Err(config_error(ConfigErrorKind::InvalidConnectPort, name, None));
    }
    let href = match parse_url(raw.upstream.as_str()) {
        Ok(h) => h,
        Err(c) => return Err(config_error(ConfigErrorKind::InvalidUpstreamUrl, name, Some(c))),
    };
    let https = match scheme_of(href.as_str()) {
        Some(s) => str_equal(s.as_str(), "https"),
        None => false,
    };
    if !https {
        return Err(config_error(ConfigErrorKind::UpstreamNotHttps, name, None));
    }
    let host = match host_of(href.as_str()) {
        Some(Some(h)) => h,
        _ => return Err(config_error(ConfigErrorKind::UpstreamMissingHost, name, None)),
    };
    let (server_name, host_header) = tls_names(&raw.sni, host, &raw.host_header);
    if !edit_fits(href.as_str(), char_count(server_name.as_str())) {
        return Err(config_error(ConfigErrorKind::UpstreamTooLong, name, None));
    }
    let upstream_base = match with_host(href.as_str(), server_name.as_str()) {
        Ok(b) => b,
        Err(c) => return Err(config_error(ConfigErrorKind::InvalidServerName, name, Some(c))),
    };
    let connect_addr = socket_address(connect_ip, raw.connect_port);
    Ok(
        ResolvedListener {
            name,
            listen_addr,
            upstream_base,
            connect_addr,
            host_header,
            server_name,
        },
    )
}

} // verus!

verus! {

/// Resolves a configuration whose listener entries have had their addresses read
/// (`addresses[i]` belongs to `parsed.listeners[i]`). The first entry that does not
/// resolve decides the error; a configuration without entries is refused.
pub fn resolve_config(parsed: RawConfig, addresses: Vec<ParsedAddresses>) -> (r: Result<
    ResolvedConfig,
    ConfigError,
>)
    requires
        addresses.len() == parsed.listeners.len(),
    ensures
        r is Ok <==> (parsed.listeners.len() > 0 && forall|i: int|
            0 <= i < parsed.listeners.len() ==> (#[trigger] resolve_listener_spec(
                i,
                parsed.listeners[i],
                addresses[i],
            )) is Ok),
        r matches Ok(c) ==> {
            &&& c.log_level@ == parsed.log.level@
            &&& c.listeners.len() == parsed.listeners.len()
            &&& forall|i: int|
                0 <= i < parsed.listeners.len() ==> #[trigger] resolve_listener_spec(
                    i,
                    parsed.listeners[i],
                    addresses[i],
                ) == Ok::<ListenerView, (ConfigErrorKind, Seq<char>)>(c.listeners[i]@)
        },
        parsed.listeners.len() == 0 ==> (r matches Err(e) && e.kind == ConfigErrorKind::NoListeners
            && e.cause is None),
        r matches Err(e) ==> parsed.listeners.len() > 0 ==> exists|i: int|
            0 <= i < parsed.listeners.len() && (forall|j: int|
                0 <= j < i ==> (#[trigger] resolve_listener_spec(
                    j,
                    parsed.listeners[j],
                    addresses[j],
                )) is Ok) && resolve_listener_spec(i, parsed.listeners[i], addresses[i]) == Err::<
                ListenerView,
                (ConfigErrorKind, Seq<char>),
            >((e.kind, e.listener@)) && cause_fits(e.kind, e.cause, parsed.listeners[i], addresses[i]),
{
    let n = parsed.listeners.len();
    if n == 0 {
        return Err(config_error(ConfigErrorKind::NoListeners, String::new(), None));
    }
    let mut listeners: Vec<ResolvedListener> = Vec::new();
    for idx in 0..n
        invariant
            n == parsed.listeners.len() == addresses.len(),
            listeners.len() == idx,
            forall|j: int|
                0 <= j < idx ==> #[trigger] resolve_listener_spec(
                    j,
                    parsed.listeners[j],
                    addresses[j],
                ) == Ok::<ListenerView, (ConfigErrorKind, Seq<char>)>(listeners[j]@),
    {
        match resolve_listener(idx, &parsed.listeners[idx], &addresses[idx]) {
            Ok(l) => listeners.push(l),
            Err(e) => {
                assert(forall|j: int|
                    0 <= j < idx ==> (#[trigger] resolve_listener_spec(
                        j,
                        parsed.listeners[j],
                        addresses[j],
                    )) is Ok);
                return Err(e);
            },
        }
    }
    Ok(ResolvedConfig { log_level: parsed.log.level, listeners })
}

} // verus!

verus! {

/// The text of a fresh configuration file, before the listen address.
pub const CONFIG_TEMPLATE_HEAD: &'static str = "# eproxy configuration\n#\n# Local model SDK -> eproxy (HTTP loopback) -> upstream HTTPS over IX route\n\n[log]\nlevel = \"info\"\n\n[[listeners]]\nname = \"default\"\nlisten = \"";

/// The text of a fresh configuration file, after the listen address.
pub const CONFIG_TEMPLATE_TAIL: &'static str = "\"\nupstream = \"https://xxx.domain.com:8443\"\nconnect_ip = \"a.b.c.d\"\nconnect_port = 8443\n# Optional: override TLS SNI. If omitted, host from `upstream` is used.\n# sni = \"xxx.domain.com\"\n# Optional: override HTTP Host header. If omitted, SNI/domain is used.\n# host_header = \"xxx.domain.com\"\n";

/// The configuration file written on first run, listening on [`DEFAULT_LISTEN`].
pub fn default_config_template() -> (r: String)
    ensures
        r@ == CONFIG_TEMPLATE_HEAD@ + DEFAULT_LISTEN@ + CONFIG_TEMPLATE_TAIL@,
{
    String::from_str(CONFIG_TEMPLATE_HEAD).concat(DEFAULT_LISTEN).concat(CONFIG_TEMPLATE_TAIL)
}

} // verus!

verus! {

/// A listener that resolves dials the configured IP and a non-zero port, listens
/// where its entry says, and forwards to its `https` upstream with the TLS name as
/// host.
pub proof fn resolved_listener_route(idx: int, raw: RawListener, addrs: ParsedAddresses)
    requires
        resolve_listener_spec(idx, raw, addrs) is Ok,
    ensures
        ({
            let l = resolve_listener_spec(idx, raw, addrs)->Ok_0;
            let href = url_parse(raw.upstream@)->0;
            &&& url_parse(raw.upstream@) is Some
            &&& url_scheme(href) == Some("https"@)
            &&& raw.connect_port != 0
            &&& addrs.listen is Ok
            &&& l.listen_addr == addrs.listen->Ok_0
            &&& addrs.connect_ip is Ok
            &&& l.connect_addr == socket_for(addrs.connect_ip->Ok_0, raw.connect_port)
            &&& port_of(l.connect_addr) == raw.connect_port
            &&& url_set_host(href, l.server_name) == Some(l.upstream_base)
            &&& l.name == listener_name(idx, raw.name)
        }),
{
}

/// Without `sni` the TLS name is the upstream URL's host; without `host_header`
/// the `Host` header is the TLS name.
pub proof fn tls_and_host_defaults(idx: int, raw: RawListener, addrs: ParsedAddresses)
    requires
        resolve_listener_spec(idx, raw, addrs) is Ok,
    ensures
        ({
            let l = resolve_listener_spec(idx, raw, addrs)->Ok_0;
            let href = url_parse(raw.upstream@)->0;
            &&& raw.sni is None ==> url_host_str(href) == Some(Some(l.server_name))
            &&& raw.sni matches Some(s) ==> l.server_name == s@
            &&& raw.host_header is None ==> l.host_header == l.server_name
            &&& raw.host_header matches Some(h) ==> l.host_header == h@
        }),
{
}

/// Unnamed listeners at different positions get different names.
pub proof fn default_listener_names_differ(i: int, j: int)
    requires
        0 <= i,
        0 <= j,
        i != j,
    ensures
        listener_name(i, None) != listener_name(j, None),
{
    let p = "listener-"@;
    let a = listener_name(i, None);
    let b = listener_name(j, None);
    if a == b {
        assert(a.skip(p.len() as int) =~= decimal((i + 1) as nat));
        assert(b.skip(p.len() as int) =~= decimal((j + 1) as nat));
        crate::daemon::lemma_decimal_digits((i + 1) as nat);
        crate::daemon::lemma_decimal_digits((j + 1) as nat);
    }
}

} // verus!

verus! {

/// An entry whose `connect_ip` cannot be read as an IP address (the template's
/// `a.b.c.d` is such a value) is refused, so an unedited template never resolves.
pub proof fn unreadable_connect_ip_refused(idx: int, raw: RawListener, addrs: ParsedAddresses)
    requires
        addrs.connect_ip is Err,
    ensures
        resolve_listener_spec(idx, raw, addrs) is Err,
{
}

} // verus!

verus! {

/// A listener entry resolves whenever its parts read: both addresses read, the
/// connect port is not 0 (whatever the listen address and its port), the upstream
/// parses as `https` with a host, and the server name fits and can be set as host.
/// The listener then listens on the read listen address, dials the read IP on the
/// connect port, and keeps the URL the `url` crate gives back.
pub proof fn resolves_when_all_parts_read(idx: int, raw: RawListener, addrs: ParsedAddresses, href: Seq<char>, host: Seq<char>, base: Seq<char>)
    requires
        addrs.listen is Ok,
        addrs.connect_ip is Ok,
        raw.connect_port != 0,
        url_parse(raw.upstream@) == Some(href),
        url_scheme(href) == Some("https"@),
        url_host_str(href) == Some(Some(host)),
        url_edit_fits(href, (match raw.sni {
            Some(s) => s@,
            None => host,
        }).len() as int),
        url_set_host(href, match raw.sni {
            Some(s) => s@,
            None => host,
        }) == Some(base),
    ensures
        resolve_listener_spec(idx, raw, addrs) is Ok,
        ({
            let l = resolve_listener_spec(idx, raw, addrs)->Ok_0;
            &&& l.listen_addr == addrs.listen->Ok_0
            &&& port_of(l.connect_addr) == raw.connect_port
            &&& ip_of(l.connect_addr) == addrs.connect_ip->Ok_0
            &&& l.upstream_base == base
            &&& l.server_name == (match raw.sni {
                Some(s) => s@,
                None => host,
            })
        }),
{
}

/// The IP address of a socket address.
pub open spec fn ip_of(a: SocketAddress) -> IpAddress {
    match a {
        SocketAddress::V4 { ipv4, .. } => IpAddress::V4(ipv4),
        SocketAddress::V6 { ipv6, .. } => IpAddress::V6(ipv6),
    }
}

/// The only connect port refused is 0: an entry with any other port is not refused
/// for its port.
pub proof fn only_port_zero_refused(idx: int, raw: RawListener, addrs: ParsedAddresses)
    requires
        raw.connect_port != 0,
    ensures
        resolve_listener_spec(idx, raw, addrs) != Err::<ListenerView, (ConfigErrorKind, Seq<char>)>(
            (ConfigErrorKind::InvalidConnectPort, listener_name(idx, raw.name)),
        ),
{
}

/// An unnamed listener is called `listener-` followed by its position counted from
/// one, written in decimal digits.
pub proof fn default_name_counts_from_one(idx: int)
    requires
        0 <= idx,
    ensures
        listener_name(idx, None).len() > "listener-"@.len(),
        listener_name(idx, None).take("listener-"@.len() as int) == "listener-"@,
        crate::daemon::all_digits(listener_name(idx, None).skip("listener-"@.len() as int)),
        crate::daemon::digits_value(listener_name(idx, None).skip("listener-"@.len() as int))
            == idx + 1,
{
    let p = "listener-"@;
    let n = listener_name(idx, None);
    crate::daemon::lemma_decimal_digits((idx + 1) as nat);
    assert(n.take(p.len() as int) =~= p);
    assert(n.skip(p.len() as int) =~= decimal((idx + 1) as nat));
}

} // verus!

verus! {

/// A listener given a name keeps it.
pub proof fn given_name_is_kept(idx: int, name: String)
    ensures
        listener_name(idx, Some(name)) == name@,
{
}

/// The checks of an entry go in order, and the first that fails names the error:
/// listen address, connect IP, connect port 0, upstream URL, its scheme, its host,
/// the size of the edit, and the server name set as host.
pub proof fn first_failing_check_names_error(idx: int, raw: RawListener, addrs: ParsedAddresses)
    ensures
        ({
            let name = listener_name(idx, raw.name);
            let r = resolve_listener_spec(idx, raw, addrs);
            let href = url_parse(raw.upstream@)->0;
            let host = url_host_str(href)->0->0;
            let server = match raw.sni {
                Some(s) => s@,
                None => host,
            };
            &&& addrs.listen is Err ==> r == Err::<ListenerView, (ConfigErrorKind, Seq<char>)>(
                (ConfigErrorKind::InvalidListen, name),
            )
            &&& addrs.listen is Ok && addrs.connect_ip is Err ==> r == Err::<
                ListenerView,
                (ConfigErrorKind, Seq<char>),
            >((ConfigErrorKind::InvalidConnectIp, name))
            &&& addrs.listen is Ok && addrs.connect_ip is Ok && raw.connect_port == 0 ==> r
                == Err::<ListenerView, (ConfigErrorKind, Seq<char>)>(
                (ConfigErrorKind::InvalidConnectPort, name),
            )
            &&& addrs.listen is Ok && addrs.connect_ip is Ok && raw.connect_port != 0 ==> {
                &&& url_parse(raw.upstream@) is None ==> r == Err::<
                    ListenerView,
                    (ConfigErrorKind, Seq<char>),
                >((ConfigErrorKind::InvalidUpstreamUrl, name))
                &&& url_parse(raw.upstream@) is Some && url_scheme(href) != Some("https"@) ==> r
                    == Err::<ListenerView, (ConfigErrorKind, Seq<char>)>(
                    (ConfigErrorKind::UpstreamNotHttps, name),
                )
                &&& url_parse(raw.upstream@) is Some && url_scheme(href) == Some("https"@) && !(
                url_host_str(href) matches Some(Some(_))) ==> r == Err::<
                    ListenerView,
                    (ConfigErrorKind, Seq<char>),
                >((ConfigErrorKind::UpstreamMissingHost, name))
                &&& url_parse(raw.upstream@) is Some && url_scheme(href) == Some("https"@) && (
                url_host_str(href) matches Some(Some(_))) ==> {
                    &&& !url_edit_fits(href, server.len() as int) ==> r == Err::<
                        ListenerView,
                        (ConfigErrorKind, Seq<char>),
                    >((ConfigErrorKind::UpstreamTooLong, name))
                    &&& url_edit_fits(href, server.len() as int) && url_set_host(href, server)
                        is None ==> r == Err::<ListenerView, (ConfigErrorKind, Seq<char>)>(
                        (ConfigErrorKind::InvalidServerName, name),
                    )
                }
            }
        }),
{
}

} // verus!
