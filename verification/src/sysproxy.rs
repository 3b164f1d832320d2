use vstd::prelude::*;

use crate::errors::Error;
use crate::strutil::str_eq;
use crate::supervisor::ProxyManager;

verus! {

use vstd::string::StringExecFns;

/// The platform variant the configurator runs on, selected once at
/// startup: registry-based proxy toggling, PAC-file-based per-service
/// configuration, or nothing to do.
#[derive(Clone, Copy, Debug, PartialEq, Eq, Structural)]
pub enum Platform {
    Windows,
    MacOs,
    Other,
}

/// One OS configuration step the surrounding application must carry out.
/// The library decides the exact sequence of steps; the application
/// performs them in order (registry writes, `networksetup` invocations,
/// writing or removing the PAC file).
pub enum ConfigAction {
    /// Set the user's global "proxy enabled" registry flag.
    SetRegistryProxyEnable { enabled: bool },
    /// Set the user's "proxy server" registry value to loopback at `port`.
    SetRegistryProxyServer { port: u16 },
    /// Broadcast a settings-changed notification to running applications.
    BroadcastSettingsChanged,
    /// Write the PAC file routing `allowlist` hosts to loopback at `port`.
    WritePacFile { port: u16, allowlist: Vec<String> },
    /// Point the service's automatic-proxy URL at the generated PAC file.
    SetAutoProxyUrl { service: String },
    /// Switch the service's automatic-proxy use on or off.
    SetAutoProxyState { service: String, on: bool },
    /// Switch the service's web proxy on or off.
    SetWebProxyState { service: String, on: bool },
    /// Switch the service's secure web proxy on or off.
    SetSecureWebProxyState { service: String, on: bool },
    /// Remove the generated PAC file.
    RemovePacFile,
}

/// The model of a written PAC file: which hosts it routes to which local
/// port.
pub struct PacModel {
    pub port: u16,
    pub allowlist: Seq<Seq<char>>,
}

/// The model of the OS-global proxy configuration that the actions above
/// read and write: the registry flag and server value, the selected
/// service's automatic-proxy URL and the three per-service proxy states,
/// and the generated PAC file if one exists.
pub struct SystemProxyState {
    pub registry_proxy_enabled: bool,
    pub registry_proxy_port: Option<u16>,
    pub auto_proxy_url_service: Option<Seq<char>>,
    pub auto_proxy_enabled: bool,
    pub web_proxy_enabled: bool,
    pub secure_web_proxy_enabled: bool,
    pub pac_file: Option<PacModel>,
}

/// How one configuration action transforms the modelled OS state.
pub open spec fn apply_action(s: SystemProxyState, a: ConfigAction) -> SystemProxyState {
    match a {
        ConfigAction::SetRegistryProxyEnable { enabled } => SystemProxyState {
            registry_proxy_enabled: enabled,
            ..s
        },
        ConfigAction::SetRegistryProxyServer { port } => SystemProxyState {
            registry_proxy_port: Some(port),
            ..s
        },
        ConfigAction::BroadcastSettingsChanged => s,
        ConfigAction::WritePacFile { port, allowlist } => SystemProxyState {
            pac_file: Some(
                PacModel { port, allowlist: allowlist@.map_values(|x: String| x@) },
            ),
            ..s
        },
        ConfigAction::SetAutoProxyUrl { service } => SystemProxyState {
            auto_proxy_url_service: Some(service@),
            ..s
        },
        ConfigAction::SetAutoProxyState { service: _, on } => SystemProxyState {
            auto_proxy_enabled: on,
            ..s
        },
        ConfigAction::SetWebProxyState { service: _, on } => SystemProxyState {
            web_proxy_enabled: on,
            ..s
        },
        ConfigAction::SetSecureWebProxyState { service: _, on } => SystemProxyState {
            secure_web_proxy_enabled: on,
            ..s
        },
        ConfigAction::RemovePacFile => SystemProxyState { pac_file: None, ..s },
    }
}

/// The state after carrying out a sequence of actions in order.
pub open spec fn apply_actions(s: SystemProxyState, actions: Seq<ConfigAction>) -> SystemProxyState
    decreases actions.len(),
{
    if actions.len() == 0 {
        s
    } else {
        apply_actions(apply_action(s, actions[0]), actions.skip(1))
    }
}

/// The observable on/off portion of the configuration: the enable flags
/// and whether a PAC file exists (the stored server value and PAC URL
/// remain once written and are not part of the on/off state).
pub open spec fn observables_equal(a: SystemProxyState, b: SystemProxyState) -> bool {
    &&& a.registry_proxy_enabled == b.registry_proxy_enabled
    &&& a.auto_proxy_enabled == b.auto_proxy_enabled
    &&& a.web_proxy_enabled == b.web_proxy_enabled
    &&& a.secure_web_proxy_enabled == b.secure_web_proxy_enabled
    &&& (a.pac_file is Some) == (b.pac_file is Some)
}

/// Every observable switch is off and no PAC file exists.
pub open spec fn spec_observable_off(s: SystemProxyState) -> bool {
    &&& !s.registry_proxy_enabled
    &&& !s.auto_proxy_enabled
    &&& !s.web_proxy_enabled
    &&& !s.secure_web_proxy_enabled
    &&& s.pac_file is None
}

/// Whether `host` matches `pattern`: a pattern starting with `*` matches
/// every host that ends with the rest of the pattern; any other pattern
/// matches only itself.
pub open spec fn spec_wildcard_match(host: Seq<char>, pattern: Seq<char>) -> bool {
    if pattern.len() > 0 && pattern[0] == '*' {
        let suffix = pattern.skip(1);
        host.len() >= suffix.len() && host.subrange(
            host.len() - suffix.len(),
            host.len() as int,
        ) == suffix
    } else {
        host == pattern
    }
}

pub fn wildcard_match(host: &str, pattern: &str) -> (r: bool)
    ensures
        r == spec_wildcard_match(host@, pattern@),
{
    let plen = pattern.unicode_len();
    if plen > 0 && pattern.get_char(0) == '*' {
        let hlen = host.unicode_len();
        let slen = plen - 1;
        if hlen < slen {
            return false;
        }
        let start = hlen - slen;
        let ghost suffix = pattern@.skip(1);
        let mut i: usize = 0;
        while i < slen
            invariant
                plen == pattern@.len(),
                hlen == host@.len(),
                slen == plen - 1,
                start == hlen - slen,
                suffix == pattern@.skip(1),
                i <= slen,
                forall|j: int| 0 <= j < i ==> host@[start + j] == #[trigger] suffix[j],
            decreases slen - i,
        {
            proof {
                assert(suffix[i as int] == pattern@[1 + i]);
            }
            if host.get_char(start + i) != pattern.get_char(1 + i) {
                proof {
                    let sub = host@.subrange(start as int, hlen as int);
                    assert(sub[i as int] == host@[start + i]);
                }
                return false;
            }
            i += 1;
        }
        proof {
            assert(host@.subrange(start as int, hlen as int) =~= suffix);
        }
        true
    } else {
        str_eq(host, pattern)
    }
}

/// Whether the generated PAC routine routes `host` through the local
/// proxy: true exactly when some allowlist pattern matches; every other
/// host goes direct.
pub open spec fn spec_uses_proxy(host: Seq<char>, patterns: Seq<Seq<char>>) -> bool {
    exists|i: int| 0 <= i < patterns.len() && spec_wildcard_match(host, #[trigger] patterns[i])
}

pub fn pac_decision(host: &str, allowlist: &Vec<String>) -> (r: bool)
    ensures
        r == spec_uses_proxy(host@, allowlist@.map_values(|x: String| x@)),
{
    let ghost patterns = allowlist@.map_values(|x: String| x@);
    let mut i: usize = 0;
    while i < allowlist.len()
        invariant
            i <= allowlist@.len(),
            patterns == allowlist@.map_values(|x: String| x@),
            forall|j: int| 0 <= j < i ==> !spec_wildcard_match(host@, #[trigger] patterns[j]),
        decreases allowlist@.len() - i,
    {
        proof {
            assert(patterns[i as int] == allowlist@[i as int]@);
        }
        if wildcard_match(host, allowlist[i].as_str()) {
            return true;
        }
        i += 1;
    }
    false
}

/// One allowlist test inside the PAC routine.
pub open spec fn spec_pac_condition(p: Seq<char>) -> Seq<char> {
    "shExpMatch(host, \""@ + p + "\")"@
}

/// The allowlist tests from index `i` on, joined with `||`.
pub open spec fn spec_pac_conditions(ps: Seq<Seq<char>>, i: int) -> Seq<char>
    decreases ps.len() - i,
{
    if 0 <= i && i < ps.len() {
        if i + 1 < ps.len() {
            spec_pac_condition(ps[i]) + " || "@ + spec_pac_conditions(ps, i + 1)
        } else {
            spec_pac_condition(ps[i])
        }
    } else {
        Seq::<char>::empty()
    }
}

/// The full text of the generated PAC script: a `FindProxyForURL` routine
/// that returns the loopback proxy for hosts matching the allowlist (a
/// constant false test when the allowlist is empty) and direct routing
/// otherwise.
pub open spec fn spec_pac_text(port: int, ps: Seq<Seq<char>>) -> Seq<char> {
    "function FindProxyForURL(url, host) {\n    if ("@ + (if ps.len() == 0 {
        "false"@
    } else {
        spec_pac_conditions(ps, 0)
    }) + ") {\n        return \"PROXY 127.0.0.1:"@ + crate::strutil::spec_decimal(port)
        + "\";\n    }\n    return \"DIRECT\";\n}\n"@
}

/// Renders the PAC script whose routing decision `spec_uses_proxy`
/// describes: exactly the allowlisted hosts go to the loopback proxy at
/// `port`.
pub fn pac_script(port: u16, allowlist: &Vec<String>) -> (r: String)
    ensures
        r@ == spec_pac_text(port as int, allowlist@.map_values(|x: String| x@)),
{
    let ghost ps = allowlist@.map_values(|x: String| x@);
    let mut s = String::from_str("function FindProxyForURL(url, host) {\n    if (");
    let ghost header = s@;
    if allowlist.len() == 0 {
        s.append("false");
    } else {
        let mut i: usize = 0;
        while i < allowlist.len()
            invariant
                0 < allowlist@.len(),
                i <= allowlist@.len(),
                ps == allowlist@.map_values(|x: String| x@),
                header == "function FindProxyForURL(url, host) {\n    if ("@,
                s@ + spec_pac_conditions(ps, i as int) == header + spec_pac_conditions(ps, 0),
            decreases allowlist@.len() - i,
        {
            let ghost s0 = s@;
            proof {
                assert(ps[i as int] == allowlist@[i as int]@);
            }
            s.append("shExpMatch(host, \"");
            s.append(allowlist[i].as_str());
            s.append("\")");
            if i + 1 < allowlist.len() {
                s.append(" || ");
                proof {
                    assert(spec_pac_conditions(ps, i as int) == spec_pac_condition(ps[i as int])
                        + " || "@ + spec_pac_conditions(ps, i + 1));
                    assert(s@ + spec_pac_conditions(ps, i + 1) =~= s0 + spec_pac_conditions(
                        ps,
                        i as int,
                    ));
                }
            } else {
                proof {
                    assert(spec_pac_conditions(ps, i as int) == spec_pac_condition(
                        ps[i as int],
                    ));
                    assert(spec_pac_conditions(ps, i + 1) =~= Seq::<char>::empty());
                    assert(s@ + spec_pac_conditions(ps, i + 1) =~= s0 + spec_pac_conditions(
                        ps,
                        i as int,
                    ));
                }
            }
            i += 1;
        }
        proof {
            assert(spec_pac_conditions(ps, allowlist@.len() as int) =~= Seq::<char>::empty());
            assert(s@ + spec_pac_conditions(ps, allowlist@.len() as int) =~= s@);
            assert(s@ == header + spec_pac_conditions(ps, 0));
        }
    }
    s.append(") {\n        return \"PROXY 127.0.0.1:");
    let port_str = crate::strutil::u16_to_string(port);
    s.append(port_str.as_str());
    s.append("\";\n    }\n    return \"DIRECT\";\n}\n");
    proof {
        assert(s@ =~= spec_pac_text(port as int, ps));
    }
    s
}

/// The least index at or after `i` where `)` is directly followed by a
/// space.
pub open spec fn find_paren_space(l: Seq<char>, i: int) -> Option<int>
    decreases l.len() - i,
{
    if 0 <= i && i + 1 < l.len() {
        if l[i] == ')' && l[i + 1] == ' ' {
            Some(i)
        } else {
            find_paren_space(l, i + 1)
        }
    } else {
        None
    }
}

/// The service a listing line names: lines shaped like
/// `(<order>) <service>` — an opening parenthesis first, with the
/// service being everything after the first `) ` — name one.
pub open spec fn line_service(l: Seq<char>) -> Option<Seq<char>> {
    if l.len() > 0 && l[0] == '(' {
        match find_paren_space(l, 0) {
            Some(k) => Some(l.subrange(k + 2, l.len() as int)),
            None => None,
        }
    } else {
        None
    }
}

/// The service a line names, unless it is one of the known-irrelevant
/// services that never carry user traffic.
pub open spec fn eligible_service(l: Seq<char>) -> Option<Seq<char>> {
    match line_service(l) {
        Some(s) => if s == "Bluetooth PAN"@ || s == "Thunderbolt Bridge"@ {
            None
        } else {
            Some(s)
        },
        None => None,
    }
}

/// The first eligible service at or after line `i`.
pub open spec fn first_eligible(lines: Seq<Seq<char>>, i: int) -> Option<Seq<char>>
    decreases lines.len() - i,
{
    if 0 <= i && i < lines.len() {
        match eligible_service(lines[i]) {
            Some(s) => Some(s),
            None => first_eligible(lines, i + 1),
        }
    } else {
        None
    }
}

/// The active network service named by the OS's service-priority listing:
/// the first eligible one, in listing order.
pub open spec fn spec_network_service(lines: Seq<Seq<char>>) -> Option<Seq<char>> {
    first_eligible(lines, 0)
}

fn line_service_exec(l: &str) -> (r: Option<String>)
    ensures
        match r {
            Some(s) => line_service(l@) == Some(s@),
            None => line_service(l@) is None,
        },
{
    let len = l.unicode_len();
    if len == 0 || l.get_char(0) != '(' {
        return None;
    }
    let mut k: usize = 0;
    while k + 1 < len && !(l.get_char(k) == ')' && l.get_char(k + 1) == ' ')
        invariant
            len == l@.len(),
            k < len,
            find_paren_space(l@, 0) == find_paren_space(l@, k as int),
        decreases len - k,
    {
        k += 1;
    }
    if k + 1 < len {
        Some(l.substring_char(k + 2, len).to_owned())
    } else {
        None
    }
}

/// Picks the active network service from the priority-ordered listing
/// lines, skipping the known-irrelevant services; fails with
/// `NetworkServiceNotFound` exactly when no line names an eligible
/// service.
pub fn get_network_service(lines: &Vec<String>) -> (r: Result<String, Error>)
    ensures
        match r {
            Ok(s) => spec_network_service(lines@.map_values(|x: String| x@)) == Some(s@),
            Err(e) => e == Error::NetworkServiceNotFound && spec_network_service(
                lines@.map_values(|x: String| x@),
            ) is None,
        },
{
    let ghost ls = lines@.map_values(|x: String| x@);
    let mut i: usize = 0;
    while i < lines.len()
        invariant
            i <= lines@.len(),
            ls == lines@.map_values(|x: String| x@),
            first_eligible(ls, 0) == first_eligible(ls, i as int),
        decreases lines@.len() - i,
    {
        proof {
            assert(ls[i as int] == lines@[i as int]@);
        }
        match line_service_exec(lines[i].as_str()) {
            Some(s) => {
                let excluded = str_eq(s.as_str(), "Bluetooth PAN") || str_eq(
                    s.as_str(),
                    "Thunderbolt Bridge",
                );
                if !excluded {
                    return Ok(s);
                }
            },
            None => {},
        }
        i += 1;
    }
    Err(Error::NetworkServiceNotFound)
}

fn clone_string_vec(v: &Vec<String>) -> (r: Vec<String>)
    ensures
        r@ == v@,
{
    let mut r: Vec<String> = Vec::new();
    let mut i: usize = 0;
    while i < v.len()
        invariant
            i <= v@.len(),
            r@ =~= v@.subrange(0, i as int),
        decreases v@.len() - i,
    {
        r.push(v[i].clone());
        i += 1;
    }
    proof {
        assert(r@ =~= v@);
    }
    r
}

impl ProxyManager {
    /// Decides the configuration steps that point the OS network stack at
    /// the local proxy on this supervisor's port.
    ///
    /// On the registry platform the steps enable the global proxy flag
    /// for loopback at the port — unscoped, all traffic — and broadcast
    /// the change. On the PAC platform they write a PAC file scoped to
    /// `allowlist`, point the active network service (the first eligible
    /// one in `service_lines`, the OS's priority listing) at it, and
    /// switch automatic proxy use on; with no eligible service this fails
    /// with `NetworkServiceNotFound`. Elsewhere there is nothing to do.
    pub fn enable_system_proxy(
        &self,
        platform: Platform,
        allowlist: &Vec<String>,
        service_lines: &Vec<String>,
    ) -> (r: Result<Vec<ConfigAction>, Error>)
        ensures
            (r is Err) <==> (platform == Platform::MacOs && spec_network_service(
                service_lines@.map_values(|x: String| x@),
            ) is None),
            r is Err ==> r == Result::<Vec<ConfigAction>, Error>::Err(
                Error::NetworkServiceNotFound,
            ),
            match r {
                Ok(actions) => match platform {
                    Platform::Windows => forall|s: SystemProxyState|
                        #[trigger] apply_actions(s, actions@) == (SystemProxyState {
                            registry_proxy_enabled: true,
                            registry_proxy_port: Some(self.port),
                            ..s
                        }),
                    Platform::MacOs => spec_network_service(
                        service_lines@.map_values(|x: String| x@),
                    ) matches Some(svc) && forall|s: SystemProxyState|
                        #[trigger] apply_actions(s, actions@) == (SystemProxyState {
                            pac_file: Some(
                                PacModel {
                                    port: self.port,
                                    allowlist: allowlist@.map_values(|x: String| x@),
                                },
                            ),
                            auto_proxy_url_service: Some(svc),
                            auto_proxy_enabled: true,
                            ..s
                        }),
                    Platform::Other => actions@.len() == 0 && forall|s: SystemProxyState|
                        #[trigger] apply_actions(s, actions@) == s,
                },
                Err(_) => true,
            },
    {
        match platform {
            Platform::Windows => {
                let mut actions: Vec<ConfigAction> = Vec::new();
                actions.push(ConfigAction::SetRegistryProxyEnable { enabled: true });
                actions.push(ConfigAction::SetRegistryProxyServer { port: self.port });
                actions.push(ConfigAction::BroadcastSettingsChanged);
                proof {
                    let q = actions@;
                    assert(q.len() == 3);
                    assert(q.skip(1) =~= seq![q[1], q[2]]);
                    assert(q.skip(1).skip(1) =~= seq![q[2]]);
                    assert(q.skip(1).skip(1).skip(1) =~= Seq::<ConfigAction>::empty());
                    assert forall|s: SystemProxyState| #[trigger] apply_actions(s, q)
                        == (SystemProxyState {
                        registry_proxy_enabled: true,
                        registry_proxy_port: Some(self.port),
                        ..s
                    }) by {
                        let s1 = apply_action(s, q[0]);
                        let s2 = apply_action(s1, q[1]);
                        let s3 = apply_action(s2, q[2]);
                        assert(apply_actions(s, q) == apply_actions(s1, q.skip(1)));
                        assert(apply_actions(s1, q.skip(1)) == apply_actions(
                            s2,
                            q.skip(1).skip(1),
                        ));
                        assert(apply_actions(s2, q.skip(1).skip(1)) == apply_actions(
                            s3,
                            q.skip(1).skip(1).skip(1),
                        ));
                        assert(apply_actions(s3, q.skip(1).skip(1).skip(1)) == s3);
                    }
                }
                Ok(actions)
            },
            Platform::MacOs => {
                match get_network_service(service_lines) {
                    Ok(service) => {
                        let mut actions: Vec<ConfigAction> = Vec::new();
                        actions.push(
                            ConfigAction::WritePacFile {
                                port: self.port,
                                allowlist: clone_string_vec(allowlist),
                            },
                        );
                        actions.push(ConfigAction::SetAutoProxyUrl { service: service.clone() });
                        actions.push(ConfigAction::SetAutoProxyState { service, on: true });
                        proof {
                            let q = actions@;
                            assert(q.skip(1) =~= seq![q[1], q[2]]);
                            assert(q.skip(1).skip(1) =~= seq![q[2]]);
                            assert(q.skip(1).skip(1).skip(1) =~= Seq::<ConfigAction>::empty());
                            assert forall|s: SystemProxyState| #[trigger] apply_actions(s, q)
                                == (SystemProxyState {
                                pac_file: Some(
                                    PacModel {
                                        port: self.port,
                                        allowlist: allowlist@.map_values(|x: String| x@),
                                    },
                                ),
                                auto_proxy_url_service: Some(
                                    spec_network_service(
                                        service_lines@.map_values(|x: String| x@),
                                    )->0,
                                ),
                                auto_proxy_enabled: true,
                                ..s
                            }) by {
                                let s1 = apply_action(s, q[0]);
                                let s2 = apply_action(s1, q[1]);
                                let s3 = apply_action(s2, q[2]);
                                assert(apply_actions(s, q) == apply_actions(s1, q.skip(1)));
                                assert(apply_actions(s1, q.skip(1)) == apply_actions(
                                    s2,
                                    q.skip(1).skip(1),
                                ));
                                assert(apply_actions(s2, q.skip(1).skip(1)) == apply_actions(
                                    s3,
                                    q.skip(1).skip(1).skip(1),
                                ));
                                assert(apply_actions(s3, q.skip(1).skip(1).skip(1)) == s3);
                            }
                        }
                        Ok(actions)
                    },
                    Err(e) => Err(e),
                }
            },
            Platform::Other => {
                let actions: Vec<ConfigAction> = Vec::new();
                Ok(actions)
            },
        }
    }

    /// Decides the configuration steps that restore direct networking:
    /// clearing the registry flag (the stored server value remains, as
    /// only the flag is observable), or switching the selected service's
    /// automatic, web and secure-web proxy states off and removing the
    /// PAC file. Safe to run without a prior enable: every step only
    /// clears state. On the PAC platform the service is looked up again
    /// and its absence fails with `NetworkServiceNotFound`.
    pub fn disable_system_proxy(&self, platform: Platform, service_lines: &Vec<String>) -> (r:
        Result<Vec<ConfigAction>, Error>)
        ensures
            (r is Err) <==> (platform == Platform::MacOs && spec_network_service(
                service_lines@.map_values(|x: String| x@),
            ) is None),
            r is Err ==> r == Result::<Vec<ConfigAction>, Error>::Err(
                Error::NetworkServiceNotFound,
            ),
            match r {
                Ok(actions) => match platform {
                    Platform::Windows => forall|s: SystemProxyState|
                        #[trigger] apply_actions(s, actions@) == (SystemProxyState {
                            registry_proxy_enabled: false,
                            ..s
                        }),
                    Platform::MacOs => forall|s: SystemProxyState|
                        #[trigger] apply_actions(s, actions@) == (SystemProxyState {
                            auto_proxy_enabled: false,
                            web_proxy_enabled: false,
                            secure_web_proxy_enabled: false,
                            pac_file: None,
                            ..s
                        }),
                    Platform::Other => actions@.len() == 0 && forall|s: SystemProxyState|
                        #[trigger] apply_actions(s, actions@) == s,
                },
                Err(_) => true,
            },
    {
        match platform {
            Platform::Windows => {
                let mut actions: Vec<ConfigAction> = Vec::new();
                actions.push(ConfigAction::SetRegistryProxyEnable { enabled: false });
                proof {
                    let q = actions@;
                    assert(q.skip(1) =~= Seq::<ConfigAction>::empty());
                    assert forall|s: SystemProxyState| #[trigger] apply_actions(s, q)
                        == (SystemProxyState { registry_proxy_enabled: false, ..s }) by {
                        assert(apply_actions(s, q) == apply_actions(apply_action(s, q[0]), q.skip(1)));
                    }
                }
                Ok(actions)
            },
            Platform::MacOs => {
                match get_network_service(service_lines) {
                    Ok(service) => {
                        let mut actions: Vec<ConfigAction> = Vec::new();
                        actions.push(
                            ConfigAction::SetAutoProxyState { service: service.clone(), on: false },
                        );
                        actions.push(
                            ConfigAction::SetWebProxyState { service: service.clone(), on: false },
                        );
                        actions.push(
                            ConfigAction::SetSecureWebProxyState { service, on: false },
                        );
                        actions.push(ConfigAction::RemovePacFile);
                        proof {
                            let q = actions@;
                            assert(q.skip(1) =~= seq![q[1], q[2], q[3]]);
                            assert(q.skip(1).skip(1) =~= seq![q[2], q[3]]);
                            assert(q.skip(1).skip(1).skip(1) =~= seq![q[3]]);
                            assert(q.skip(1).skip(1).skip(1).skip(1) =~= Seq::<
                                ConfigAction,
                            >::empty());
                            assert forall|s: SystemProxyState| #[trigger] apply_actions(s, q)
                                == (SystemProxyState {
                                auto_proxy_enabled: false,
                                web_proxy_enabled: false,
                                secure_web_proxy_enabled: false,
                                pac_file: None,
                                ..s
                            }) by {
                                let s1 = apply_action(s, q[0]);
                                let s2 = apply_action(s1, q[1]);
                                let s3 = apply_action(s2, q[2]);
                                let s4 = apply_action(s3, q[3]);
                                assert(apply_actions(s, q) == apply_actions(s1, q.skip(1)));
                                assert(apply_actions(s1, q.skip(1)) == apply_actions(
                                    s2,
                                    q.skip(1).skip(1),
                                ));
                                assert(apply_actions(s2, q.skip(1).skip(1)) == apply_actions(
                                    s3,
                                    q.skip(1).skip(1).skip(1),
                                ));
                                assert(apply_actions(s3, q.skip(1).skip(1).skip(1))
                                    == apply_actions(s4, q.skip(1).skip(1).skip(1).skip(1)));
                                assert(apply_actions(s4, q.skip(1).skip(1).skip(1).skip(1))
                                    == s4);
                            }
                        }
                        Ok(actions)
                    },
                    Err(e) => Err(e),
                }
            },
            Platform::Other => {
                let actions: Vec<ConfigAction> = Vec::new();
                Ok(actions)
            },
        }
    }
}

/// Law: on the registry platform, enabling and then disabling from a
/// configuration whose switches are all off restores the observable
/// off-state, and no PAC file exists afterwards.
pub proof fn lemma_enable_disable_windows(
    s0: SystemProxyState,
    enable_actions: Seq<ConfigAction>,
    disable_actions: Seq<ConfigAction>,
    port: u16,
)
    requires
        spec_observable_off(s0),
        forall|s: SystemProxyState|
            #[trigger] apply_actions(s, enable_actions) == (SystemProxyState {
                registry_proxy_enabled: true,
                registry_proxy_port: Some(port),
                ..s
            }),
        forall|s: SystemProxyState|
            #[trigger] apply_actions(s, disable_actions) == (SystemProxyState {
                registry_proxy_enabled: false,
                ..s
            }),
    ensures
        ({
            let s2 = apply_actions(apply_actions(s0, enable_actions), disable_actions);
            observables_equal(s2, s0) && s2.pac_file is None
        }),
{
}

/// Law: on the PAC platform, enabling and then disabling from a
/// configuration whose switches are all off restores the observable
/// off-state and removes the generated PAC file.
pub proof fn lemma_enable_disable_macos(
    s0: SystemProxyState,
    enable_actions: Seq<ConfigAction>,
    disable_actions: Seq<ConfigAction>,
    pac: PacModel,
    service: Seq<char>,
)
    requires
        spec_observable_off(s0),
        forall|s: SystemProxyState|
            #[trigger] apply_actions(s, enable_actions) == (SystemProxyState {
                pac_file: Some(pac),
                auto_proxy_url_service: Some(service),
                auto_proxy_enabled: true,
                ..s
            }),
        forall|s: SystemProxyState|
            #[trigger] apply_actions(s, disable_actions) == (SystemProxyState {
                auto_proxy_enabled: false,
                web_proxy_enabled: false,
                secure_web_proxy_enabled: false,
                pac_file: None,
                ..s
            }),
    ensures
        ({
            let s2 = apply_actions(apply_actions(s0, enable_actions), disable_actions);
            observables_equal(s2, s0) && s2.pac_file is None
        }),
{
}

} // verus!
