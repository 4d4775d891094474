//! Admission of clients: version and application-token checks.

use crate::protocol::{Channel, PacketType, PacketView};
use crate::server::apps::{app_tokens, AppView, Apps, AppsView};
use crate::server::clients::{ClientState, Clients};
use crate::server::config::{contains_string, string_views, Config};
use crate::server::disconnect::{force_disconnect, force_disconnect_effect};
use crate::server::registry::{
    outbound_views, route_of, ClientTransport, Outbound, OutboundView, TransportRegistry,
};
use crate::seq_util::first_index;
use vstd::prelude::*;

verus! {

/// The error code sent with a refused authentication.
pub const AUTH_ERROR_CODE: u32 = 401;

/// Whether the relay's settings admit a client version.
pub open spec fn version_allowed_spec(config: &Config, version: Seq<char>) -> bool {
    string_views(config.allowed_versions@).contains(version)
}

/// Whether a remote endpoint decides on application tokens.
pub open spec fn remote_configured_spec(config: &Config) -> bool {
    config.remote_whitelist_endpoint@.len() != 0 && config.remote_whitelist_token@.len() != 0
}

/// The local decision on an application token: an empty whitelist admits every
/// token, otherwise the token must be listed.
pub open spec fn local_whitelist_spec(config: &Config, app: Seq<char>) -> bool {
    config.whitelist@.len() == 0 || string_views(config.whitelist@).contains(app)
}

/// The decision on an application token. With a remote endpoint configured its
/// verdict counts; when the remote check failed (`None`), the local whitelist
/// decides. Without one, the local whitelist decides.
pub open spec fn app_allowed_spec(config: &Config, app: Seq<char>, remote: Option<bool>) -> bool {
    if remote_configured_spec(config) {
        match remote {
            Some(verdict) => verdict,
            None => local_whitelist_spec(config, app),
        }
    } else {
        local_whitelist_spec(config, app)
    }
}

/// The message refusing a client version.
pub open spec fn version_refusal(version: Seq<char>) -> Seq<char> {
    "Version "@ + version + " is not allowed."@
}

/// The message refusing an application token.
pub open spec fn token_refusal(token: Seq<char>) -> Seq<char> {
    "App token "@ + token + " is not allowed."@
}

/// The message refusing a token when no application id is left to register it
/// under.
pub open spec fn exhausted_refusal(token: Seq<char>) -> Seq<char> {
    "App token "@ + token + " could not be registered."@
}

/// A refusal: the error packet, then a forced disconnect.
pub open spec fn refusal_effect(reg: Map<u64, ClientTransport>, target: u64, message: Seq<char>) -> (
    Seq<OutboundView>,
    Map<u64, ClientTransport>,
) {
    let (kick, reg1) = force_disconnect_effect(reg, target);
    (
        seq![
            OutboundView::Send {
                route: route_of(reg, target),
                target,
                packet: PacketView::Error { error_code: AUTH_ERROR_CODE, error_message: message },
                channel: Channel::Reliable,
            },
        ] + kick,
        reg1,
    )
}

/// The state of the relay that authentication reads and changes, with the work
/// it produces.
pub struct AuthEffect {
    pub actions: Seq<OutboundView>,
    pub transports: Map<u64, ClientTransport>,
    pub clients: Map<u64, ClientState>,
    pub apps: AppsView,
}

/// What authenticating a client does. A refused version or token is answered
/// with an error and a forced disconnect. An admitted client that is no longer
/// connected is ignored. Otherwise the client becomes authenticated for the
/// application with the token (registered under a fresh id when there is none)
/// and is told so; when a fresh id would be needed and none is left, the client
/// is refused like a refused token.
pub open spec fn auth_effect(
    reg: Map<u64, ClientTransport>,
    clients: Map<u64, ClientState>,
    apps: AppsView,
    config: &Config,
    sender: u64,
    token: Seq<char>,
    version: Seq<char>,
    remote: Option<bool>,
) -> AuthEffect {
    if !version_allowed_spec(config, version) {
        let (actions, transports) = refusal_effect(reg, sender, version_refusal(version));
        AuthEffect { actions, transports, clients, apps }
    } else if !app_allowed_spec(config, token, remote) {
        let (actions, transports) = refusal_effect(reg, sender, token_refusal(token));
        AuthEffect { actions, transports, clients, apps }
    } else if !clients.contains_key(sender) {
        AuthEffect { actions: Seq::empty(), transports: reg, clients, apps }
    } else if first_index(app_tokens(apps.apps), token) is None && apps.next_app_id == u64::MAX {
        let (actions, transports) = refusal_effect(reg, sender, exhausted_refusal(token));
        AuthEffect { actions, transports, clients, apps }
    } else {
        let (app_id, apps1) = match first_index(app_tokens(apps.apps), token) {
            Some(a) => (apps.apps[a].id, apps),
            None => (
                apps.next_app_id,
                AppsView {
                    apps: apps.apps.push(AppView { id: apps.next_app_id, token, rooms: Seq::empty() }),
                    next_app_id: (apps.next_app_id + 1) as u64,
                    ..apps
                },
            ),
        };
        AuthEffect {
            actions: seq![
                OutboundView::Send {
                    route: route_of(reg, sender),
                    target: sender,
                    packet: PacketView::ClientAuthenticated,
                    channel: Channel::Reliable,
                },
            ],
            transports: reg,
            clients: clients.insert(sender, ClientState::Authenticated { app_id }),
            apps: apps1,
        }
    }
}

/// Whether the relay's settings admit a client version.
pub fn is_version_allowed(config: &Config, version: &str) -> (res: bool)
    ensures
        res == version_allowed_spec(config, version@),
{
    contains_string(&config.allowed_versions, version)
}

/// Whether a remote endpoint decides on application tokens.
pub fn remote_whitelist_configured(config: &Config) -> (res: bool)
    ensures
        res == remote_configured_spec(config),
{
    !config.remote_whitelist_endpoint.as_str().is_empty() && !config.remote_whitelist_token.as_str().is_empty()
}

/// The local decision on an application token.
pub fn check_local_whitelist(config: &Config, app: &str) -> (res: bool)
    ensures
        res == local_whitelist_spec(config, app@),
{
    if config.whitelist.len() == 0 {
        true
    } else {
        contains_string(&config.whitelist, app)
    }
}

/// The decision on an application token, given the remote endpoint's verdict
/// (`None` when asking it failed); see `app_allowed_spec`.
pub fn app_allowed(config: &Config, app: &str, remote: Option<bool>) -> (res: bool)
    ensures
        res == app_allowed_spec(config, app@, remote),
{
    if remote_whitelist_configured(config) {
        match remote {
            Some(verdict) => verdict,
            None => check_local_whitelist(config, app),
        }
    } else {
        check_local_whitelist(config, app)
    }
}

/// The remote endpoint's verdict from its HTTP status: 200 admits, 404 refuses,
/// any other status is a failed check.
pub fn remote_whitelist_verdict(status: u16) -> (res: Option<bool>)
    ensures
        res == (if status == 200 {
            Some(true)
        } else if status == 404 {
            Some(false)
        } else {
            None::<bool>
        }),
{
    if status == 200 {
        Some(true)
    } else if status == 404 {
        Some(false)
    } else {
        None
    }
}

/// The address asked about an application token: the endpoint, a slash, the
/// token.
pub fn remote_whitelist_url(endpoint: &str, app: &str) -> (res: String)
    ensures
        res@ == endpoint@ + "/"@ + app@,
{
    let mut url = endpoint.to_owned();
    url.append("/");
    url.append(app);
    url
}

/// Sends the refusal error and forces the disconnect.
fn refuse(transport: &mut TransportRegistry, target: u64, message: String, out: &mut Vec<Outbound>)
    ensures
        outbound_views(final(out)@) == outbound_views(old(out)@) + refusal_effect(old(transport)@, target, message@).0,
        final(transport)@ == refusal_effect(old(transport)@, target, message@).1,
{
    let ghost msg = message@;
    let err = transport.send(
        target,
        PacketType::Error { error_code: AUTH_ERROR_CODE, error_message: message },
        Channel::Reliable,
    );
    out.push(err);
    force_disconnect(transport, target, out);
    assert(outbound_views(out@) =~= outbound_views(old(out)@) + refusal_effect(old(transport)@, target, msg).0);
}

/// Authenticates a client that presented an application token and a client
/// version; `remote` is the remote endpoint's verdict on the token (`None` when
/// asking it failed), which counts only when a remote endpoint is configured.
/// See `auth_effect`.
pub fn authenticate_client(
    transport: &mut TransportRegistry,
    clients: &mut Clients,
    apps: &mut Apps,
    config: &Config,
    sender_id: u64,
    app_token: &str,
    version: &str,
    remote: Option<bool>,
) -> (res: Vec<Outbound>)
    ensures
        ({
            let e = auth_effect(
                old(transport)@,
                old(clients)@,
                old(apps)@,
                config,
                sender_id,
                app_token@,
                version@,
                remote,
            );
            &&& outbound_views(res@) == e.actions
            &&& final(transport)@ == e.transports
            &&& final(clients)@ == e.clients
            &&& final(apps)@ == e.apps
        }),
        old(apps)@.wf() ==> final(apps)@.wf(),
{
    let mut out: Vec<Outbound> = Vec::new();
    if !is_version_allowed(config, version) {
        let mut msg = "Version ".to_owned();
        msg.append(version);
        msg.append(" is not allowed.");
        refuse(transport, sender_id, msg, &mut out);
        assert(outbound_views(out@) =~= outbound_views(Seq::<Outbound>::empty()) + refusal_effect(old(transport)@, sender_id, version_refusal(version@)).0);
        return out;
    }
    if !app_allowed(config, app_token, remote) {
        let mut msg = "App token ".to_owned();
        msg.append(app_token);
        msg.append(" is not allowed.");
        refuse(transport, sender_id, msg, &mut out);
        assert(outbound_views(out@) =~= outbound_views(Seq::<Outbound>::empty()) + refusal_effect(old(transport)@, sender_id, token_refusal(app_token@)).0);
        return out;
    }
    if !clients.contains(sender_id) {
        assert(outbound_views(out@) =~= Seq::<OutboundView>::empty());
        return out;
    }
    let app_id = match apps.get_by_token(app_token) {
        Some(app) => app.id(),
        None => {
            if apps.next_app_id() == u64::MAX {
                let mut msg = "App token ".to_owned();
                msg.append(app_token);
                msg.append(" could not be registered.");
                refuse(transport, sender_id, msg, &mut out);
                assert(outbound_views(out@) =~= outbound_views(Seq::<Outbound>::empty()) + refusal_effect(old(transport)@, sender_id, exhausted_refusal(app_token@)).0);
                return out;
            }
            apps.create(app_token.to_owned())
        },
    };
    clients.set_state(sender_id, ClientState::Authenticated { app_id });
    out.push(transport.send(sender_id, PacketType::ClientAuthenticated, Channel::Reliable));
    assert(outbound_views(out@) =~= auth_effect(
        old(transport)@,
        old(clients)@,
        old(apps)@,
        config,
        sender_id,
        app_token@,
        version@,
        remote,
    ).actions);
    out
}

/// Authenticates clients against the relay's settings. It owns the relay state
/// it works on while it is in use.
pub struct AuthHandler<'a> {
    pub transport: TransportRegistry,
    pub clients: Clients,
    pub apps: Apps,
    pub config: &'a Config,
}

impl<'a> AuthHandler<'a> {
    /// A handler working on the given relay state and settings.
    pub fn new(transport: TransportRegistry, clients: Clients, apps: Apps, config: &'a Config) -> (res: Self)
        ensures
            res.transport@ == transport@,
            res.clients@ == clients@,
            res.apps@ == apps@,
            res.config == config,
    {
        AuthHandler { transport, clients, apps, config }
    }

    /// Authenticates a client; see `authenticate_client`.
    pub fn authenticate_client(&mut self, sender_id: u64, app_token: &str, version: &str, remote: Option<bool>) -> (res: Vec<Outbound>)
        ensures
            ({
                let e = auth_effect(
                    old(self).transport@,
                    old(self).clients@,
                    old(self).apps@,
                    old(self).config,
                    sender_id,
                    app_token@,
                    version@,
                    remote,
                );
                &&& outbound_views(res@) == e.actions
                &&& final(self).transport@ == e.transports
                &&& final(self).clients@ == e.clients
                &&& final(self).apps@ == e.apps
            }),
            final(self).config == old(self).config,
            old(self).apps@.wf() ==> final(self).apps@.wf(),
    {
        authenticate_client(
            &mut self.transport,
            &mut self.clients,
            &mut self.apps,
            self.config,
            sender_id,
            app_token,
            version,
            remote,
        )
    }

    /// Hands the relay state back.
    pub fn into_parts(self) -> (res: (TransportRegistry, Clients, Apps))
        ensures
            res.0@ == self.transport@,
            res.1@ == self.clients@,
            res.2@ == self.apps@,
    {
        (self.transport, self.clients, self.apps)
    }
}

} // verus!
