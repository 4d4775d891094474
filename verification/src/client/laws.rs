//! Properties of the game peer that span its operations.

use crate::client::events::RelayEvent;
use crate::client::peer::{close_effect, read_packet, relay_event_effect, PeerView};
use crate::client::peer::PeerActionView;
use crate::client::url::{has_prefix, host_with_port_spec, parse_url_spec, trimmed};
use crate::client::webrtc::{decimal, SignalingActionView};
use crate::client::webrtc::{
    signaling_step_spec, ClientSignalingView, OutstandingStep, SignalingEventView, SignalingState,
};
use crate::seq_util::{first_index, lemma_first_index_some};
use crate::protocol::Channel;
use vstd::prelude::*;

verus! {

/// Game data that the relay delivers to a peer with nothing waiting is what
/// the game reads next, and reading it leaves the peer as it was before.
pub proof fn lemma_received_data_is_read(
    peer: PeerView,
    channel: Channel,
    from_peer: i32,
    data: Vec<u8>,
    relay_connected: bool,
)
    requires
        peer.incoming.len() == 0,
    ensures
        read_packet(
            relay_event_effect(peer, RelayEvent::GameDataReceived { channel, from_peer, data }, relay_connected).0,
        ) == (peer, data@),
{
    let received = relay_event_effect(
        peer,
        RelayEvent::GameDataReceived { channel, from_peer, data },
        relay_connected,
    ).0;
    assert(received.incoming.drop_first() =~= peer.incoming);
}

/// Packets are read in the order they arrived: while packets are waiting,
/// receiving one more and then reading gives what reading first would give,
/// with the new packet queued behind.
pub proof fn lemma_packets_read_in_arrival_order(
    peer: PeerView,
    channel: Channel,
    from_peer: i32,
    data: Vec<u8>,
    relay_connected: bool,
)
    requires
        peer.incoming.len() > 0,
    ensures
        ({
            let event = RelayEvent::GameDataReceived { channel, from_peer, data };
            let (after_read, first) = read_packet(peer);
            read_packet(relay_event_effect(peer, event, relay_connected).0) == (
                relay_event_effect(after_read, event, relay_connected).0,
                first,
            )
        }),
{
    let event = RelayEvent::GameDataReceived { channel, from_peer, data };
    let received = relay_event_effect(peer, event, relay_connected).0;
    let after_read = read_packet(peer).0;
    assert(received.incoming.drop_first() =~= relay_event_effect(after_read, event, relay_connected).0.incoming);
}

/// Closing a second time does nothing: the peer stays as the first close left
/// it and nothing more is released.
pub proof fn lemma_close_is_idempotent(peer: PeerView, relay_connected: bool)
    ensures
        close_effect(close_effect(peer, relay_connected).0, relay_connected) == (
            close_effect(peer, relay_connected).0,
            false,
        ),
{
}

/// Signaling only moves forward, and only by the step that was asked for: an
/// event leaves the signaling state as it is, or moves it from waiting for the
/// offer to waiting for the answer when the connection to the signaling host
/// was asked for and is being opened, or from waiting for the answer to
/// complete when the answer was asked to be applied and has been.
pub proof fn lemma_signaling_moves_forward(v: ClientSignalingView, e: SignalingEventView)
    ensures
        ({
            let w = signaling_step_spec(v, e).0;
            ||| w.signaling_state == v.signaling_state
            ||| v.signaling_state == SignalingState::WaitingForOffer && w.signaling_state
                == SignalingState::WaitingForAnswer && v.outstanding == OutstandingStep::HostConnection
                && e == SignalingEventView::HostConnecting
            ||| v.signaling_state == SignalingState::WaitingForAnswer && w.signaling_state
                == SignalingState::Complete && v.outstanding == OutstandingStep::RemoteDescription
                && e == SignalingEventView::AnswerApplied
        }),
{
}

/// Each step is asked for only by its cause: the local description after a
/// pending offer was taken while waiting for the offer, the connection to the
/// signaling host after the local description was set and the URL parsed, and
/// the answer's application after a 200 response while waiting for the answer.
pub proof fn lemma_steps_have_causes(v: ClientSignalingView, e: SignalingEventView)
    ensures
        ({
            let w = signaling_step_spec(v, e).0;
            &&& w.outstanding != v.outstanding && w.outstanding == OutstandingStep::LocalDescription ==> {
                &&& e == SignalingEventView::Poll
                &&& v.signaling_state == SignalingState::WaitingForOffer
                &&& v.pending_offer is Some
            }
            &&& w.outstanding != v.outstanding && w.outstanding == OutstandingStep::HostConnection ==> {
                &&& e is OfferApplied
                &&& v.signaling_state == SignalingState::WaitingForOffer
                &&& v.outstanding == OutstandingStep::LocalDescription
                &&& parse_url_spec(v.signaling_url) is Ok
            }
            &&& w.outstanding != v.outstanding && w.outstanding == OutstandingStep::RemoteDescription ==> {
                &&& e == (SignalingEventView::Response { code: 200 })
                &&& v.signaling_state == SignalingState::WaitingForAnswer
            }
        }),
{
}

/// The parts of an accepted URL: the host holds neither ':' nor '/', the path
/// starts with '/', and without a port in the URL the port is 443 for https and
/// 80 for http.
pub proof fn lemma_parse_url_shape(url: Seq<char>)
    requires
        parse_url_spec(url) is Ok,
    ensures
        ({
            let (host, port, path) = parse_url_spec(url)->Ok_0;
            &&& !host.contains(':')
            &&& !host.contains('/')
            &&& path.len() > 0 && path[0] == '/'
        }),
{
    reveal_strlit("/");
    reveal_strlit("https://");
    reveal_strlit("http://");
    let u = trimmed(url);
    let rest = if has_prefix(u, "https://"@) {
        u.skip("https://"@.len() as int)
    } else {
        u.skip("http://"@.len() as int)
    };
    let (host_port, path) = match first_index(rest, '/') {
        Some(i) => (rest.take(i), rest.skip(i)),
        None => (rest, "/"@),
    };
    match first_index(rest, '/') {
        Some(i) => {
            lemma_first_index_some(rest, '/');
            assert(path[0] == rest[i]);
            assert forall|k: int| 0 <= k < host_port.len() implies host_port[k] != '/' by {
                assert(host_port[k] == rest[k]);
            }
        },
        None => {
            if rest.contains('/') {
                lemma_first_index_some(rest, '/');
            }
            assert forall|k: int| 0 <= k < host_port.len() implies host_port[k] != '/' by {
                if host_port[k] == '/' {
                    assert(rest.contains('/'));
                }
            }
        },
    }
    let host = parse_url_spec(url)->Ok_0.0;
    match first_index(host_port, ':') {
        Some(j) => {
            lemma_first_index_some(host_port, ':');
            assert(host == host_port.take(j));
            assert forall|k: int| 0 <= k < host.len() implies host[k] != ':' && host[k] != '/' by {
                assert(host[k] == host_port[k]);
            }
        },
        None => {
            if host_port.contains(':') {
                lemma_first_index_some(host_port, ':');
            }
            assert(host == host_port);
            assert forall|k: int| 0 <= k < host.len() implies host[k] != ':' by {
                if host[k] == ':' {
                    assert(host_port.contains(':'));
                }
            }
        },
    }
}

/// Without a port in the URL, the port is the scheme's default: 443 for https,
/// 80 for http.
pub proof fn lemma_parse_url_default_port(url: Seq<char>)
    requires
        parse_url_spec(url) is Ok,
    ensures
        ({
            let u = trimmed(url);
            let port = parse_url_spec(url)->Ok_0.1;
            &&& has_prefix(u, "https://"@) && !u.skip("https://"@.len() as int).contains(':') ==> port == 443
            &&& !has_prefix(u, "https://"@) && !u.skip("http://"@.len() as int).contains(':') ==> port == 80
        }),
{
    let u = trimmed(url);
    let rest = if has_prefix(u, "https://"@) {
        u.skip("https://"@.len() as int)
    } else {
        u.skip("http://"@.len() as int)
    };
    if !rest.contains(':') {
        let host_port = match first_index(rest, '/') {
            Some(i) => rest.take(i),
            None => rest,
        };
        if host_port.contains(':') {
            let k = choose|k: int| 0 <= k < host_port.len() && host_port[k] == ':';
            if first_index(rest, '/') is Some {
                lemma_first_index_some(rest, '/');
            }
            assert(rest[k] == ':');
        }
        if first_index(host_port, ':') is Some {
            lemma_first_index_some(host_port, ':');
        }
    }
}

/// Every peer, host or not, is told when a game peer leaves the room, and
/// nothing else changes.
pub proof fn lemma_peer_left_is_signalled(peer: PeerView, peer_id: i32, relay_connected: bool)
    ensures
        ({
            let (after, actions) = relay_event_effect(peer, RelayEvent::PeerLeftRoom { peer_id }, relay_connected);
            &&& after == peer
            &&& actions.len() == 1
            &&& actions[0] matches PeerActionView::EmitPeerDisconnected { peer_id: p } && p == peer_id as i64
        }),
{
}

/// The address signaling connects to is the bare host for the default ports 80
/// and 443, and host, ':' and the port's digits for any other port; this holds
/// both for `signaling_host` and for the host that signaling asks to connect to
/// once the offer is applied.
pub proof fn lemma_signaling_host_of_default_ports(v: ClientSignalingView, body: Seq<u8>)
    requires
        parse_url_spec(v.signaling_url) is Ok,
    ensures
        ({
            let (host, port, _) = parse_url_spec(v.signaling_url)->Ok_0;
            let expected = if port == 80 || port == 443 {
                host
            } else {
                host + ":"@ + decimal(port as int)
            };
            &&& host_with_port_spec(host, port, decimal(port as int)) == expected
            &&& v.signaling_state == SignalingState::WaitingForOffer && v.outstanding
                == OutstandingStep::LocalDescription ==> signaling_step_spec(
                v,
                SignalingEventView::OfferApplied { body },
            ).1 == (SignalingActionView::ConnectToHost { host: expected })
        }),
{
}

} // verus!
