//! Bookkeeping of the WebRTC data channels the relay's clients talk over.

use crate::protocol::Channel;
use crate::server::events::{ServerEvent, ServerEventView};
use crate::seq_util::{distinct, first_index, lemma_distinct_push, lemma_distinct_remove, lemma_first_index_at, lemma_first_index_none};
use crate::client::webrtc::{decimal_nat, push_decimal};
use vstd::prelude::*;

verus! {

/// A data channel registered for a client, with the channel's own id.
#[derive(Clone, Copy, Debug, PartialEq, Eq, Structural)]
pub struct ChannelEntry {
    pub client_id: u64,
    pub dc_id: u16,
}

/// The data channels of the WebRTC clients, in registration order, and the id
/// the next client gets.
pub struct WebRTCInterface {
    channels: Vec<ChannelEntry>,
    next_client_id: u64,
}

/// Abstract state of the WebRTC channel bookkeeping.
pub struct WebRTCView {
    pub channels: Seq<ChannelEntry>,
    pub next_client_id: u64,
}

impl View for WebRTCInterface {
    type V = WebRTCView;

    closed spec fn view(&self) -> WebRTCView {
        WebRTCView { channels: self.channels@, next_client_id: self.next_client_id }
    }
}

/// Client ids of the registered channels, in order.
pub open spec fn channel_clients(channels: Seq<ChannelEntry>) -> Seq<u64> {
    channels.map_values(|e: ChannelEntry| e.client_id)
}

/// Channel ids of the registered channels, in order.
pub open spec fn channel_ids(channels: Seq<ChannelEntry>) -> Seq<u16> {
    channels.map_values(|e: ChannelEntry| e.dc_id)
}

/// Why a message could not be sent to a WebRTC client.
#[derive(Clone, Copy, Debug, PartialEq, Eq, Structural)]
pub enum SendRefusal {
    /// The client has no registered data channel.
    NoChannel,
    /// The client's data channel, with this channel id, is not open.
    NotOpen { dc_id: u16 },
}

/// The kind of I/O error a refused send is reported with.
#[derive(Clone, Copy, Debug, PartialEq, Eq, Structural)]
pub enum SendErrorKind {
    /// The client has no channel (`NotFound`).
    NotFound,
    /// The client's channel is not open (`NotConnected`).
    NotConnected,
}

/// The message a refused send is reported with; `state` is the text of the
/// channel's ready state.
pub open spec fn refusal_message(refusal: SendRefusal, client_id: u64, state: Seq<char>) -> Seq<char> {
    match refusal {
        SendRefusal::NoChannel => "No data channel found for client "@ + decimal_nat(client_id as nat),
        SendRefusal::NotOpen { dc_id } => "Data channel "@ + decimal_nat(dc_id as nat) + " not open (state: "@
            + state + ")"@,
    }
}

/// The error a refused send to `client_id` is reported with: its kind and
/// message; `state` is the text of the channel's ready state.
pub fn refusal_error(refusal: SendRefusal, client_id: u64, state: &str) -> (res: (SendErrorKind, String))
    ensures
        res.0 == (match refusal {
            SendRefusal::NoChannel => SendErrorKind::NotFound,
            SendRefusal::NotOpen { .. } => SendErrorKind::NotConnected,
        }),
        res.1@ == refusal_message(refusal, client_id, state@),
{
    match refusal {
        SendRefusal::NoChannel => {
            let mut m = "No data channel found for client ".to_owned();
            push_decimal(&mut m, client_id);
            (SendErrorKind::NotFound, m)
        },
        SendRefusal::NotOpen { dc_id } => {
            let mut m = "Data channel ".to_owned();
            push_decimal(&mut m, dc_id as u64);
            m.append(" not open (state: ");
            m.append(state);
            m.append(")");
            (SendErrorKind::NotConnected, m)
        },
    }
}

/// The two-byte message clients send to keep the channel open.
pub open spec fn is_keepalive_spec(data: Seq<u8>) -> bool {
    data == seq![0xFFu8, 0xFFu8]
}

/// Whether a message on a client's channel is passed on to the relay: the
/// client has a registered channel and the message is not the keepalive.
pub open spec fn forwards(channels: Seq<ChannelEntry>, client_id: u64, data: Seq<u8>) -> bool {
    channel_clients(channels).contains(client_id) && !is_keepalive_spec(data)
}

/// The channels without the first one registered for a client.
pub open spec fn without_client(channels: Seq<ChannelEntry>, client_id: u64) -> Seq<ChannelEntry> {
    match first_index(channel_clients(channels), client_id) {
        Some(i) => channels.remove(i),
        None => channels,
    }
}

impl WebRTCView {
    /// Every client has one channel, and every client id is below the next one.
    pub open spec fn wf(self) -> bool {
        &&& 0 < self.next_client_id
        &&& distinct(channel_clients(self.channels))
        &&& forall|i: int| 0 <= i < self.channels.len() ==> #[trigger] self.channels[i].client_id < self.next_client_id
    }
}

/// Whether a message is the keepalive message.
pub fn is_keepalive(data: &Vec<u8>) -> (res: bool)
    ensures
        res == is_keepalive_spec(data@),
{
    let res = data.len() == 2 && data[0] == 0xFF && data[1] == 0xFF;
    proof {
        if res {
            assert(data@ =~= seq![0xFFu8, 0xFFu8]);
        } else if data@ == seq![0xFFu8, 0xFFu8] {
            assert(data@.len() == 2 && data@[0] == 0xFF && data@[1] == 0xFF);
        }
    }
    res
}

impl WebRTCInterface {
    /// No channel registered; the first client gets id 1.
    pub fn new() -> (res: Self)
        ensures
            res@.channels == Seq::<ChannelEntry>::empty(),
            res@.next_client_id == 1,
            res@.wf(),
    {
        WebRTCInterface { channels: Vec::new(), next_client_id: 1 }
    }

    /// The id the next registered channel's client gets.
    pub fn next_client_id(&self) -> (res: u64)
        ensures
            res == self@.next_client_id,
    {
        self.next_client_id
    }

    /// Position of a client's channel.
    fn find_client(&self, client_id: u64) -> (res: Option<usize>)
        ensures
            match res {
                Some(i) => {
                    &&& first_index(channel_clients(self@.channels), client_id) == Some(i as int)
                    &&& i < self@.channels.len()
                    &&& self@.channels[i as int].client_id == client_id
                },
                None => first_index(channel_clients(self@.channels), client_id) == None::<int>,
            },
    {
        let ghost ids = channel_clients(self@.channels);
        let mut i: usize = 0;
        while i < self.channels.len()
            invariant
                i <= self.channels@.len(),
                ids == channel_clients(self@.channels),
                forall|j: int| 0 <= j < i ==> ids[j] != client_id,
            decreases self.channels@.len() - i,
        {
            if self.channels[i].client_id == client_id {
                proof {
                    lemma_first_index_at(ids, client_id, i as int);
                }
                return Some(i);
            }
            i = i + 1;
        }
        proof {
            lemma_first_index_none(ids, client_id);
        }
        None
    }

    /// Registers a new data channel under a fresh client id and returns the
    /// connection event for that client.
    pub fn register_data_channel(&mut self, dc_id: u16) -> (res: ServerEvent)
        requires
            old(self)@.next_client_id < u64::MAX,
        ensures
            res@ == (ServerEventView::ClientConnected { client_id: old(self)@.next_client_id }),
            final(self)@.channels == old(self)@.channels.push(
                ChannelEntry { client_id: old(self)@.next_client_id, dc_id },
            ),
            final(self)@.next_client_id == old(self)@.next_client_id + 1,
            old(self)@.wf() ==> final(self)@.wf(),
            old(self)@.wf() ==> !channel_clients(old(self)@.channels).contains(old(self)@.next_client_id),
    {
        let client_id = self.next_client_id;
        let ghost before = self@;
        proof {
            if before.wf() && channel_clients(before.channels).contains(client_id) {
                let i = choose|i: int| 0 <= i < channel_clients(before.channels).len() && channel_clients(before.channels)[i] == client_id;
                assert(before.channels[i].client_id < before.next_client_id);
            }
        }
        self.next_client_id = client_id + 1;
        self.channels.push(ChannelEntry { client_id, dc_id });
        proof {
            if before.wf() {
                assert(channel_clients(self@.channels) =~= channel_clients(before.channels).push(client_id));
                lemma_distinct_push(channel_clients(before.channels), client_id);
            }
        }
        ServerEvent::ClientConnected { client_id }
    }

    /// Unregisters the first registered channel with the given channel id and
    /// returns the disconnection event of its client; `None` when no channel has
    /// that id.
    pub fn unregister_data_channel(&mut self, dc_id: u16) -> (res: Option<ServerEvent>)
        ensures
            match first_index(channel_ids(old(self)@.channels), dc_id) {
                Some(i) => {
                    &&& res matches Some(e) && e@ == (ServerEventView::ClientDisconnected {
                        client_id: old(self)@.channels[i].client_id,
                    })
                    &&& final(self)@.channels == old(self)@.channels.remove(i)
                },
                None => res is None && final(self)@.channels == old(self)@.channels,
            },
            final(self)@.next_client_id == old(self)@.next_client_id,
            old(self)@.wf() ==> final(self)@.wf(),
    {
        let ghost ids = channel_ids(self@.channels);
        let ghost before = self@;
        let mut i: usize = 0;
        while i < self.channels.len()
            invariant
                i <= self.channels@.len(),
                self@ == before,
                before == old(self)@,
                ids == channel_ids(self@.channels),
                forall|j: int| 0 <= j < i ==> ids[j] != dc_id,
            decreases self.channels@.len() - i,
        {
            if self.channels[i].dc_id == dc_id {
                proof {
                    lemma_first_index_at(ids, dc_id, i as int);
                }
                let entry = self.channels.remove(i);
                proof {
                    if before.wf() {
                        assert(channel_clients(self@.channels) =~= channel_clients(before.channels).remove(i as int));
                        lemma_distinct_remove(channel_clients(before.channels), i as int);
                        assert forall|k: int| 0 <= k < self@.channels.len() implies #[trigger] self@.channels[k].client_id < self@.next_client_id by {
                            if k < i {
                                assert(self@.channels[k] == before.channels[k]);
                            } else {
                                assert(self@.channels[k] == before.channels[k + 1]);
                            }
                        }
                    }
                }
                return Some(ServerEvent::ClientDisconnected { client_id: entry.client_id });
            }
            i = i + 1;
        }
        proof {
            lemma_first_index_none(ids, dc_id);
        }
        None
    }

    /// Turns a message received on a client's channel into the packet event of
    /// that client. Keepalive messages, and messages of a client that is no
    /// longer registered, produce nothing. Channels are reliable.
    pub fn handle_data_channel_message(&self, client_id: u64, data: Vec<u8>) -> (res: Option<ServerEvent>)
        ensures
            forwards(self@.channels, client_id, data@) ==> (res matches Some(e) && e@ == (
            ServerEventView::PacketReceived { client_id, data: data@, channel: Channel::Reliable })),
            !forwards(self@.channels, client_id, data@) ==> res is None,
    {
        match self.find_client(client_id) {
            None => {
                proof {
                    if channel_clients(self@.channels).contains(client_id) {
                        crate::seq_util::lemma_first_index_some(channel_clients(self@.channels), client_id);
                    }
                }
                None
            },
            Some(i) => {
                assert(channel_clients(self@.channels)[i as int] == client_id);
                if is_keepalive(&data) {
                    None
                } else {
                    Some(ServerEvent::PacketReceived { client_id, data, channel: Channel::Reliable })
                }
            },
        }
    }

    /// The channel id of a client's data channel, if it has one.
    pub fn channel_of(&self, client_id: u64) -> (res: Option<u16>)
        ensures
            match first_index(channel_clients(self@.channels), client_id) {
                Some(i) => res == Some(self@.channels[i].dc_id),
                None => res is None,
            },
    {
        match self.find_client(client_id) {
            Some(i) => Some(self.channels[i].dc_id),
            None => None,
        }
    }

    /// Decides a send to a client whose data channel is `channel_open` or not:
    /// the channel id to send over when the client has a channel and it is
    /// open, the refusal otherwise.
    pub fn check_send(&self, client_id: u64, channel_open: bool) -> (res: Result<u16, SendRefusal>)
        ensures
            match first_index(channel_clients(self@.channels), client_id) {
                Some(i) => if channel_open {
                    res == Ok::<u16, SendRefusal>(self@.channels[i].dc_id)
                } else {
                    res == Err::<u16, SendRefusal>(SendRefusal::NotOpen { dc_id: self@.channels[i].dc_id })
                },
                None => res == Err::<u16, SendRefusal>(SendRefusal::NoChannel),
            },
    {
        match self.find_client(client_id) {
            Some(i) => {
                let dc_id = self.channels[i].dc_id;
                if channel_open {
                    Ok(dc_id)
                } else {
                    Err(SendRefusal::NotOpen { dc_id })
                }
            },
            None => Err(SendRefusal::NoChannel),
        }
    }

    /// Forgets a client's data channel; returns whether it had one.
    pub fn remove_client(&mut self, client_id: u64) -> (res: bool)
        ensures
            res == channel_clients(old(self)@.channels).contains(client_id),
            final(self)@.channels == without_client(old(self)@.channels, client_id),
            final(self)@.next_client_id == old(self)@.next_client_id,
            old(self)@.wf() ==> final(self)@.wf(),
    {
        match self.find_client(client_id) {
            Some(i) => {
                let ghost before = self@;
                self.channels.remove(i);
                proof {
                    if before.wf() {
                        assert(channel_clients(self@.channels) =~= channel_clients(before.channels).remove(i as int));
                        lemma_distinct_remove(channel_clients(before.channels), i as int);
                        assert forall|k: int| 0 <= k < self@.channels.len() implies #[trigger] self@.channels[k].client_id < self@.next_client_id by {
                            if k < i {
                                assert(self@.channels[k] == before.channels[k]);
                            } else {
                                assert(self@.channels[k] == before.channels[k + 1]);
                            }
                        }
                    }
                }
                true
            },
            None => false,
        }
    }
}

} // verus!
