//! Applications known to the relay and the rooms hosted under each.

use crate::seq_util::{
    distinct, first_index, lemma_distinct_push, lemma_distinct_remove, lemma_first_index_at,
    lemma_first_index_none, lemma_first_index_some,
};
use vstd::prelude::*;

verus! {

/// A client's membership in a room, with the peer id the game knows it by.
#[derive(Clone, Copy, Debug, PartialEq, Eq, Structural)]
pub struct RoomPeer {
    pub client_id: u64,
    pub godot_id: i32,
}

/// The peer id of a room's host in the game.
pub const HOST_GODOT_ID: i32 = 1;

/// A room: its id, its host, and its members (the host among them).
pub struct Room {
    id: u64,
    host: u64,
    peers: Vec<RoomPeer>,
}

/// Abstract state of a room.
pub struct RoomView {
    pub id: u64,
    pub host: u64,
    pub peers: Seq<RoomPeer>,
}

impl View for Room {
    type V = RoomView;

    closed spec fn view(&self) -> RoomView {
        RoomView { id: self.id, host: self.host, peers: self.peers@ }
    }
}

/// Client ids of the members, in order.
pub open spec fn member_ids(peers: Seq<RoomPeer>) -> Seq<u64> {
    peers.map_values(|p: RoomPeer| p.client_id)
}

/// The game peer id of a client in a room.
pub open spec fn godot_id_of(peers: Seq<RoomPeer>, client_id: u64) -> Option<i32> {
    match first_index(member_ids(peers), client_id) {
        Some(i) => Some(peers[i].godot_id),
        None => None,
    }
}

/// The members left after a client leaves.
pub open spec fn without_member(peers: Seq<RoomPeer>, client_id: u64) -> Seq<RoomPeer> {
    match first_index(member_ids(peers), client_id) {
        Some(i) => peers.remove(i),
        None => peers,
    }
}

impl RoomView {
    /// No client is a member twice.
    pub open spec fn wf(self) -> bool {
        distinct(member_ids(self.peers))
    }
}

/// Position of a client among the members.
fn find_member(peers: &Vec<RoomPeer>, client_id: u64) -> (res: Option<usize>)
    ensures
        match res {
            Some(i) => {
                &&& first_index(member_ids(peers@), client_id) == Some(i as int)
                &&& i < peers@.len()
                &&& peers@[i as int].client_id == client_id
                &&& forall|j: int| 0 <= j < i ==> peers@[j].client_id != client_id
            },
            None => {
                &&& first_index(member_ids(peers@), client_id) == None::<int>
                &&& forall|j: int| 0 <= j < peers@.len() ==> peers@[j].client_id != client_id
            },
        },
{
    let ghost ids = member_ids(peers@);
    let mut i: usize = 0;
    while i < peers.len()
        invariant
            i <= peers@.len(),
            ids == member_ids(peers@),
            forall|j: int| 0 <= j < i ==> ids[j] != client_id,
            forall|j: int| 0 <= j < i ==> peers@[j].client_id != client_id,
        decreases peers@.len() - i,
    {
        if peers[i].client_id == client_id {
            proof {
                lemma_first_index_at(ids, client_id, i as int);
            }
            return Some(i);
        }
        i = i + 1;
    }
    proof {
        lemma_first_index_none(ids, client_id);
    }
    None
}

impl Room {
    /// A room whose only member is its host, with the host's game peer id.
    pub fn new(id: u64, host: u64) -> (res: Self)
        ensures
            res@.id == id,
            res@.host == host,
            res@.peers == seq![RoomPeer { client_id: host, godot_id: HOST_GODOT_ID }],
            res@.wf(),
    {
        let mut peers: Vec<RoomPeer> = Vec::new();
        peers.push(RoomPeer { client_id: host, godot_id: HOST_GODOT_ID });
        Room { id, host, peers }
    }

    /// The room's id.
    pub fn id(&self) -> (res: u64)
        ensures
            res == self@.id,
    {
        self.id
    }

    /// The client hosting the room.
    pub fn get_host(&self) -> (res: u64)
        ensures
            res == self@.host,
    {
        self.host
    }

    /// Client ids of all members, in order.
    pub fn get_clients(&self) -> (res: Vec<u64>)
        ensures
            res@ == member_ids(self@.peers),
    {
        let mut res: Vec<u64> = Vec::new();
        let mut i: usize = 0;
        while i < self.peers.len()
            invariant
                i <= self.peers@.len(),
                res@ == member_ids(self.peers@.take(i as int)),
            decreases self.peers@.len() - i,
        {
            res.push(self.peers[i].client_id);
            i = i + 1;
            assert(member_ids(self.peers@.take(i as int)) =~= member_ids(self.peers@.take(i - 1)).push(
                self.peers@[i - 1].client_id,
            ));
        }
        assert(self.peers@.take(i as int) =~= self.peers@);
        res
    }

    /// The game peer id of a member.
    pub fn client_to_gd(&self, client_id: u64) -> (res: Option<i32>)
        ensures
            res == godot_id_of(self@.peers, client_id),
    {
        match find_member(&self.peers, client_id) {
            Some(i) => Some(self.peers[i].godot_id),
            None => None,
        }
    }

    /// Admits a client that is not yet a member, under a game peer id.
    pub fn add_peer(&mut self, client_id: u64, godot_id: i32) -> (res: bool)
        ensures
            res == !member_ids(old(self)@.peers).contains(client_id),
            final(self)@.id == old(self)@.id,
            final(self)@.host == old(self)@.host,
            final(self)@.peers == (if res {
                old(self)@.peers.push(RoomPeer { client_id, godot_id })
            } else {
                old(self)@.peers
            }),
            old(self)@.wf() ==> final(self)@.wf(),
    {
        match find_member(&self.peers, client_id) {
            Some(i) => {
                proof {
                    lemma_first_index_some(member_ids(self.peers@), client_id);
                }
                false
            },
            None => {
                proof {
                    if member_ids(self.peers@).contains(client_id) {
                        lemma_first_index_some(member_ids(self.peers@), client_id);
                    }
                }
                let ghost before = self.peers@;
                self.peers.push(RoomPeer { client_id, godot_id });
                proof {
                    let ids = member_ids(self.peers@);
                    assert(ids =~= member_ids(before).push(client_id));
                }
                true
            },
        }
    }

    /// Removes a client from the members.
    pub fn remove_peer(&mut self, client_id: u64)
        ensures
            final(self)@.id == old(self)@.id,
            final(self)@.host == old(self)@.host,
            final(self)@.peers == without_member(old(self)@.peers, client_id),
            old(self)@.wf() ==> final(self)@.wf(),
    {
        match find_member(&self.peers, client_id) {
            Some(i) => {
                let ghost before = self.peers@;
                self.peers.remove(i);
                proof {
                    assert(member_ids(self.peers@) =~= member_ids(before).remove(i as int));
                }
            },
            None => {},
        }
    }
}

/// An application: its id, the token clients present for it, its rooms.
pub struct App {
    id: u64,
    token: String,
    rooms: Vec<Room>,
}

/// Abstract state of an application.
pub struct AppView {
    pub id: u64,
    pub token: Seq<char>,
    pub rooms: Seq<RoomView>,
}

impl View for App {
    type V = AppView;

    closed spec fn view(&self) -> AppView {
        AppView { id: self.id, token: self.token@, rooms: self.rooms@.map_values(|r: Room| r@) }
    }
}

/// Ids of rooms, in order.
pub open spec fn room_ids(rooms: Seq<RoomView>) -> Seq<u64> {
    rooms.map_values(|r: RoomView| r.id)
}

/// Ids of applications, in order.
pub open spec fn app_ids(apps: Seq<AppView>) -> Seq<u64> {
    apps.map_values(|a: AppView| a.id)
}

/// Tokens of applications, in order.
pub open spec fn app_tokens(apps: Seq<AppView>) -> Seq<Seq<char>> {
    apps.map_values(|a: AppView| a.token)
}

/// Where a room of an application stands: the application's position and the
/// room's position among the application's rooms.
pub open spec fn locate_room(apps: Seq<AppView>, app_id: u64, room_id: u64) -> Option<(int, int)> {
    match first_index(app_ids(apps), app_id) {
        Some(a) => match first_index(room_ids(apps[a].rooms), room_id) {
            Some(r) => Some((a, r)),
            None => None,
        },
        None => None,
    }
}

/// The applications with one room replaced.
pub open spec fn with_room(apps: Seq<AppView>, a: int, r: int, room: RoomView) -> Seq<AppView> {
    apps.update(a, AppView { rooms: apps[a].rooms.update(r, room), ..apps[a] })
}

/// The applications with one room taken out.
pub open spec fn without_room(apps: Seq<AppView>, a: int, r: int) -> Seq<AppView> {
    apps.update(a, AppView { rooms: apps[a].rooms.remove(r), ..apps[a] })
}

/// The applications with every room taken out.
pub open spec fn without_rooms(apps: Seq<AppView>) -> Seq<AppView> {
    apps.map_values(|a: AppView| AppView { rooms: Seq::empty(), ..a })
}

/// All applications and the ids they will hand out next.
pub struct Apps {
    apps: Vec<App>,
    next_app_id: u64,
    next_room_id: u64,
}

/// Abstract state of the applications.
pub struct AppsView {
    pub apps: Seq<AppView>,
    pub next_app_id: u64,
    pub next_room_id: u64,
}

impl View for Apps {
    type V = AppsView;

    closed spec fn view(&self) -> AppsView {
        AppsView {
            apps: self.apps@.map_values(|a: App| a@),
            next_app_id: self.next_app_id,
            next_room_id: self.next_room_id,
        }
    }
}

impl AppsView {
    /// Ids are unique and below the counters, and no room holds a client twice.
    pub open spec fn wf(self) -> bool {
        &&& 0 < self.next_app_id
        &&& 0 < self.next_room_id
        &&& distinct(app_ids(self.apps))
        &&& forall|a: int| 0 <= a < self.apps.len() ==> 0 < #[trigger] self.apps[a].id < self.next_app_id
        &&& forall|a: int| 0 <= a < self.apps.len() ==> distinct(room_ids(#[trigger] self.apps[a].rooms))
        &&& forall|a: int, r: int|
            0 <= a < self.apps.len() && 0 <= r < self.apps[a].rooms.len() ==> {
                &&& 0 < #[trigger] self.apps[a].rooms[r].id < self.next_room_id
                &&& self.apps[a].rooms[r].wf()
            }
    }
}

/// Position of an application among all applications.
fn find_app(apps: &Vec<App>, app_id: u64) -> (res: Option<usize>)
    ensures
        match res {
            Some(i) => {
                &&& first_index(app_ids(apps@.map_values(|a: App| a@)), app_id) == Some(i as int)
                &&& i < apps@.len()
                &&& apps@[i as int].id == app_id
            },
            None => first_index(app_ids(apps@.map_values(|a: App| a@)), app_id) == None::<int>,
        },
{
    let ghost ids = app_ids(apps@.map_values(|a: App| a@));
    let mut i: usize = 0;
    while i < apps.len()
        invariant
            i <= apps@.len(),
            ids == app_ids(apps@.map_values(|a: App| a@)),
            ids.len() == apps@.len(),
            forall|j: int| 0 <= j < i ==> ids[j] != app_id,
        decreases apps@.len() - i,
    {
        if apps[i].id == app_id {
            proof {
                assert(ids[i as int] == app_id);
                lemma_first_index_at(ids, app_id, i as int);
            }
            return Some(i);
        }
        i = i + 1;
    }
    proof {
        lemma_first_index_none(ids, app_id);
    }
    None
}

/// Position of a room among an application's rooms.
fn find_room(rooms: &Vec<Room>, room_id: u64) -> (res: Option<usize>)
    ensures
        match res {
            Some(i) => {
                &&& first_index(room_ids(rooms@.map_values(|r: Room| r@)), room_id) == Some(i as int)
                &&& i < rooms@.len()
                &&& rooms@[i as int]@.id == room_id
            },
            None => first_index(room_ids(rooms@.map_values(|r: Room| r@)), room_id) == None::<int>,
        },
{
    let ghost ids = room_ids(rooms@.map_values(|r: Room| r@));
    let mut i: usize = 0;
    while i < rooms.len()
        invariant
            i <= rooms@.len(),
            ids == room_ids(rooms@.map_values(|r: Room| r@)),
            ids.len() == rooms@.len(),
            forall|j: int| 0 <= j < i ==> ids[j] != room_id,
        decreases rooms@.len() - i,
    {
        if rooms[i].id() == room_id {
            proof {
                assert(ids[i as int] == room_id);
                lemma_first_index_at(ids, room_id, i as int);
            }
            return Some(i);
        }
        i = i + 1;
    }
    proof {
        lemma_first_index_none(ids, room_id);
    }
    None
}

impl App {
    /// The application's id.
    pub fn id(&self) -> (res: u64)
        ensures
            res == self@.id,
    {
        self.id
    }

    /// A room of this application.
    pub fn room(&self, room_id: u64) -> (res: Option<&Room>)
        ensures
            match first_index(room_ids(self@.rooms), room_id) {
                Some(r) => res matches Some(room) && room@ == self@.rooms[r],
                None => res is None,
            },
    {
        match find_room(&self.rooms, room_id) {
            Some(i) => Some(&self.rooms[i]),
            None => None,
        }
    }
}

impl Apps {
    /// No application, counters at their start.
    pub fn new() -> (res: Self)
        ensures
            res@.apps == Seq::<AppView>::empty(),
            res@.next_app_id == 1,
            res@.next_room_id == 1,
            res@.wf(),
    {
        Apps { apps: Vec::new(), next_app_id: 1, next_room_id: 1 }
    }

    /// The id the next application gets.
    pub fn next_app_id(&self) -> (res: u64)
        ensures
            res == self@.next_app_id,
    {
        self.next_app_id
    }

    /// The id the next room gets.
    pub fn next_room_id(&self) -> (res: u64)
        ensures
            res == self@.next_room_id,
    {
        self.next_room_id
    }

    /// The first application registered under a token.
    pub fn get_by_token(&self, token: &str) -> (res: Option<&App>)
        ensures
            match first_index(app_tokens(self@.apps), token@) {
                Some(a) => res matches Some(app) && app@ == self@.apps[a],
                None => res is None,
            },
    {
        let wanted = token.to_owned();
        let ghost tokens = app_tokens(self@.apps);
        let mut i: usize = 0;
        while i < self.apps.len()
            invariant
                i <= self.apps@.len(),
                wanted@ == token@,
                tokens == app_tokens(self@.apps),
                tokens.len() == self.apps@.len(),
                forall|j: int| 0 <= j < i ==> tokens[j] != token@,
            decreases self.apps@.len() - i,
        {
            if self.apps[i].token == wanted {
                proof {
                    assert(tokens[i as int] == token@);
                    lemma_first_index_at(tokens, token@, i as int);
                }
                return Some(&self.apps[i]);
            }
            i = i + 1;
        }
        proof {
            lemma_first_index_none(tokens, token@);
        }
        None
    }

    /// The application with an id.
    pub fn get(&self, app_id: u64) -> (res: Option<&App>)
        ensures
            match first_index(app_ids(self@.apps), app_id) {
                Some(a) => res matches Some(app) && app@ == self@.apps[a],
                None => res is None,
            },
    {
        match find_app(&self.apps, app_id) {
            Some(i) => Some(&self.apps[i]),
            None => None,
        }
    }

    /// Registers an application for a token under a fresh id, which it returns.
    pub fn create(&mut self, token: String) -> (res: u64)
        requires
            old(self)@.next_app_id < u64::MAX,
        ensures
            res == old(self)@.next_app_id,
            final(self)@.apps == old(self)@.apps.push(
                AppView { id: res, token: token@, rooms: Seq::empty() },
            ),
            final(self)@.next_app_id == old(self)@.next_app_id + 1,
            final(self)@.next_room_id == old(self)@.next_room_id,
            old(self)@.wf() ==> final(self)@.wf(),
    {
        let id = self.next_app_id;
        let ghost before = self@;
        let app = App { id, token, rooms: Vec::new() };
        assert(app@.rooms =~= Seq::<RoomView>::empty());
        self.apps.push(app);
        self.next_app_id = id + 1;
        proof {
            assert(self@.apps =~= before.apps.push(
                AppView { id, token: token@, rooms: Seq::empty() },
            ));
            if before.wf() {
                let ids = app_ids(self@.apps);
                assert(ids =~= app_ids(before.apps).push(id));
                assert forall|i: int, j: int|
                    0 <= i < ids.len() && 0 <= j < ids.len() && i != j implies ids[i] != ids[j] by {
                    if i < before.apps.len() && j < before.apps.len() {
                        assert(app_ids(before.apps)[i] != app_ids(before.apps)[j]);
                    } else if i < before.apps.len() {
                        assert(before.apps[i].id < before.next_app_id);
                    } else {
                        assert(before.apps[j].id < before.next_app_id);
                    }
                }
                assert forall|a: int| 0 <= a < self@.apps.len() implies distinct(
                    room_ids(#[trigger] self@.apps[a].rooms),
                ) by {
                    if a == before.apps.len() {
                        assert(room_ids(self@.apps[a].rooms) =~= Seq::<u64>::empty());
                    }
                }
                assert forall|a: int| 0 <= a < self@.apps.len() implies 0 < #[trigger] self@.apps[a].id
                    < self@.next_app_id by {
                    if a < before.apps.len() {
                        assert(self@.apps[a] == before.apps[a]);
                    }
                }
                assert forall|a: int, r: int|
                    0 <= a < self@.apps.len() && 0 <= r < self@.apps[a].rooms.len() implies {
                        &&& 0 < #[trigger] self@.apps[a].rooms[r].id < self@.next_room_id
                        &&& self@.apps[a].rooms[r].wf()
                    } by {
                    assert(a < before.apps.len());
                    assert(self@.apps[a] == before.apps[a]);
                }
                assert(self@.wf());
            }
        }
        id
    }

    /// Opens a room hosted by `host` in an application under a fresh room id,
    /// which it returns; `None` when there is no application with that id.
    #[verifier::rlimit(40)]
    pub fn create_room(&mut self, app_id: u64, host: u64) -> (res: Option<u64>)
        requires
            old(self)@.next_room_id < u64::MAX,
        ensures
            match first_index(app_ids(old(self)@.apps), app_id) {
                Some(a) => {
                    &&& res == Some(old(self)@.next_room_id)
                    &&& final(self)@.apps == old(self)@.apps.update(
                        a,
                        AppView {
                            rooms: old(self)@.apps[a].rooms.push(
                                RoomView {
                                    id: old(self)@.next_room_id,
                                    host,
                                    peers: seq![RoomPeer { client_id: host, godot_id: HOST_GODOT_ID }],
                                },
                            ),
                            ..old(self)@.apps[a]
                        },
                    )
                    &&& final(self)@.next_room_id == old(self)@.next_room_id + 1
                },
                None => res is None && final(self)@ == old(self)@,
            },
            final(self)@.next_app_id == old(self)@.next_app_id,
            old(self)@.wf() ==> final(self)@.wf(),
    {
        match find_app(&self.apps, app_id) {
            Some(a) => {
                let ghost before = self@;
                let room_id = self.next_room_id;
                let room = Room::new(room_id, host);
                let mut app = self.apps.remove(a);
                let ghost old_app = app@;
                app.rooms.push(room);
                let ghost new_app = app@;
                assert(new_app.rooms =~= old_app.rooms.push(room@));
                self.apps.insert(a, app);
                self.next_room_id = room_id + 1;
                assert(self@.apps =~= before.apps.update(a as int, new_app));
                proof {
                    if before.wf() {
                        assert(app_ids(self@.apps) =~= app_ids(before.apps));
                        assert(room_ids(new_app.rooms) =~= room_ids(old_app.rooms).push(room_id));
                        assert(!room_ids(old_app.rooms).contains(room_id)) by {
                            if room_ids(old_app.rooms).contains(room_id) {
                                let r = choose|r: int| 0 <= r < room_ids(old_app.rooms).len()
                                    && room_ids(old_app.rooms)[r] == room_id;
                                assert(before.apps[a as int].rooms[r].id < before.next_room_id);
                            }
                        }
                        lemma_distinct_push(room_ids(old_app.rooms), room_id);
                        assert(member_ids(room@.peers) =~= seq![host]);
                        lemma_apps_wf_update(before, self@, a as int);
                    }
                }
                Some(room_id)
            },
            None => None,
        }
    }

    /// Admits a client into a room under a game peer id; `false` when the room
    /// does not exist or the client is already a member.
    #[verifier::rlimit(40)]
    pub fn add_peer(&mut self, app_id: u64, room_id: u64, client_id: u64, godot_id: i32) -> (res: bool)
        ensures
            match locate_room(old(self)@.apps, app_id, room_id) {
                Some((a, r)) => {
                    let room = old(self)@.apps[a].rooms[r];
                    &&& res == !member_ids(room.peers).contains(client_id)
                    &&& final(self)@.apps == (if res {
                        with_room(
                            old(self)@.apps,
                            a,
                            r,
                            RoomView { peers: room.peers.push(RoomPeer { client_id, godot_id }), ..room },
                        )
                    } else {
                        old(self)@.apps
                    })
                },
                None => !res && final(self)@.apps == old(self)@.apps,
            },
            final(self)@.next_app_id == old(self)@.next_app_id,
            final(self)@.next_room_id == old(self)@.next_room_id,
            old(self)@.wf() ==> final(self)@.wf(),
    {
        let a = match find_app(&self.apps, app_id) {
            Some(a) => a,
            None => return false,
        };
        let r = match find_room(&self.apps[a].rooms, room_id) {
            Some(r) => r,
            None => return false,
        };
        let ghost before = self@;
        let mut app = self.apps.remove(a);
        let ghost old_app = app@;
        let mut room = app.rooms.remove(r);
        let ghost old_room = room@;
        assert(old_room == before.apps[a as int].rooms[r as int]);
        let added = room.add_peer(client_id, godot_id);
        let ghost new_room = room@;
        app.rooms.insert(r, room);
        let ghost new_app = app@;
        assert(new_app.rooms =~= old_app.rooms.update(r as int, new_room));
        self.apps.insert(a, app);
        assert(self@.apps =~= before.apps.update(a as int, new_app));
        proof {
            if !added {
                assert(new_room == old_room);
                assert(new_app.rooms =~= old_app.rooms);
                assert(self@.apps =~= before.apps);
            }
            if before.wf() {
                assert(room_ids(new_app.rooms) =~= room_ids(old_app.rooms));
                lemma_apps_wf_update(before, self@, a as int);
            }
        }
        added
    }

    /// Closes a room; `false` when there is no such room.
    #[verifier::rlimit(40)]
    pub fn remove_room(&mut self, app_id: u64, room_id: u64) -> (res: bool)
        ensures
            match locate_room(old(self)@.apps, app_id, room_id) {
                Some((a, r)) => res && final(self)@.apps == without_room(old(self)@.apps, a, r),
                None => !res && final(self)@.apps == old(self)@.apps,
            },
            final(self)@.next_app_id == old(self)@.next_app_id,
            final(self)@.next_room_id == old(self)@.next_room_id,
            old(self)@.wf() ==> final(self)@.wf(),
    {
        let a = match find_app(&self.apps, app_id) {
            Some(a) => a,
            None => return false,
        };
        let r = match find_room(&self.apps[a].rooms, room_id) {
            Some(r) => r,
            None => return false,
        };
        let ghost before = self@;
        let mut app = self.apps.remove(a);
        let ghost old_app = app@;
        app.rooms.remove(r);
        let ghost new_app = app@;
        assert(new_app.rooms =~= old_app.rooms.remove(r as int));
        self.apps.insert(a, app);
        assert(self@.apps =~= before.apps.update(a as int, new_app));
        proof {
            if before.wf() {
                assert(room_ids(new_app.rooms) =~= room_ids(old_app.rooms).remove(r as int));
                lemma_distinct_remove(room_ids(old_app.rooms), r as int);
                lemma_apps_wf_update(before, self@, a as int);
            }
        }
        true
    }

    /// Removes a client from a room; `false` when there is no such room.
    #[verifier::rlimit(40)]
    pub fn remove_peer(&mut self, app_id: u64, room_id: u64, client_id: u64) -> (res: bool)
        ensures
            match locate_room(old(self)@.apps, app_id, room_id) {
                Some((a, r)) => {
                    let room = old(self)@.apps[a].rooms[r];
                    &&& res
                    &&& final(self)@.apps == with_room(
                        old(self)@.apps,
                        a,
                        r,
                        RoomView { peers: without_member(room.peers, client_id), ..room },
                    )
                },
                None => !res && final(self)@.apps == old(self)@.apps,
            },
            final(self)@.next_app_id == old(self)@.next_app_id,
            final(self)@.next_room_id == old(self)@.next_room_id,
            old(self)@.wf() ==> final(self)@.wf(),
    {
        let a = match find_app(&self.apps, app_id) {
            Some(a) => a,
            None => return false,
        };
        let r = match find_room(&self.apps[a].rooms, room_id) {
            Some(r) => r,
            None => return false,
        };
        let ghost before = self@;
        let mut app = self.apps.remove(a);
        let ghost old_app = app@;
        let mut room = app.rooms.remove(r);
        let ghost old_room = room@;
        assert(old_room == before.apps[a as int].rooms[r as int]);
        room.remove_peer(client_id);
        let ghost new_room = room@;
        app.rooms.insert(r, room);
        let ghost new_app = app@;
        assert(new_app.rooms =~= old_app.rooms.update(r as int, new_room));
        self.apps.insert(a, app);
        assert(self@.apps =~= before.apps.update(a as int, new_app));
        proof {
            if before.wf() {
                assert(room_ids(new_app.rooms) =~= room_ids(old_app.rooms));
                lemma_apps_wf_update(before, self@, a as int);
            }
        }
        true
    }

    /// Closes every room of every application.
    pub fn clear_rooms(&mut self)
        ensures
            final(self)@.apps == without_rooms(old(self)@.apps),
            final(self)@.next_app_id == old(self)@.next_app_id,
            final(self)@.next_room_id == old(self)@.next_room_id,
            old(self)@.wf() ==> final(self)@.wf(),
    {
        let ghost before = self@;
        let mut i: usize = 0;
        while i < self.apps.len()
            invariant
                i <= self.apps@.len(),
                self.apps@.len() == before.apps.len(),
                self.next_app_id == before.next_app_id,
                self.next_room_id == before.next_room_id,
                forall|k: int| 0 <= k < i ==> #[trigger] self@.apps[k] == (AppView { rooms: Seq::empty(), ..before.apps[k] }),
                forall|k: int| i <= k < self@.apps.len() ==> #[trigger] self@.apps[k] == before.apps[k],
            decreases before.apps.len() - i,
        {
            let ghost prev = self@.apps;
            assert(prev[i as int] == before.apps[i as int]);
            assert(prev[i as int] == self.apps@[i as int]@);
            let mut app = self.apps.remove(i);
            let ghost old_app = app@;
            assert(old_app == before.apps[i as int]);
            app.rooms = Vec::new();
            assert(app@.rooms =~= Seq::<RoomView>::empty());
            assert(app@ == AppView { rooms: Seq::empty(), ..old_app });
            self.apps.insert(i, app);
            assert(self@.apps =~= prev.update(i as int, AppView { rooms: Seq::empty(), ..before.apps[i as int] }));
            i = i + 1;
        }
        assert(self@.apps =~= without_rooms(before.apps));
        proof {
            if before.wf() {
                assert(app_ids(self@.apps) =~= app_ids(before.apps));
                assert forall|a: int| 0 <= a < self@.apps.len() implies distinct(room_ids(#[trigger] self@.apps[a].rooms)) by {
                    assert(room_ids(self@.apps[a].rooms) =~= Seq::<u64>::empty());
                }
            }
        }
    }
}

/// Replacing one application keeps the applications well formed when the new
/// one keeps its id and its rooms are well formed.
proof fn lemma_apps_wf_update(before: AppsView, after: AppsView, a: int)
    requires
        before.wf(),
        0 <= a < before.apps.len(),
        after.apps.len() == before.apps.len(),
        after.next_app_id == before.next_app_id,
        after.next_room_id >= before.next_room_id,
        forall|i: int| 0 <= i < before.apps.len() && i != a ==> after.apps[i] == before.apps[i],
        after.apps[a].id == before.apps[a].id,
        distinct(room_ids(after.apps[a].rooms)),
        forall|r: int| 0 <= r < after.apps[a].rooms.len() ==> {
            &&& 0 < #[trigger] after.apps[a].rooms[r].id < after.next_room_id
            &&& after.apps[a].rooms[r].wf()
        },
    ensures
        after.wf(),
{
    assert(app_ids(after.apps) =~= app_ids(before.apps)) by {
        assert forall|i: int| 0 <= i < before.apps.len() implies app_ids(after.apps)[i] == app_ids(before.apps)[i] by {
            if i != a {
                assert(after.apps[i] == before.apps[i]);
            }
        }
    }
    assert forall|i: int| 0 <= i < after.apps.len() implies 0 < #[trigger] after.apps[i].id < after.next_app_id by {
        if i != a {
            assert(after.apps[i] == before.apps[i]);
        }
    }
    assert forall|i: int| 0 <= i < after.apps.len() implies distinct(room_ids(#[trigger] after.apps[i].rooms)) by {
        if i != a {
            assert(after.apps[i] == before.apps[i]);
        }
    }
    assert forall|i: int, r: int| 0 <= i < after.apps.len() && 0 <= r < after.apps[i].rooms.len() implies {
        &&& 0 < #[trigger] after.apps[i].rooms[r].id < after.next_room_id
        &&& after.apps[i].rooms[r].wf()
    } by {
        if i != a {
            assert(after.apps[i] == before.apps[i]);
        }
    }
}

} // verus!