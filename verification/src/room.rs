//! Rooms: what is announced of them, and who is connected.
use vstd::prelude::*;

use dashmap::DashMap;

use crate::client::Client;

verus! {

/// What is announced of a room.
#[derive(Debug)]
pub struct JBRoom {
    pub app_id: String,
    pub app_tag: String,
    pub audience_enabled: bool,
    pub code: String,
    pub host: String,
    pub audience_host: String,
    pub locked: bool,
    pub full: bool,
    pub moderation_enabled: bool,
    pub password_required: bool,
    pub twitch_locked: bool,
    pub locale: String,
    pub keepalive: bool,
}

impl Clone for JBRoom {
    /// What is announced of the room now.
    fn clone(&self) -> (room: Self)
        ensures
            room == *self,
    {
        JBRoom {
            app_id: self.app_id.clone(),
            app_tag: self.app_tag.clone(),
            audience_enabled: self.audience_enabled,
            code: self.code.clone(),
            host: self.host.clone(),
            audience_host: self.audience_host.clone(),
            locked: self.locked,
            full: self.full,
            moderation_enabled: self.moderation_enabled,
            password_required: self.password_required,
            twitch_locked: self.twitch_locked,
            locale: self.locale.clone(),
            keepalive: self.keepalive,
        }
    }
}

/// The concurrent map of the `dashmap` crate.
#[verifier::external_type_specification]
#[verifier::external_body]
#[verifier::reject_recursive_types(K)]
#[verifier::reject_recursive_types(V)]
#[verifier::reject_recursive_types(S)]
pub struct ExDashMap<K, V, S>(DashMap<K, V, S>);

/// The clients that `connections` holds, by their ids.
pub uninterp spec fn clients(connections: DashMap<i64, Client>) -> Map<i64, Client>;

/// Which clients `connections` holds, by their ids, and which of them have a
/// socket.
pub open spec fn sockets(connections: DashMap<i64, Client>) -> Map<i64, bool> {
    clients(connections).map_values(|client: Client| client.connected)
}

/// A room and its clients.
#[derive(Debug)]
pub struct Room {
    pub connections: DashMap<i64, Client>,
    pub room_serial: i64,
    pub room_config: JBRoom,
}

/// `listed` names each client of `sockets` once, with whether it has a socket.
pub open spec fn is_listing(listed: Seq<(i64, bool)>, sockets: Map<i64, bool>) -> bool {
    &&& forall|i: int, j: int|
        0 <= i < j < listed.len() ==> (#[trigger] listed[i]).0 != (#[trigger] listed[j]).0
    &&& forall|i: int|
        0 <= i < listed.len() ==> sockets.contains_pair((#[trigger] listed[i]).0, listed[i].1)
    &&& forall|id: i64| #[trigger]
        sockets.contains_key(id) ==> exists|i: int| 0 <= i < listed.len() && listed[i].0 == id
}

/// The ids in `listed` that come with a socket, in order.
pub open spec fn with_socket(listed: Seq<(i64, bool)>) -> Seq<i64>
    decreases listed.len(),
{
    if listed.len() == 0 {
        Seq::empty()
    } else if listed.last().1 {
        with_socket(listed.drop_last()).push(listed.last().0)
    } else {
        with_socket(listed.drop_last())
    }
}

/// `DashMap::iter` of the `dashmap` crate, with the id of each client and
/// whether it has a socket: each entry of the map comes once, in an order that
/// is not said. The map is borrowed for this call alone, so that nobody changes
/// it meanwhile, and it is left as it was.
#[verifier::external_body]
fn list_sockets(connections: &mut DashMap<i64, Client>) -> (listed: Vec<(i64, bool)>)
    ensures
        is_listing(listed@, sockets(*old(connections))),
        clients(*final(connections)) == clients(*old(connections)),
{
    connections.iter().map(|entry| (*entry.key(), entry.value().connected)).collect()
}

/// The ids in `listed` that come with a socket, in order.
pub fn sockets_to_close(listed: &Vec<(i64, bool)>) -> (ids: Vec<i64>)
    ensures
        ids@ == with_socket(listed@),
{
    let mut ids: Vec<i64> = Vec::new();
    for i in 0..listed.len()
        invariant
            ids@ == with_socket(listed@.take(i as int)),
    {
        assert(listed@.take(i + 1).drop_last() =~= listed@.take(i as int));
        if listed[i].1 {
            ids.push(listed[i].0);
        }
    }
    assert(listed@.take(listed@.len() as int) =~= listed@);
    ids
}

impl Room {
    /// The clients whose sockets are to be closed when the room is: all that
    /// have one. The room is left as it is, and so is each of its clients.
    pub fn close(&mut self) -> (ids: Vec<i64>)
        ensures
            ids@.no_duplicates(),
            forall|id: i64| #[trigger]
                ids@.contains(id) <==> sockets(old(self).connections).contains_pair(id, true),
            clients(final(self).connections) == clients(old(self).connections),
            final(self).room_serial == old(self).room_serial,
            final(self).room_config == old(self).room_config,
    {
        let ghost held = sockets(self.connections);
        let listed = list_sockets(&mut self.connections);
        let ids = sockets_to_close(&listed);
        proof {
            law_all_sockets_are_closed(listed@, held);
        }
        ids
    }

    /// What closing the room comes to, where `replies` are the ids of the clients
    /// whose sockets have replied, in the order in which they did, each with
    /// whether its socket was closed: the first that was not is reported.
    pub fn closed(replies: &Vec<(i64, bool)>) -> (report: Result<(), i64>)
        ensures
            report == match first_failure(replies@) {
                Some(id) => Err::<(), i64>(id),
                None => Ok(()),
            },
    {
        assert(replies@.skip(0) =~= replies@);
        for i in 0..replies.len()
            invariant
                first_failure(replies@.skip(i as int)) == first_failure(replies@),
        {
            if !replies[i].1 {
                return Err(replies[i].0);
            }
            assert(replies@.skip(i as int).drop_first() =~= replies@.skip(i + 1));
        }
        Ok(())
    }
}

/// The first of `replies` that comes from a socket that was not closed.
pub open spec fn first_failure(replies: Seq<(i64, bool)>) -> Option<i64>
    decreases replies.len(),
{
    if replies.len() == 0 {
        None
    } else if !replies[0].1 {
        Some(replies[0].0)
    } else {
        first_failure(replies.drop_first())
    }
}

/// A room is closed without an error exactly where every socket that replied was
/// closed.
pub proof fn law_closed_without_error(replies: Seq<(i64, bool)>)
    ensures
        first_failure(replies) is None <==> forall|i: int|
            0 <= i < replies.len() ==> (#[trigger] replies[i]).1,
    decreases replies.len(),
{
    if replies.len() > 0 {
        let rest = replies.drop_first();
        law_closed_without_error(rest);
        if replies[0].1 && first_failure(rest) is None {
            assert forall|i: int| 0 <= i < replies.len() implies (#[trigger] replies[i]).1 by {
                if i > 0 {
                    assert(rest[i - 1] == replies[i]);
                }
            }
        }
        if forall|i: int| 0 <= i < replies.len() ==> (#[trigger] replies[i]).1 {
            assert forall|i: int| 0 <= i < rest.len() implies (#[trigger] rest[i]).1 by {
                assert(rest[i] == replies[i + 1]);
            }
        }
    }
}

/// Of the clients of a room, however they are listed, those are closed that have
/// a socket, and each of them once.
pub proof fn law_all_sockets_are_closed(listed: Seq<(i64, bool)>, sockets: Map<i64, bool>)
    requires
        is_listing(listed, sockets),
    ensures
        with_socket(listed).no_duplicates(),
        forall|id: i64| #[trigger]
            with_socket(listed).contains(id) <==> sockets.contains_pair(id, true),
{
    lemma_with_socket(listed);
    let ids = with_socket(listed);
    assert forall|id: i64| #[trigger] ids.contains(id) <==> sockets.contains_pair(id, true) by {
        if ids.contains(id) {
            let i = choose|i: int| 0 <= i < listed.len() && #[trigger] listed[i] == (id, true);
            assert(sockets.contains_pair(listed[i].0, listed[i].1));
        }
        if sockets.contains_pair(id, true) {
            assert(sockets.contains_key(id));
            let i = choose|i: int| 0 <= i < listed.len() && (#[trigger] listed[i]).0 == id;
            assert(sockets.contains_pair(listed[i].0, listed[i].1));
            assert(listed[i] == (id, true));
        }
    }
}

proof fn lemma_with_socket(listed: Seq<(i64, bool)>)
    requires
        forall|i: int, j: int|
            0 <= i < j < listed.len() ==> (#[trigger] listed[i]).0 != (#[trigger] listed[j]).0,
    ensures
        with_socket(listed).no_duplicates(),
        forall|id: i64| #[trigger]
            with_socket(listed).contains(id) <==> exists|i: int|
                0 <= i < listed.len() && #[trigger] listed[i] == (id, true),
    decreases listed.len(),
{
    if listed.len() > 0 {
        let shorter = listed.drop_last();
        let last = listed.last();
        let before = with_socket(shorter);
        let ids = with_socket(listed);
        lemma_with_socket(shorter);
        assert(!before.contains(last.0)) by {
            if before.contains(last.0) {
                let i = choose|i: int|
                    0 <= i < shorter.len() && #[trigger] shorter[i] == (last.0, true);
                assert(listed[i].0 == listed[listed.len() - 1].0);
            }
        }
        assert forall|id: i64| #[trigger] ids.contains(id) <==> exists|i: int|
            0 <= i < listed.len() && #[trigger] listed[i] == (id, true) by {
            if ids.contains(id) {
                if before.contains(id) {
                    let i = choose|i: int|
                        0 <= i < shorter.len() && #[trigger] shorter[i] == (id, true);
                    assert(listed[i] == (id, true));
                } else {
                    assert(last.1);
                    assert(listed[listed.len() - 1] == (id, true));
                }
            }
            if exists|i: int| 0 <= i < listed.len() && #[trigger] listed[i] == (id, true) {
                let i = choose|i: int| 0 <= i < listed.len() && #[trigger] listed[i] == (id, true);
                if i < shorter.len() {
                    assert(shorter[i] == (id, true));
                    assert(before.contains(id));
                    let k = choose|k: int| 0 <= k < before.len() && before[k] == id;
                    assert(ids[k] == id);
                } else {
                    assert(ids[ids.len() - 1] == id);
                }
            }
        }
    }
}

/// The sockets of a room are those of its clients: the same ids, each with whether
/// its client is connected.
pub proof fn law_sockets_are_those_of_clients(connections: DashMap<i64, Client>, id: i64)
    ensures
        sockets(connections).contains_pair(id, true) <==> clients(connections).contains_key(id)
            && clients(connections)[id].connected,
        sockets(connections).contains_pair(id, false) <==> clients(connections).contains_key(id)
            && !clients(connections)[id].connected,
{
}

/// A listing holds just the pairs of the map, each id once.
pub proof fn law_listing_holds_each_pair_once(listed: Seq<(i64, bool)>, sockets: Map<i64, bool>)
    ensures
        is_listing(listed, sockets) <==> {
            &&& forall|i: int, j: int|
                0 <= i < listed.len() && 0 <= j < listed.len() && (#[trigger] listed[i]).0 == (
                #[trigger] listed[j]).0 ==> i == j
            &&& forall|id: i64, connected: bool| #[trigger]
                listed.contains((id, connected)) <==> sockets.contains_pair(id, connected)
        },
{
    if is_listing(listed, sockets) {
        assert forall|id: i64, connected: bool| #[trigger]
            listed.contains((id, connected)) <==> sockets.contains_pair(id, connected) by {
            if listed.contains((id, connected)) {
                let i = choose|i: int| 0 <= i < listed.len() && listed[i] == (id, connected);
                assert(sockets.contains_pair(listed[i].0, listed[i].1));
            }
            if sockets.contains_pair(id, connected) {
                assert(sockets.contains_key(id));
                let i = choose|i: int| 0 <= i < listed.len() && (#[trigger] listed[i]).0 == id;
                assert(sockets.contains_pair(listed[i].0, listed[i].1));
                assert(listed[i] == (id, connected));
            }
        }
    }
    if (forall|i: int, j: int|
        0 <= i < listed.len() && 0 <= j < listed.len() && (#[trigger] listed[i]).0 == (
        #[trigger] listed[j]).0 ==> i == j) && (forall|id: i64, connected: bool| #[trigger]
        listed.contains((id, connected)) <==> sockets.contains_pair(id, connected)) {
        assert forall|i: int| 0 <= i < listed.len() implies sockets.contains_pair(
            (#[trigger] listed[i]).0,
            listed[i].1,
        ) by {
            assert(listed.contains((listed[i].0, listed[i].1)));
        }
        assert forall|id: i64| #[trigger] sockets.contains_key(id) implies exists|i: int|
            0 <= i < listed.len() && listed[i].0 == id by {
            assert(sockets.contains_pair(id, sockets[id]));
            assert(listed.contains((id, sockets[id])));
        }
    }
}

/// A list is gone through one client at a time: one with a socket is closed, one
/// without is not, and the order stays.
pub proof fn law_sockets_are_closed_in_order(
    id: i64,
    a: Seq<(i64, bool)>,
    b: Seq<(i64, bool)>,
)
    ensures
        with_socket(seq![(id, true)]) == seq![id],
        with_socket(seq![(id, false)]) == Seq::<i64>::empty(),
        with_socket(a + b) == with_socket(a) + with_socket(b),
    decreases b.len(),
{
    assert(seq![(id, true)].drop_last() =~= Seq::empty());
    assert(seq![(id, false)].drop_last() =~= Seq::empty());
    assert(with_socket(Seq::empty()) =~= Seq::empty());
    assert(Seq::<i64>::empty().push(id) =~= seq![id]);
    if b.len() == 0 {
        assert(a + b =~= a);
        assert(with_socket(a) + with_socket(b) =~= with_socket(a));
    } else {
        law_sockets_are_closed_in_order(id, a, b.drop_last());
        assert((a + b).drop_last() =~= a + b.drop_last());
        assert((a + b).last() == b.last());
        assert(with_socket(a + b) =~= with_socket(a) + with_socket(b));
    }
}

/// The client is reported whose socket was the first that was not closed, whoever
/// replied before and whatever comes after.
pub proof fn law_first_failure_is_reported(
    front: Seq<(i64, bool)>,
    id: i64,
    back: Seq<(i64, bool)>,
)
    requires
        forall|i: int| 0 <= i < front.len() ==> (#[trigger] front[i]).1,
    ensures
        first_failure(front + seq![(id, false)] + back) == Some(id),
        first_failure(front) is None,
    decreases front.len(),
{
    let whole = front + seq![(id, false)] + back;
    if front.len() > 0 {
        let rest = front.drop_first();
        assert forall|i: int| 0 <= i < rest.len() implies (#[trigger] rest[i]).1 by {
            assert(rest[i] == front[i + 1]);
        }
        law_first_failure_is_reported(rest, id, back);
        assert(whole[0] == front[0]);
        assert(whole.drop_first() =~= rest + seq![(id, false)] + back);
    } else {
        assert(whole[0] == (id, false));
    }
}

} // verus!
