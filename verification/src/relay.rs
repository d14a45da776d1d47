//! The server side of a room: which connections belong to which room, and what the
//! server does with a message that one of them sends.
use crate::json::{
    json_member_string, json_string, member_string, opt_view, quote, reserialize,
    reserialized_json,
};
use crate::protocol::code_message_spec;
use vstd::prelude::*;

verus! {

/// One frame from a client's socket.
pub enum Frame {
    Text(String),
    Other,
}

/// The room a connection joins: the text of its first frame, or the empty name
/// where that frame is not text.
pub fn room_key(first: &Frame) -> (r: String)
    ensures
        r@ == match first {
            Frame::Text(t) => t@,
            Frame::Other => Seq::<char>::empty(),
        },
{
    match first {
        Frame::Text(t) => t.clone(),
        Frame::Other => String::new(),
    }
}

/// The code a room has stored, or the empty text where it has stored none.
pub fn room_code_or_empty(stored: Option<String>) -> (r: String)
    ensures
        r@ == match stored {
            Some(c) => c@,
            None => Seq::<char>::empty(),
        },
{
    match stored {
        Some(c) => c,
        None => String::new(),
    }
}

/// The rooms after `member` joins the room `key`: it comes last in that room, which
/// is created where it is new.
pub open spec fn joined(rooms: Map<Seq<char>, Seq<u64>>, key: Seq<char>, member: u64) -> Map<
    Seq<char>,
    Seq<u64>,
> {
    rooms.insert(
        key,
        if rooms.contains_key(key) {
            rooms[key]
        } else {
            Seq::empty()
        }.push(member),
    )
}

/// Joining a room changes no other room, keeps the room's earlier members in their
/// order, and makes the new connection its last member.
pub proof fn lemma_join_only_extends_its_room(
    rooms: Map<Seq<char>, Seq<u64>>,
    key: Seq<char>,
    member: u64,
    other: Seq<char>,
)
    ensures
        joined(rooms, key, member).contains_key(key),
        joined(rooms, key, member)[key].last() == member,
        rooms.contains_key(key) ==> joined(rooms, key, member)[key].drop_last() == rooms[key],
        !rooms.contains_key(key) ==> joined(rooms, key, member)[key].len() == 1,
        other != key ==> joined(rooms, key, member).contains_key(other) == rooms.contains_key(
            other,
        ),
        other != key && rooms.contains_key(other) ==> joined(rooms, key, member)[other]
            == rooms[other],
{
    if rooms.contains_key(key) {
        assert(joined(rooms, key, member)[key].drop_last() =~= rooms[key]);
    }
}

/// The connections in each room, in the order they joined. A connection is known by
/// a number that the server gives it.
pub struct RoomRegistry {
    keys: Vec<String>,
    members: Vec<Vec<u64>>,
}

impl RoomRegistry {
    #[verifier::type_invariant]
    spec fn inv(self) -> bool {
        &&& self.keys@.len() == self.members@.len()
        &&& forall|i: int, j: int|
            0 <= i < j < self.keys@.len() ==> #[trigger] self.keys@[i]@ != #[trigger] self.keys@[j]@
    }

    spec fn has(self, key: Seq<char>) -> bool {
        exists|i: int| 0 <= i < self.keys@.len() && #[trigger] self.keys@[i]@ == key
    }

    spec fn index_of(self, key: Seq<char>) -> int {
        choose|i: int| 0 <= i < self.keys@.len() && #[trigger] self.keys@[i]@ == key
    }

    /// An empty registry.
    pub fn new() -> (r: RoomRegistry)
        ensures
            r@ == Map::<Seq<char>, Seq<u64>>::empty(),
    {
        let r = RoomRegistry { keys: Vec::new(), members: Vec::new() };
        assert(r@ =~= Map::<Seq<char>, Seq<u64>>::empty());
        r
    }

    fn find(&self, key: &String) -> (r: Option<usize>)
        ensures
            match r {
                Some(i) => i < self.keys@.len() && self.keys@[i as int]@ == key@,
                None => !self.has(key@),
            },
    {
        let mut i: usize = 0;
        while i < self.keys.len()
            invariant
                i <= self.keys@.len(),
                forall|k: int| 0 <= k < i ==> self.keys@[k]@ != key@,
            decreases self.keys@.len() - i,
        {
            if self.keys[i] == *key {
                return Some(i);
            }
            i = i + 1;
        }
        None
    }

    /// Adds a connection to the room `key`, creating the room where it is new.
    pub fn join(&mut self, key: &str, member: u64)
        ensures
            final(self)@ == joined(old(self)@, key@, member),
    {
        let ghost before = self@;
        let k = key.to_owned();
        let found = self.find(&k);
        let mut taken = RoomRegistry::new();
        std::mem::swap(&mut taken, self);
        proof {
            use_type_invariant(&taken);
        }
        let RoomRegistry { keys: mut keys, members: mut members } = taken;
        let ghost old_keys = keys@;
        match found {
            Some(i) => {
                let mut list: Vec<u64> = Vec::new();
                std::mem::swap(&mut list, &mut members[i]);
                list.push(member);
                std::mem::swap(&mut list, &mut members[i]);
                *self = RoomRegistry { keys, members };
                proof {
                    assert(before.contains_key(key@));
                    assert(self@ =~= before.insert(key@, before[key@].push(member)));
                }
            },
            None => {
                let mut list: Vec<u64> = Vec::new();
                list.push(member);
                keys.push(k);
                members.push(list);
                *self = RoomRegistry { keys, members };
                proof {
                    let n = old_keys.len() as int;
                    assert(!before.contains_key(key@));
                    assert(self.keys@[n]@ == key@);
                    assert forall|q: Seq<char>| #[trigger] self@.contains_key(q) == before.insert(key@, Seq::empty().push(member)).contains_key(q) by {
                        if q != key@ && self.has(q) {
                            let j = choose|j: int| 0 <= j < self.keys@.len() && #[trigger] self.keys@[j]@ == q;
                            assert(j < n);
                            assert(old_keys[j]@ == q);
                        }
                        if before.contains_key(q) {
                            let j = choose|j: int| 0 <= j < old_keys.len() && #[trigger] old_keys[j]@ == q;
                            assert(self.keys@[j]@ == q);
                        }
                    }
                    assert forall|q: Seq<char>| #[trigger] self@.contains_key(q) implies self@[q] == before.insert(key@, Seq::empty().push(member))[q] by {
                        let j = self.index_of(q);
                        if q == key@ {
                            assert(j == n);
                        } else {
                            let m = choose|m: int| 0 <= m < old_keys.len() && #[trigger] old_keys[m]@ == q;
                            assert(self.keys@[m]@ == q);
                            assert(j == m);
                        }
                    }
                    assert(self@ =~= before.insert(key@, Seq::empty().push(member)));
                }
            },
        }
    }

    /// The connections in the room `key`, where it exists.
    pub fn members(&self, key: &str) -> (r: Option<Vec<u64>>)
        ensures
            match r {
                Some(v) => self@.contains_key(key@) && v@ == self@[key@],
                None => !self@.contains_key(key@),
            },
    {
        proof {
            use_type_invariant(self);
        }
        let k = key.to_owned();
        match self.find(&k) {
            Some(i) => Some(self.members[i].clone()),
            None => None,
        }
    }
}

impl View for RoomRegistry {
    type V = Map<Seq<char>, Seq<u64>>;

    closed spec fn view(&self) -> Map<Seq<char>, Seq<u64>> {
        Map::new(|k: Seq<char>| self.has(k), |k: Seq<char>| self.members@[self.index_of(k)]@)
    }
}

/// What the server does with one text message of a room: the code to store for the
/// room, if the message shares a code text, and the frame that goes to every
/// connection in the room.
pub struct RelayStep {
    pub store: Option<String>,
    pub frame: String,
}

/// The frame the room receives for a message: the message as serde_json writes it
/// back, wrapped once more as a JSON string literal.
pub open spec fn relayed_frame(text: Seq<char>) -> Seq<char> {
    json_string(reserialized_json(text)->0)
}

/// The code a message asks the server to store: its "code" member, where that is a
/// string.
pub open spec fn stored_code(text: Seq<char>) -> Option<Seq<char>> {
    match json_member_string(text, "code"@) {
        Some(Some(Some(c))) => Some(c),
        _ => None,
    }
}

/// Whether `step` is what the server does with the message `text`.
pub open spec fn relays(text: Seq<char>, step: RelayStep) -> bool {
    &&& step.frame@ == relayed_frame(text)
    &&& opt_view(step.store) == stored_code(text)
}

/// Only a shared code text is ever stored: what the server stores for a message is
/// `c` exactly where the message has a "code" member that is the string `c`; a
/// message without such a member (a run start, a shared run result, an id) leaves the
/// room's code as it is.
pub proof fn lemma_only_code_is_stored(text: Seq<char>, step: RelayStep)
    requires
        relays(text, step),
    ensures
        step.store is Some <==> json_member_string(text, "code"@) matches Some(Some(Some(_))),
        step.store matches Some(c) ==> json_member_string(text, "code"@) == Some(
            Some(Some(c@)),
        ),
{
}

/// Handles one text message of a room; `None` where the message is not JSON. A
/// message that shares a code text has that text stored.
pub fn relay_message(text: &str) -> (r: Option<RelayStep>)
    ensures
        r is Some <==> reserialized_json(text@) is Some,
        r matches Some(s) ==> relays(text@, s),
        forall|c: Seq<char>|
            #[trigger] code_message_spec(c) == text@ ==> (r matches Some(s) && opt_view(s.store)
                == Some(c)),
{
    let normalized = match reserialize(text) {
        Some(t) => t,
        None => return None,
    };
    let store = match member_string(text, "code") {
        Some(Some(Some(c))) => Some(c),
        _ => None,
    };
    Some(RelayStep { store, frame: quote(normalized.as_str()) })
}

/// Handles one frame of a room: a frame that is not text is passed over (`Some(None)`);
/// a text frame is handled as `relay_message` says.
pub fn relay_frame(frame: &Frame) -> (r: Option<Option<RelayStep>>)
    ensures
        match frame {
            Frame::Other => r matches Some(None),
            Frame::Text(t) => {
                &&& r is Some <==> reserialized_json(t@) is Some
                &&& r matches Some(o) ==> (o matches Some(s) && relays(t@, s))
            },
        },
{
    match frame {
        Frame::Other => Some(None),
        Frame::Text(t) => match relay_message(t.as_str()) {
            Some(s) => Some(Some(s)),
            None => None,
        },
    }
}

} // verus!
