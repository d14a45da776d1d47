//! The landing page: create a room, or join one by its id, beside a rotating
//! description of the editor.
use crate::routes::Route;
use vstd::prelude::*;
use vstd::string::*;

verus! {

/// What the landing page reacts to.
pub enum Msg {
    CreateRoom,
    RoomIdChanged(String),
    NextText,
}

/// The landing page's state: the room id typed so far and the description shown.
pub struct Home {
    room_id: String,
    carousel_text: Vec<String>,
    text_idx: usize,
}

pub struct HomeView {
    pub room_id: Seq<char>,
    pub carousel_text: Seq<Seq<char>>,
    pub text_idx: nat,
}

/// What the page does after a message: whether to draw itself again, and the page
/// to go to, if any.
pub struct HomeStep {
    pub rerender: bool,
    pub navigate: Option<Route>,
}

/// The descriptions the page rotates through.
pub open spec fn carousel_texts() -> Seq<Seq<char>> {
    seq![
        "In a room, you can write Rust code with other people simultaneously and run it remotely. This allows for a more efficient and interactive coding experience."@,
        "CollabRustAtor allows you to write Rust code, run it, and collaborate with others in real-time. You can either join an existing room by entering the room's ID or create a new room."@,
    ]
}

/// The index of the description after `idx` among `len` of them: the next one, and
/// the first after the last.
pub open spec fn next_text_index(idx: nat, len: nat) -> nat {
    (idx + 1) % len
}

/// The index after `n` rotations from `idx`.
pub open spec fn text_index_after(idx: nat, len: nat, n: nat) -> nat
    decreases n,
{
    if n == 0 {
        idx
    } else {
        next_text_index(text_index_after(idx, len, (n - 1) as nat), len)
    }
}

/// The descriptions rotate in order: after `n` rotations the page shows the one `n`
/// places further on, counted round; after as many rotations as there are
/// descriptions it shows the same one again.
pub proof fn lemma_carousel_cycles(idx: nat, len: nat, n: nat)
    requires
        0 < len,
        idx < len,
    ensures
        text_index_after(idx, len, n) == (idx + n) % len,
        text_index_after(idx, len, len) == idx,
{
    lemma_carousel_period(idx, len, n);
    lemma_carousel_period(idx, len, len);
    vstd::arithmetic::div_mod::lemma_add_mod_noop(idx as int, len as int, len as int);
    vstd::arithmetic::div_mod::lemma_mod_self_0(len as int);
    vstd::arithmetic::div_mod::lemma_small_mod(idx, len);
}

proof fn lemma_carousel_period(idx: nat, len: nat, n: nat)
    requires
        0 < len,
        idx < len,
    ensures
        text_index_after(idx, len, n) == (idx + n) % len,
    decreases n,
{
    if n == 0 {
        vstd::arithmetic::div_mod::lemma_small_mod(idx, len);
    } else {
        lemma_carousel_period(idx, len, (n - 1) as nat);
        let a: int = idx + n - 1;
        vstd::arithmetic::div_mod::lemma_add_mod_noop_right(1, a, len as int);
        assert(text_index_after(idx, len, n) == (text_index_after(idx, len, (n - 1) as nat) + 1)
            % len);
        assert((1 + (a % (len as int))) % (len as int) == (1 + a) % (len as int));
    }
}

pub open spec fn is_lower_hex(c: char) -> bool {
    ('0' as int <= c as int <= '9' as int) || ('a' as int <= c as int <= 'f' as int)
}

/// The hyphenated lower-case text of a random (version 4) UUID: 36 characters,
/// hyphens at 8, 13, 18 and 23, hexadecimal digits elsewhere, the version digit `4`
/// at 14 and a variant digit among `8`, `9`, `a`, `b` at 19.
pub open spec fn is_uuid_v4_text(s: Seq<char>) -> bool {
    &&& s.len() == 36
    &&& forall|i: int|
        0 <= i < 36 ==> if i == 8 || i == 13 || i == 18 || i == 23 {
            #[trigger] s[i] == '-'
        } else {
            is_lower_hex(s[i])
        }
    &&& s[14] == '4'
    &&& (s[19] == '8' || s[19] == '9' || s[19] == 'a' || s[19] == 'b')
}

/// Calls `uuid::Uuid::new_v4` and writes the id with its `Display` impl. The claim,
/// read from uuid's source (`new_v4` masks in version 4 and the RFC variant bits;
/// `Display` writes the hyphenated lower-case form), is the shape stated by
/// `is_uuid_v4_text`; the digits themselves come from the system's random source and
/// nothing is said of them.
#[verifier::external_body]
fn new_v4_text() -> (r: String)
    ensures
        is_uuid_v4_text(r@),
{
    uuid::Uuid::new_v4().to_string()
}

impl View for Home {
    type V = HomeView;

    closed spec fn view(&self) -> HomeView {
        HomeView {
            room_id: self.room_id@,
            carousel_text: self.carousel_text@.map_values(|t: String| t@),
            text_idx: self.text_idx as nat,
        }
    }
}

impl Home {
    #[verifier::type_invariant]
    spec fn inv(self) -> bool {
        &&& self.carousel_text@.len() > 0
        &&& self.text_idx < self.carousel_text@.len()
    }

    /// The page as it first appears: no room id typed, the first description.
    pub fn create() -> (r: Home)
        ensures
            r@.room_id == Seq::<char>::empty(),
            r@.carousel_text == carousel_texts(),
            r@.text_idx == 0,
    {
        let mut texts: Vec<String> = Vec::new();
        texts.push(String::from_str("In a room, you can write Rust code with other people simultaneously and run it remotely. This allows for a more efficient and interactive coding experience."));
        texts.push(String::from_str("CollabRustAtor allows you to write Rust code, run it, and collaborate with others in real-time. You can either join an existing room by entering the room's ID or create a new room."));
        let r = Home { room_id: String::new(), carousel_text: texts, text_idx: 0 };
        assert(r@.carousel_text =~= carousel_texts());
        r
    }

    /// Reacts to `msg`; `fresh_id` is the id that a new room gets.
    pub fn apply(&mut self, msg: Msg, fresh_id: String) -> (r: HomeStep)
        ensures
            r.rerender,
            match msg {
                Msg::CreateRoom => {
                    &&& final(self)@ == old(self)@
                    &&& r.navigate matches Some(Route::Room { id }) && id@ == fresh_id@
                },
                Msg::RoomIdChanged(data) => {
                    &&& final(self)@ == HomeView { room_id: data@, ..old(self)@ }
                    &&& r.navigate is None
                },
                Msg::NextText => {
                    &&& final(self)@ == HomeView {
                        text_idx: next_text_index(old(self)@.text_idx, old(self)@.carousel_text.len()),
                        ..old(self)@
                    }
                    &&& r.navigate is None
                },
            },
    {
        proof {
            use_type_invariant(&*self);
        }
        match msg {
            Msg::CreateRoom => HomeStep { rerender: true, navigate: Some(Route::Room { id: fresh_id }) },
            Msg::RoomIdChanged(data) => {
                self.room_id = data;
                HomeStep { rerender: true, navigate: None }
            },
            Msg::NextText => {
                assert(self.text_idx < self.carousel_text.len());
                self.text_idx = (self.text_idx + 1) % self.carousel_text.len();
                HomeStep { rerender: true, navigate: None }
            },
        }
    }

    /// Reacts to `msg`; creating a room gives it a fresh random id.
    pub fn update(&mut self, msg: Msg) -> (r: HomeStep)
        ensures
            r.rerender,
            match msg {
                Msg::CreateRoom => {
                    &&& final(self)@ == old(self)@
                    &&& r.navigate matches Some(Route::Room { id }) && is_uuid_v4_text(id@)
                },
                Msg::RoomIdChanged(data) => {
                    &&& final(self)@ == HomeView { room_id: data@, ..old(self)@ }
                    &&& r.navigate is None
                },
                Msg::NextText => {
                    &&& final(self)@ == HomeView {
                        text_idx: next_text_index(old(self)@.text_idx, old(self)@.carousel_text.len()),
                        ..old(self)@
                    }
                    &&& r.navigate is None
                },
            },
    {
        let fresh_id = match msg {
            Msg::CreateRoom => new_v4_text(),
            _ => String::new(),
        };
        self.apply(msg, fresh_id)
    }

    /// The description shown now.
    pub fn current_text(&self) -> (r: &String)
        ensures
            self@.text_idx < self@.carousel_text.len(),
            r@ == self@.carousel_text[self@.text_idx as int],
    {
        proof {
            use_type_invariant(self);
        }
        &self.carousel_text[self.text_idx]
    }

    /// The room id typed so far.
    pub fn room_id(&self) -> (r: &String)
        ensures
            r@ == self@.room_id,
    {
        &self.room_id
    }

    /// The page the join button leads to: the room with the id typed so far.
    pub fn join_route(&self) -> (r: Route)
        ensures
            r matches Route::Room { id } && id@ == self@.room_id,
    {
        Route::Room { id: self.room_id.clone() }
    }
}

} // verus!
