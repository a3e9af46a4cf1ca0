//! The message stores of the emulated game API: chat and HUD messages, numbered
//! as they are sent, of which the latest hundred are kept, and the queries for
//! those newer than a given number.
use vstd::prelude::*;

use crate::api_emulator::VehicleType;
use crate::wt_telemetry::str_eq;

verus! {

/// A chat message as the game API serves it.
pub struct ChatMessage {
    pub id: u32,
    pub msg: String,
    pub sender: String,
    pub enemy: bool,
    pub mode: String,
    /// Seconds since the battle started.
    pub time: u32,
}

/// A HUD message as the game API serves it.
pub struct HudMessage {
    pub id: u32,
    pub msg: String,
    /// Empty for system messages.
    pub sender: String,
    pub enemy: bool,
    pub mode: String,
    /// Seconds since the battle started.
    pub time: u32,
}

/// A message with its texts as character sequences.
pub struct MessageView {
    pub id: u32,
    pub msg: Seq<char>,
    pub sender: Seq<char>,
    pub enemy: bool,
    pub mode: Seq<char>,
    pub time: u32,
}

impl View for ChatMessage {
    type V = MessageView;

    open spec fn view(&self) -> MessageView {
        MessageView {
            id: self.id,
            msg: self.msg@,
            sender: self.sender@,
            enemy: self.enemy,
            mode: self.mode@,
            time: self.time,
        }
    }
}

impl View for HudMessage {
    type V = MessageView;

    open spec fn view(&self) -> MessageView {
        MessageView {
            id: self.id,
            msg: self.msg@,
            sender: self.sender@,
            enemy: self.enemy,
            mode: self.mode@,
            time: self.time,
        }
    }
}

impl ChatMessage {
    /// A copy with the same fields.
    pub fn copy(&self) -> (r: ChatMessage)
        ensures
            r@ == self@,
    {
        ChatMessage {
            id: self.id,
            msg: self.msg.clone(),
            sender: self.sender.clone(),
            enemy: self.enemy,
            mode: self.mode.clone(),
            time: self.time,
        }
    }
}

impl HudMessage {
    /// A copy with the same fields.
    pub fn copy(&self) -> (r: HudMessage)
        ensures
            r@ == self@,
    {
        HudMessage {
            id: self.id,
            msg: self.msg.clone(),
            sender: self.sender.clone(),
            enemy: self.enemy,
            mode: self.mode.clone(),
            time: self.time,
        }
    }
}

/// How many messages of each kind the game keeps.
pub const MESSAGE_LIMIT: usize = 100;

/// The store after `m` is added: only the latest `MESSAGE_LIMIT` stay.
pub open spec fn kept_after(s: Seq<MessageView>, m: MessageView) -> Seq<MessageView> {
    let t = s.push(m);
    if t.len() > MESSAGE_LIMIT {
        t.subrange(t.len() - MESSAGE_LIMIT, t.len() as int)
    } else {
        t
    }
}

/// The messages of `s` with a number greater than `last`, in order.
pub open spec fn newer_than(s: Seq<MessageView>, last: u32) -> Seq<MessageView> {
    s.filter(|m: MessageView| m.id > last)
}

/// The messages of a store, numbered in increasing order.
pub open spec fn increasing(s: Seq<MessageView>) -> bool {
    forall|a: int, b: int| 0 <= a < b < s.len() ==> #[trigger] s[a].id < #[trigger] s[b].id
}

/// The stores of the emulated API and the next number of each kind.
pub struct ServerMessages {
    chat: Vec<ChatMessage>,
    next_chat_id: u32,
    hud_events: Vec<HudMessage>,
    hud_damage: Vec<HudMessage>,
    next_hud_id: u32,
}

impl ServerMessages {
    /// The chat messages kept, oldest first.
    pub closed spec fn chat(&self) -> Seq<MessageView> {
        self.chat@.map_values(|m: ChatMessage| m@)
    }

    /// The HUD event messages kept, oldest first.
    pub closed spec fn events(&self) -> Seq<MessageView> {
        self.hud_events@.map_values(|m: HudMessage| m@)
    }

    /// The HUD damage messages kept, oldest first.
    pub closed spec fn damage(&self) -> Seq<MessageView> {
        self.hud_damage@.map_values(|m: HudMessage| m@)
    }

    /// The number the next chat message gets.
    pub closed spec fn next_chat(&self) -> u32 {
        self.next_chat_id
    }

    /// The number the next HUD message gets.
    pub closed spec fn next_hud(&self) -> u32 {
        self.next_hud_id
    }

    /// Each store holds at most `MESSAGE_LIMIT` messages, numbered in increasing
    /// order and below the next number.
    pub open spec fn wf(&self) -> bool {
        &&& self.chat().len() <= MESSAGE_LIMIT
        &&& self.events().len() <= MESSAGE_LIMIT
        &&& self.damage().len() <= MESSAGE_LIMIT
        &&& increasing(self.chat())
        &&& increasing(self.events())
        &&& increasing(self.damage())
        &&& forall|i: int| 0 <= i < self.chat().len() ==> #[trigger] self.chat()[i].id < self.next_chat()
        &&& forall|i: int| 0 <= i < self.events().len() ==> #[trigger] self.events()[i].id < self.next_hud()
        &&& forall|i: int| 0 <= i < self.damage().len() ==> #[trigger] self.damage()[i].id < self.next_hud()
    }

    /// Empty stores; chat messages are numbered from 1, HUD messages from 1.
    pub fn new() -> (r: Self)
        ensures
            r.wf(),
            r.chat() == Seq::<MessageView>::empty(),
            r.events() == Seq::<MessageView>::empty(),
            r.damage() == Seq::<MessageView>::empty(),
            r.next_chat() == 1,
            r.next_hud() == 1,
    {
        let r = ServerMessages {
            chat: Vec::new(),
            next_chat_id: 1,
            hud_events: Vec::new(),
            hud_damage: Vec::new(),
            next_hud_id: 1,
        };
        assert(r.chat() =~= Seq::<MessageView>::empty());
        assert(r.events() =~= Seq::<MessageView>::empty());
        assert(r.damage() =~= Seq::<MessageView>::empty());
        r
    }

    /// The number the next chat message gets.
    pub fn next_chat_id(&self) -> (r: u32)
        ensures
            r == self.next_chat(),
    {
        self.next_chat_id
    }

    /// The number the next HUD message gets.
    pub fn next_hud_id(&self) -> (r: u32)
        ensures
            r == self.next_hud(),
    {
        self.next_hud_id
    }

    /// Sends a chat message at `time` seconds into the battle: it gets the next
    /// number, the sender defaults to "TestPlayer", the mode to empty and `enemy`
    /// to false; only the latest hundred messages are kept.
    pub fn send_chat(
        &mut self,
        message: String,
        mode: Option<String>,
        sender: Option<String>,
        enemy: Option<bool>,
        time: u32,
    ) -> (r: ChatMessage)
        requires
            old(self).wf(),
            old(self).next_chat() < u32::MAX,
        ensures
            final(self).wf(),
            r.id == old(self).next_chat(),
            r.msg@ == message@,
            r.sender@ == match sender {
                Some(s) => s@,
                None => "TestPlayer"@,
            },
            r.enemy == match enemy {
                Some(e) => e,
                None => false,
            },
            r.mode@ == match mode {
                Some(m) => m@,
                None => Seq::<char>::empty(),
            },
            r.time == time,
            final(self).next_chat() == old(self).next_chat() + 1,
            final(self).chat() == kept_after(old(self).chat(), r@),
            final(self).events() == old(self).events(),
            final(self).damage() == old(self).damage(),
            final(self).next_hud() == old(self).next_hud(),
    {
        let id = self.next_chat_id;
        self.next_chat_id = id + 1;
        let sender = match sender {
            Some(s) => s,
            None => String::from_str("TestPlayer"),
        };
        let mode = match mode {
            Some(m) => m,
            None => String::new(),
        };
        let enemy = match enemy {
            Some(e) => e,
            None => false,
        };
        let m = ChatMessage { id, msg: message, sender, enemy, mode, time };
        let ghost s0 = self.chat@;
        self.chat.push(m.copy());
        if self.chat.len() > MESSAGE_LIMIT {
            self.chat.remove(0);
        }
        proof {
            let v0 = s0.map_values(|x: ChatMessage| x@);
            let t = v0.push(m@);
            if t.len() > MESSAGE_LIMIT {
                assert(self.chat() =~= t.subrange(t.len() - MESSAGE_LIMIT, t.len() as int));
            } else {
                assert(self.chat() =~= t);
            }
        }
        m
    }

    /// Sends a HUD message at `time` seconds into the battle, to the damage store
    /// when `event_type` is "damage" and to the event store otherwise: it gets the
    /// next number, no sender and no mode; only the latest hundred are kept.
    pub fn send_hud(&mut self, message: String, event_type: &str, time: u32) -> (r: HudMessage)
        requires
            old(self).wf(),
            old(self).next_hud() < u32::MAX,
        ensures
            final(self).wf(),
            r@ == (MessageView {
                id: old(self).next_hud(),
                msg: message@,
                sender: Seq::empty(),
                enemy: false,
                mode: Seq::empty(),
                time: time,
            }),
            final(self).next_hud() == old(self).next_hud() + 1,
            final(self).chat() == old(self).chat(),
            final(self).next_chat() == old(self).next_chat(),
            event_type@ == "damage"@ ==> final(self).damage() == kept_after(old(self).damage(), r@)
                && final(self).events() == old(self).events(),
            event_type@ != "damage"@ ==> final(self).events() == kept_after(old(self).events(), r@)
                && final(self).damage() == old(self).damage(),
    {
        let id = self.next_hud_id;
        self.next_hud_id = id + 1;
        let m = HudMessage {
            id,
            msg: message,
            sender: String::new(),
            enemy: false,
            mode: String::new(),
            time,
        };
        if str_eq(event_type, "damage") {
            let ghost s0 = self.hud_damage@;
            self.hud_damage.push(m.copy());
            if self.hud_damage.len() > MESSAGE_LIMIT {
                self.hud_damage.remove(0);
            }
            proof {
                let t = s0.map_values(|x: HudMessage| x@).push(m@);
                if t.len() > MESSAGE_LIMIT {
                    assert(self.damage() =~= t.subrange(t.len() - MESSAGE_LIMIT, t.len() as int));
                } else {
                    assert(self.damage() =~= t);
                }
            }
        } else {
            let ghost s0 = self.hud_events@;
            self.hud_events.push(m.copy());
            if self.hud_events.len() > MESSAGE_LIMIT {
                self.hud_events.remove(0);
            }
            proof {
                let t = s0.map_values(|x: HudMessage| x@).push(m@);
                if t.len() > MESSAGE_LIMIT {
                    assert(self.events() =~= t.subrange(t.len() - MESSAGE_LIMIT, t.len() as int));
                } else {
                    assert(self.events() =~= t);
                }
            }
        }
        m
    }

    /// Copies of the chat messages numbered above `last_id`, oldest first.
    pub fn chat_since(&self, last_id: u32) -> (r: Vec<ChatMessage>)
        ensures
            r@.map_values(|m: ChatMessage| m@) == newer_than(self.chat(), last_id),
    {
        let mut r: Vec<ChatMessage> = Vec::new();
        let n = self.chat.len();
        for i in 0..n
            invariant
                n == self.chat@.len(),
                r@.map_values(|m: ChatMessage| m@) == newer_than(self.chat().take(i as int), last_id),
        {
            let ghost before = r@;
            let ghost tk = self.chat().take(i as int);
            let ghost x = self.chat()[i as int];
            proof {
                let tk1 = self.chat().take(i + 1);
                assert(tk1.drop_last() =~= tk);
                assert(tk1.last() == x);
                reveal(Seq::filter);
                assert(newer_than(tk1, last_id) == if x.id > last_id {
                    newer_than(tk, last_id).push(x)
                } else {
                    newer_than(tk, last_id)
                });
            }
            assert(x == self.chat@[i as int]@);
            if self.chat[i].id > last_id {
                let c = self.chat[i].copy();
                r.push(c);
                assert(r@.map_values(|m: ChatMessage| m@) =~= before.map_values(|m: ChatMessage| m@).push(
                    c@,
                ));
            }
        }
        assert(self.chat().take(n as int) =~= self.chat());
        r
    }

    /// Copies of the HUD event and damage messages numbered above `last_evt` and
    /// `last_dmg`, oldest first.
    pub fn hud_since(&self, last_evt: u32, last_dmg: u32) -> (r: (Vec<HudMessage>, Vec<HudMessage>))
        ensures
            r.0@.map_values(|m: HudMessage| m@) == newer_than(self.events(), last_evt),
            r.1@.map_values(|m: HudMessage| m@) == newer_than(self.damage(), last_dmg),
    {
        let a = newer_hud(&self.hud_events, last_evt);
        let b = newer_hud(&self.hud_damage, last_dmg);
        (a, b)
    }
}

/// A message just sent is served to every client whose last seen number is
/// below its own: it is the newest message such a query returns.
pub proof fn law_sent_message_is_served(s: Seq<MessageView>, m: MessageView, last: u32)
    requires
        last < m.id,
    ensures
        newer_than(kept_after(s, m), last).len() > 0,
        newer_than(kept_after(s, m), last).last() == m,
{
    let t = kept_after(s, m);
    assert(t.len() > 0 && t.last() == m) by {
        let u = s.push(m);
        if u.len() > MESSAGE_LIMIT {
            assert(t[t.len() - 1] == u[u.len() - 1]);
        }
    }
    reveal(Seq::filter);
    assert(newer_than(t, last) == newer_than(t.drop_last(), last).push(m));
}

fn newer_hud(s: &Vec<HudMessage>, last: u32) -> (r: Vec<HudMessage>)
    ensures
        r@.map_values(|m: HudMessage| m@) == newer_than(s@.map_values(|m: HudMessage| m@), last),
{
    let ghost sv = s@.map_values(|m: HudMessage| m@);
    let mut r: Vec<HudMessage> = Vec::new();
    let n = s.len();
    for i in 0..n
        invariant
            n == s@.len(),
            sv == s@.map_values(|m: HudMessage| m@),
            r@.map_values(|m: HudMessage| m@) == newer_than(sv.take(i as int), last),
    {
        let ghost before = r@;
        proof {
            let tk = sv.take(i as int);
            let tk1 = sv.take(i + 1);
            let x = sv[i as int];
            assert(tk1.drop_last() =~= tk);
            assert(tk1.last() == x);
            reveal(Seq::filter);
            assert(newer_than(tk1, last) == if x.id > last {
                newer_than(tk, last).push(x)
            } else {
                newer_than(tk, last)
            });
        }
        if s[i].id > last {
            let c = s[i].copy();
            r.push(c);
            assert(r@.map_values(|m: HudMessage| m@) =~= before.map_values(|m: HudMessage| m@).push(
                c@,
            ));
        }
    }
    assert(sv.take(n as int) =~= sv);
    r
}

/// The `type` of the emulated `/status` answer for a kind of vehicle.
pub open spec fn status_type_spec(vt: VehicleType) -> Seq<char> {
    match vt {
        VehicleType::Tank => "tank"@,
        VehicleType::Aircraft => "aircraft"@,
        VehicleType::Ship => "ship"@,
    }
}

/// The `type` of the emulated `/status` answer.
pub fn status_type(vt: VehicleType) -> (r: String)
    ensures
        r@ == status_type_spec(vt),
{
    match vt {
        VehicleType::Tank => String::from_str("tank"),
        VehicleType::Aircraft => String::from_str("aircraft"),
        VehicleType::Ship => String::from_str("ship"),
    }
}

/// An objective of the emulated mission; all are in progress.
pub struct MissionObjective {
    pub primary: bool,
    pub text: String,
}

/// The objectives of the emulated mission, in order, by kind of vehicle: air
/// battles have two primary objectives and a secondary one, ground and naval
/// battles two primary ones.
pub open spec fn objectives_spec(vt: VehicleType) -> Seq<(bool, Seq<char>)> {
    match vt {
        VehicleType::Aircraft => seq![
            (true, "Destroy all enemy aircraft"@),
            (true, "Destroy ground targets (0/12)"@),
            (false, "Win by tickets"@),
        ],
        VehicleType::Tank => seq![
            (true, "Destroy all enemies"@),
            (true, "Capture and hold all points"@),
        ],
        VehicleType::Ship => seq![
            (true, "Destroy the enemy fleet"@),
            (true, "Do not allow the destruction of the Allied fleet"@),
        ],
    }
}

fn objective(primary: bool, text: &str) -> (r: MissionObjective)
    ensures
        r.primary == primary,
        r.text@ == text@,
{
    MissionObjective { primary, text: String::from_str(text) }
}

/// The objectives of the emulated mission for a kind of vehicle.
pub fn mission_objectives(vt: VehicleType) -> (r: Vec<MissionObjective>)
    ensures
        r@.len() == objectives_spec(vt).len(),
        forall|k: int|
            0 <= k < r@.len() ==> ((#[trigger] r@[k]).primary, r@[k].text@) == objectives_spec(vt)[k],
{
    let mut r: Vec<MissionObjective> = Vec::new();
    match vt {
        VehicleType::Aircraft => {
            r.push(objective(true, "Destroy all enemy aircraft"));
            r.push(objective(true, "Destroy ground targets (0/12)"));
            r.push(objective(false, "Win by tickets"));
        },
        VehicleType::Tank => {
            r.push(objective(true, "Destroy all enemies"));
            r.push(objective(true, "Capture and hold all points"));
        },
        VehicleType::Ship => {
            r.push(objective(true, "Destroy the enemy fleet"));
            r.push(objective(true, "Do not allow the destruction of the Allied fleet"));
        },
    }
    r
}

} // verus!
