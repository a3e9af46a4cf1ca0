//! Custom triggers: the table of triggers, keyed by id, the cooldown of each
//! one-shot trigger, and the filters of event-based triggers.
//!
//! What a trigger's condition says of the game state, its vibration pattern and
//! its curve are carried by the table without being looked at: they are the
//! type parameters `C`, `P` and `K`.
use vstd::prelude::*;

use crate::pattern_engine::GameEvent;
use crate::text::{has_part, lowercase, str_contains, to_lowercase};
use crate::wt_telemetry::{mentions_any, mentions, str_eq};
use crate::text::chars_of;

verus! {

/// A trigger: when its condition holds, `event` is raised (and `pattern` played).
pub struct EventTrigger<C, P, K> {
    pub id: String,
    pub name: String,
    pub description: String,
    pub condition: C,
    pub event: GameEvent,
    pub cooldown_ms: u64,
    pub enabled: bool,
    pub is_builtin: bool,
    pub pattern: P,
    pub curve_points: Option<K>,
    /// Fires on every check while the condition holds, with no cooldown.
    pub continuous: bool,
    /// Fires only on HUD events, never on a check of the game state.
    pub is_event_based: bool,
    /// One of "any", "my_players", "my_clans", "enemy_players", "enemy_clans",
    /// "text_contains".
    pub filter_type: Option<String>,
    /// The text of a "text_contains" filter.
    pub filter_text: Option<String>,
}

/// The saved settings of one trigger.
pub struct TriggerSettings<P, K> {
    pub id: String,
    pub enabled: bool,
    pub cooldown_ms: u64,
    pub pattern: P,
    pub curve_points: Option<K>,
}

/// Why an update of a trigger was refused.
#[derive(Debug, Clone, Copy, PartialEq, Eq, Structural)]
pub enum TriggerError {
    /// No trigger has the given id.
    NotFound,
}

/// The characters of an optional string.
pub open spec fn opt_chars(o: Option<String>) -> Option<Seq<char>> {
    match o {
        Some(s) => Some(s@),
        None => None,
    }
}

/// Kills and set-afire events: the entity they name is the victim, and the event
/// reached the triggers only because the player was the attacker.
pub open spec fn is_kill_event(e: GameEvent) -> bool {
    e is TargetDestroyed || e is EnemySetAfire
}

/// Whether an event-based trigger with this event and filter fires for an event
/// about `entity`.
pub open spec fn filter_passes(
    event: GameEvent,
    filter_type: Option<Seq<char>>,
    filter_text: Option<Seq<char>>,
    entity: Seq<char>,
    player_names: Seq<Seq<char>>,
    clan_tags: Seq<Seq<char>>,
    enemy_names: Seq<Seq<char>>,
    enemy_clans: Seq<Seq<char>>,
) -> bool {
    match filter_type {
        None => true,
        Some(f) => if f == "any"@ {
            true
        } else if f == "my_players"@ {
            is_kill_event(event) || mentions_any(entity, player_names)
        } else if f == "my_clans"@ {
            is_kill_event(event) || mentions_any(entity, clan_tags)
        } else if f == "enemy_players"@ {
            mentions_any(entity, enemy_names)
        } else if f == "enemy_clans"@ {
            mentions_any(entity, enemy_clans)
        } else if f == "text_contains"@ {
            match filter_text {
                Some(t) => has_part(lowercase(entity), lowercase(t)),
                None => false,
            }
        } else {
            false
        },
    }
}

/// What each event filter asks of the entity named by the event, whatever the
/// other lists hold: "enemy_players" passes exactly when some enemy name occurs
/// in the entity, "enemy_clans" when some enemy clan tag does; "my_players" and
/// "my_clans" pass on the player's kills and set-afires, and otherwise when one
/// of the player's names (or clan tags) occurs in the entity; "text_contains"
/// passes when its text occurs in the entity, ignoring case; "any" and no filter
/// always pass.
pub proof fn law_event_filters(
    event: GameEvent,
    filter_text: Option<Seq<char>>,
    entity: Seq<char>,
    players: Seq<Seq<char>>,
    clans: Seq<Seq<char>>,
    enemies: Seq<Seq<char>>,
    enemy_clans: Seq<Seq<char>>,
)
    ensures
        filter_passes(event, None, filter_text, entity, players, clans, enemies, enemy_clans),
        filter_passes(event, Some("any"@), filter_text, entity, players, clans, enemies, enemy_clans),
        filter_passes(event, Some("enemy_players"@), filter_text, entity, players, clans, enemies, enemy_clans)
            == (exists|i: int| 0 <= i < enemies.len() && #[trigger] has_part(entity, enemies[i])),
        filter_passes(event, Some("enemy_clans"@), filter_text, entity, players, clans, enemies, enemy_clans)
            == (exists|i: int| 0 <= i < enemy_clans.len() && #[trigger] has_part(entity, enemy_clans[i])),
        filter_passes(event, Some("my_players"@), filter_text, entity, players, clans, enemies, enemy_clans)
            == (event is TargetDestroyed || event is EnemySetAfire || exists|i: int|
            0 <= i < players.len() && #[trigger] has_part(entity, players[i])),
        filter_passes(event, Some("my_clans"@), filter_text, entity, players, clans, enemies, enemy_clans)
            == (event is TargetDestroyed || event is EnemySetAfire || exists|i: int|
            0 <= i < clans.len() && #[trigger] has_part(entity, clans[i])),
        filter_passes(event, Some("text_contains"@), filter_text, entity, players, clans, enemies, enemy_clans)
            == (filter_text matches Some(t) && has_part(lowercase(entity), lowercase(t))),
{
    reveal_strlit("any");
    reveal_strlit("my_players");
    reveal_strlit("my_clans");
    reveal_strlit("enemy_players");
    reveal_strlit("enemy_clans");
    reveal_strlit("text_contains");
    assert("enemy_players"@[6] != "enemy_clans"@[6]);
    assert("enemy_players"@.len() != "any"@.len() && "enemy_players"@.len() != "my_players"@.len()
        && "enemy_players"@.len() != "my_clans"@.len());
    assert("enemy_clans"@.len() != "any"@.len() && "enemy_clans"@.len() != "my_players"@.len()
        && "enemy_clans"@.len() != "my_clans"@.len());
    assert("my_players"@[3] != "my_clans"@[3]);
}

fn is_kill(e: &GameEvent) -> (r: bool)
    ensures
        r == is_kill_event(*e),
{
    match e {
        GameEvent::TargetDestroyed => true,
        GameEvent::EnemySetAfire => true,
        _ => false,
    }
}

/// Whether an event-based trigger fires for an event about `entity_name`: the
/// victim of a kill, or the attacker of a hit.
pub fn should_fire_event_trigger<C, P, K>(
    trigger: &EventTrigger<C, P, K>,
    entity_name: &str,
    player_names: &Vec<String>,
    clan_tags: &Vec<String>,
    enemy_names: &Vec<String>,
    enemy_clans: &Vec<String>,
) -> (r: bool)
    ensures
        r == filter_passes(
            trigger.event,
            opt_chars(trigger.filter_type),
            opt_chars(trigger.filter_text),
            entity_name@,
            player_names.deep_view(),
            clan_tags.deep_view(),
            enemy_names.deep_view(),
            enemy_clans.deep_view(),
        ),
{
    match &trigger.filter_type {
        None => true,
        Some(f) => {
            let f = f.as_str();
            if str_eq(f, "any") {
                true
            } else if str_eq(f, "my_players") {
                is_kill(&trigger.event) || mentions(&chars_of(entity_name), player_names)
            } else if str_eq(f, "my_clans") {
                is_kill(&trigger.event) || mentions(&chars_of(entity_name), clan_tags)
            } else if str_eq(f, "enemy_players") {
                mentions(&chars_of(entity_name), enemy_names)
            } else if str_eq(f, "enemy_clans") {
                mentions(&chars_of(entity_name), enemy_clans)
            } else if str_eq(f, "text_contains") {
                match &trigger.filter_text {
                    Some(t) => {
                        let e = to_lowercase(entity_name);
                        let tl = to_lowercase(t.as_str());
                        str_contains(e.as_str(), tl.as_str())
                    },
                    None => false,
                }
            } else {
                false
            }
        },
    }
}


/// The time of the last firing of each trigger id, as (id, milliseconds) pairs.
pub open spec fn stamps_distinct(s: Seq<(String, u64)>) -> bool {
    forall|i: int, j: int|
        0 <= i < s.len() && 0 <= j < s.len() && i != j ==> #[trigger] s[i].0@ != #[trigger] s[j].0@
}

/// The pairs as a map from id to time.
pub open spec fn stamp_map(s: Seq<(String, u64)>) -> Map<Seq<char>, u64> {
    Map::new(
        |k: Seq<char>| exists|i: int| 0 <= i < s.len() && #[trigger] s[i].0@ == k,
        |k: Seq<char>| s[choose|i: int| 0 <= i < s.len() && #[trigger] s[i].0@ == k].1,
    )
}

proof fn lemma_stamp_at(s: Seq<(String, u64)>, i: int)
    requires
        stamps_distinct(s),
        0 <= i < s.len(),
    ensures
        stamp_map(s).contains_key(s[i].0@),
        stamp_map(s)[s[i].0@] == s[i].1,
{
    let k = s[i].0@;
    assert(s[i].0@ == k);
    let j = choose|j: int| 0 <= j < s.len() && #[trigger] s[j].0@ == k;
    assert(s[j].0@ == k);
}

proof fn lemma_stamp_absent(s: Seq<(String, u64)>, k: Seq<char>)
    requires
        forall|i: int| 0 <= i < s.len() ==> #[trigger] s[i].0@ != k,
    ensures
        !stamp_map(s).contains_key(k),
{
}

/// The index of the pair for `k`, if any.
fn find_stamp(v: &Vec<(String, u64)>, k: &str) -> (r: Option<usize>)
    ensures
        match r {
            Some(i) => i < v.len() && v@[i as int].0@ == k@,
            None => forall|i: int| 0 <= i < v.len() ==> #[trigger] v@[i].0@ != k@,
        },
{
    let n = v.len();
    for i in 0..n
        invariant
            n == v.len(),
            forall|j: int| 0 <= j < i ==> #[trigger] v@[j].0@ != k@,
    {
        if str_eq(v[i].0.as_str(), k) {
            return Some(i);
        }
    }
    None
}

/// Records `now` as the time of `k`.
fn put_stamp(v: &mut Vec<(String, u64)>, k: &String, now: u64)
    requires
        stamps_distinct(old(v)@),
    ensures
        stamps_distinct(final(v)@),
        stamp_map(final(v)@) == stamp_map(old(v)@).insert(k@, now),
{
    let ghost s0 = v@;
    match find_stamp(v, k.as_str()) {
        Some(i) => {
            let key = k.clone();
            v.set(i, (key, now));
            proof {
                let s1 = v@;
                assert forall|a: int, b: int|
                    0 <= a < s1.len() && 0 <= b < s1.len() && a != b implies #[trigger] s1[a].0@
                    != #[trigger] s1[b].0@ by {
                    if a != i && b != i {
                        assert(s0[a].0@ != s0[b].0@);
                    } else if a == i {
                        assert(s0[i as int].0@ != s0[b].0@);
                    } else {
                        assert(s0[a].0@ != s0[i as int].0@);
                    }
                }
                assert forall|key2: Seq<char>| #[trigger]
                    stamp_map(s1).contains_key(key2) == stamp_map(s0).insert(k@, now).contains_key(key2) by {
                    if stamp_map(s0).contains_key(key2) {
                        let j = choose|j: int| 0 <= j < s0.len() && #[trigger] s0[j].0@ == key2;
                        if j == i {
                            assert(s1[i as int].0@ == key2);
                        } else {
                            assert(s1[j].0@ == key2);
                        }
                    }
                    if key2 == k@ {
                        assert(s1[i as int].0@ == key2);
                    }
                    if stamp_map(s1).contains_key(key2) {
                        let j = choose|j: int| 0 <= j < s1.len() && #[trigger] s1[j].0@ == key2;
                        if j != i {
                            assert(s0[j].0@ == key2);
                        }
                    }
                }
                assert forall|key2: Seq<char>| #[trigger] stamp_map(s1).contains_key(key2) implies
                    stamp_map(s1)[key2] == stamp_map(s0).insert(k@, now)[key2] by {
                    let j = choose|j: int| 0 <= j < s1.len() && #[trigger] s1[j].0@ == key2;
                    lemma_stamp_at(s1, j);
                    if j != i {
                        lemma_stamp_at(s0, j);
                    }
                }
                assert(stamp_map(s1) =~= stamp_map(s0).insert(k@, now));
            }
        },
        None => {
            let key = k.clone();
            v.push((key, now));
            proof {
                let s1 = v@;
                let n = s0.len() as int;
                assert forall|a: int, b: int|
                    0 <= a < s1.len() && 0 <= b < s1.len() && a != b implies #[trigger] s1[a].0@
                    != #[trigger] s1[b].0@ by {
                    if a != n && b != n {
                        assert(s0[a].0@ != s0[b].0@);
                    } else if a == n {
                        assert(s0[b].0@ != k@);
                    } else {
                        assert(s0[a].0@ != k@);
                    }
                }
                assert forall|key2: Seq<char>| #[trigger]
                    stamp_map(s1).contains_key(key2) == stamp_map(s0).insert(k@, now).contains_key(key2) by {
                    if stamp_map(s0).contains_key(key2) {
                        let j = choose|j: int| 0 <= j < s0.len() && #[trigger] s0[j].0@ == key2;
                        assert(s1[j].0@ == key2);
                    }
                    if key2 == k@ {
                        assert(s1[n].0@ == key2);
                    }
                    if stamp_map(s1).contains_key(key2) {
                        let j = choose|j: int| 0 <= j < s1.len() && #[trigger] s1[j].0@ == key2;
                        if j != n {
                            assert(s0[j].0@ == key2);
                        }
                    }
                }
                assert forall|key2: Seq<char>| #[trigger] stamp_map(s1).contains_key(key2) implies
                    stamp_map(s1)[key2] == stamp_map(s0).insert(k@, now)[key2] by {
                    let j = choose|j: int| 0 <= j < s1.len() && #[trigger] s1[j].0@ == key2;
                    lemma_stamp_at(s1, j);
                    if j != n {
                        lemma_stamp_at(s0, j);
                    }
                }
                assert(stamp_map(s1) =~= stamp_map(s0).insert(k@, now));
            }
        },
    }
}

/// Forgets the time of `k`.
fn drop_stamp(v: &mut Vec<(String, u64)>, k: &str)
    requires
        stamps_distinct(old(v)@),
    ensures
        stamps_distinct(final(v)@),
        stamp_map(final(v)@) == stamp_map(old(v)@).remove(k@),
{
    let ghost s0 = v@;
    match find_stamp(v, k) {
        Some(i) => {
            v.remove(i);
            proof {
                let s1 = v@;
                assert forall|a: int| 0 <= a < s1.len() implies #[trigger] s1[a] == (if a < i {
                    s0[a]
                } else {
                    s0[a + 1]
                }) by {}
                assert forall|a: int, b: int|
                    0 <= a < s1.len() && 0 <= b < s1.len() && a != b implies #[trigger] s1[a].0@
                    != #[trigger] s1[b].0@ by {
                    let a0 = if a < i { a } else { a + 1 };
                    let b0 = if b < i { b } else { b + 1 };
                    assert(s0[a0].0@ != s0[b0].0@);
                }
                assert forall|key2: Seq<char>| #[trigger]
                    stamp_map(s1).contains_key(key2) == stamp_map(s0).remove(k@).contains_key(key2) by {
                    if stamp_map(s0).contains_key(key2) && key2 != k@ {
                        let j = choose|j: int| 0 <= j < s0.len() && #[trigger] s0[j].0@ == key2;
                        if j < i {
                            assert(s1[j].0@ == key2);
                        } else {
                            assert(s1[j - 1].0@ == key2);
                        }
                    }
                    if stamp_map(s1).contains_key(key2) {
                        let j = choose|j: int| 0 <= j < s1.len() && #[trigger] s1[j].0@ == key2;
                        let j0 = if j < i { j } else { j + 1 };
                        assert(s0[j0].0@ == key2);
                        assert(s0[i as int].0@ != s0[j0].0@);
                    }
                }
                assert forall|key2: Seq<char>| #[trigger] stamp_map(s1).contains_key(key2) implies
                    stamp_map(s1)[key2] == stamp_map(s0).remove(k@)[key2] by {
                    let j = choose|j: int| 0 <= j < s1.len() && #[trigger] s1[j].0@ == key2;
                    let j0 = if j < i { j } else { j + 1 };
                    lemma_stamp_at(s1, j);
                    lemma_stamp_at(s0, j0);
                }
                assert(stamp_map(s1) =~= stamp_map(s0).remove(k@));
            }
        },
        None => {
            proof {
                lemma_stamp_absent(s0, k@);
                assert(stamp_map(s0) =~= stamp_map(s0).remove(k@));
            }
        },
    }
}

/// The first position at or after `s` of a trigger with id `id`.
pub open spec fn position_from<C, P, K>(ts: Seq<EventTrigger<C, P, K>>, id: Seq<char>, s: int) -> Option<
    int,
>
    decreases ts.len() - s,
{
    if s < 0 || s >= ts.len() {
        None
    } else if ts[s].id@ == id {
        Some(s)
    } else {
        position_from(ts, id, s + 1)
    }
}

/// The first position of a trigger with id `id`: the one that lookups by id reach.
pub open spec fn position<C, P, K>(ts: Seq<EventTrigger<C, P, K>>, id: Seq<char>) -> Option<int> {
    position_from(ts, id, 0)
}

proof fn lemma_position_from<C, P, K>(ts: Seq<EventTrigger<C, P, K>>, id: Seq<char>, s: int)
    requires
        0 <= s,
    ensures
        position_from(ts, id, s) matches Some(i) ==> s <= i < ts.len() && ts[i].id@ == id && forall|
            j: int,
        | s <= j < i ==> #[trigger] ts[j].id@ != id,
        position_from(ts, id, s) is None ==> forall|j: int| s <= j < ts.len() ==> #[trigger] ts[j].id@ != id,
    decreases ts.len() - s,
{
    if s < ts.len() && ts[s].id@ != id {
        lemma_position_from(ts, id, s + 1);
    }
}

/// What `position` gives: the first trigger with the id, or none when no trigger has it.
pub proof fn lemma_position<C, P, K>(ts: Seq<EventTrigger<C, P, K>>, id: Seq<char>)
    ensures
        position(ts, id) matches Some(i) ==> 0 <= i < ts.len() && ts[i].id@ == id && forall|j: int|
            0 <= j < i ==> #[trigger] ts[j].id@ != id,
        position(ts, id) is None ==> forall|j: int| 0 <= j < ts.len() ==> #[trigger] ts[j].id@ != id,
{
    lemma_position_from(ts, id, 0);
}

/// A position with the first trigger of that id is what `position` gives.
proof fn lemma_position_unique<C, P, K>(ts: Seq<EventTrigger<C, P, K>>, id: Seq<char>, i: int)
    requires
        0 <= i < ts.len(),
        ts[i].id@ == id,
        forall|j: int| 0 <= j < i ==> #[trigger] ts[j].id@ != id,
    ensures
        position(ts, id) == Some(i),
{
    lemma_position(ts, id);
    if let Some(p) = position(ts, id) {
        if p < i {
            assert(ts[p].id@ != id);
        } else if p > i {
            assert(ts[i].id@ != id);
        }
    }
}

fn find_trigger<C, P, K>(ts: &Vec<EventTrigger<C, P, K>>, id: &str) -> (r: Option<usize>)
    ensures
        match r {
            Some(i) => i < ts.len() && position(ts@, id@) == Some(i as int) && ts@[i as int].id@ == id@,
            None => position(ts@, id@) is None,
        },
{
    let n = ts.len();
    for i in 0..n
        invariant
            n == ts.len(),
            forall|j: int| 0 <= j < i ==> #[trigger] ts@[j].id@ != id@,
    {
        if str_eq(ts[i].id.as_str(), id) {
            proof {
                lemma_position_unique(ts@, id@, i as int);
            }
            return Some(i);
        }
    }
    proof {
        lemma_position(ts@, id@);
        if let Some(p) = position(ts@, id@) {
            assert(ts@[p].id@ != id@);
        }
    }
    None
}

/// The table after adding `t`: it replaces the trigger found under its id, or
/// comes last when there is none.
pub open spec fn with_trigger<C, P, K>(ts: Seq<EventTrigger<C, P, K>>, t: EventTrigger<C, P, K>) -> Seq<
    EventTrigger<C, P, K>,
> {
    match position(ts, t.id@) {
        Some(i) => ts.update(i, t),
        None => ts.push(t),
    }
}

/// The table without the trigger found under `id`.
pub open spec fn without_trigger<C, P, K>(ts: Seq<EventTrigger<C, P, K>>, id: Seq<char>) -> Seq<
    EventTrigger<C, P, K>,
> {
    match position(ts, id) {
        Some(i) => ts.remove(i),
        None => ts,
    }
}

/// Milliseconds from `then` to `now`, zero when `now` is earlier.
pub open spec fn elapsed_ms(now: u64, then: u64) -> int {
    if now >= then {
        now - then
    } else {
        0
    }
}

/// A one-shot trigger that fired less than its cooldown ago does not fire.
pub open spec fn in_cooldown<C, P, K>(t: EventTrigger<C, P, K>, stamps: Map<Seq<char>, u64>, now: u64) -> bool {
    &&& !t.continuous
    &&& stamps.contains_key(t.id@)
    &&& elapsed_ms(now, stamps[t.id@]) < t.cooldown_ms
}

/// One trigger of a check: whether it fires (its position is added to `fired`)
/// and how the times of last firing change.
pub open spec fn check_step<C, P, K>(
    t: EventTrigger<C, P, K>,
    holds: bool,
    i: int,
    now: u64,
    st: (Map<Seq<char>, u64>, Seq<int>),
) -> (Map<Seq<char>, u64>, Seq<int>) {
    let (stamps, fired) = st;
    if !t.enabled || t.is_event_based || in_cooldown(t, stamps, now) {
        st
    } else if holds {
        (if t.continuous { stamps } else { stamps.insert(t.id@, now) }, fired.push(i))
    } else if t.continuous && stamps.contains_key(t.id@) {
        (stamps.insert(t.id@, now), fired)
    } else {
        st
    }
}

/// The first `n` triggers of a check, in order.
pub open spec fn check_run<C, P, K>(
    ts: Seq<EventTrigger<C, P, K>>,
    holds: Seq<bool>,
    now: u64,
    n: int,
    st: (Map<Seq<char>, u64>, Seq<int>),
) -> (Map<Seq<char>, u64>, Seq<int>)
    decreases n,
{
    if n <= 0 {
        st
    } else {
        check_step(ts[n - 1], holds[n - 1], n - 1, now, check_run(ts, holds, now, n - 1, st))
    }
}

/// A whole check of the table at time `now`, where `holds[i]` tells whether the
/// condition of trigger `i` holds.
pub open spec fn check_all<C, P, K>(
    ts: Seq<EventTrigger<C, P, K>>,
    holds: Seq<bool>,
    now: u64,
    stamps: Map<Seq<char>, u64>,
) -> (Map<Seq<char>, u64>, Seq<int>) {
    check_run(ts, holds, now, ts.len() as int, (stamps, Seq::empty()))
}

/// A trigger with its cooldown and pattern replaced where new ones are given.
pub open spec fn with_settings<C, P, K>(t: EventTrigger<C, P, K>, cooldown_ms: Option<u64>, pattern: Option<P>) -> EventTrigger<
    C,
    P,
    K,
> {
    EventTrigger {
        cooldown_ms: match cooldown_ms {
            Some(c) => c,
            None => t.cooldown_ms,
        },
        pattern: match pattern {
            Some(p) => p,
            None => t.pattern,
        },
        ..t
    }
}

/// A trigger with a new cooldown (where given); a new pattern brings its curve,
/// and a curve alone replaces the curve.
pub open spec fn with_curve<C, P, K>(
    t: EventTrigger<C, P, K>,
    cooldown_ms: Option<u64>,
    pattern: Option<P>,
    curve_points: Option<K>,
) -> EventTrigger<C, P, K> {
    let t1 = EventTrigger {
        cooldown_ms: match cooldown_ms {
            Some(c) => c,
            None => t.cooldown_ms,
        },
        ..t
    };
    match pattern {
        Some(p) => EventTrigger { pattern: p, curve_points: curve_points, ..t1 },
        None => if curve_points is Some {
            EventTrigger { curve_points: curve_points, ..t1 }
        } else {
            t1
        },
    }
}

/// The table after one saved setting is applied to the trigger with its id.
pub open spec fn applied_setting<C, P, K>(ts: Seq<EventTrigger<C, P, K>>, s: TriggerSettings<P, K>) -> Seq<
    EventTrigger<C, P, K>,
> {
    match position(ts, s.id@) {
        Some(i) => ts.update(
            i,
            EventTrigger {
                enabled: s.enabled,
                cooldown_ms: s.cooldown_ms,
                pattern: s.pattern,
                curve_points: s.curve_points,
                ..ts[i]
            },
        ),
        None => ts,
    }
}

/// The table after the saved settings are applied in order.
pub open spec fn applied_settings<C, P, K>(
    ts: Seq<EventTrigger<C, P, K>>,
    ss: Seq<TriggerSettings<P, K>>,
) -> Seq<EventTrigger<C, P, K>>
    decreases ss.len(),
{
    if ss.len() == 0 {
        ts
    } else {
        applied_settings(applied_setting(ts, ss[0]), ss.drop_first())
    }
}

/// No two triggers share an id.
pub open spec fn trigger_ids_distinct<C, P, K>(ts: Seq<EventTrigger<C, P, K>>) -> bool {
    forall|i: int, j: int| 0 <= i < j < ts.len() ==> #[trigger] ts[i].id@ != #[trigger] ts[j].id@
}

/// No two saved settings share an id.
pub open spec fn setting_ids_distinct<P, K>(ss: Seq<TriggerSettings<P, K>>) -> bool {
    forall|i: int, j: int| 0 <= i < j < ss.len() ==> #[trigger] ss[i].id@ != #[trigger] ss[j].id@
}

/// A trigger with a saved setting's switch, cooldown, pattern and curve.
pub open spec fn with_saved<C, P, K>(t: EventTrigger<C, P, K>, s: TriggerSettings<P, K>) -> EventTrigger<C, P, K> {
    EventTrigger { enabled: s.enabled, cooldown_ms: s.cooldown_ms, pattern: s.pattern, curve_points: s.curve_points, ..t }
}

/// The settings that are saved of a table: each trigger's id, switch,
/// cooldown, pattern and curve, in order.
pub open spec fn settings_of<C, P, K>(ts: Seq<EventTrigger<C, P, K>>) -> Seq<TriggerSettings<P, K>> {
    ts.map_values(
        |t: EventTrigger<C, P, K>|
            TriggerSettings {
                id: t.id,
                enabled: t.enabled,
                cooldown_ms: t.cooldown_ms,
                pattern: t.pattern,
                curve_points: t.curve_points,
            },
    )
}

/// Applying settings with distinct ids to a table with distinct ids gives each
/// trigger the setting with its id, and leaves a trigger without one as it was.
proof fn lemma_applied_settings<C, P, K>(
    ts: Seq<EventTrigger<C, P, K>>,
    ss: Seq<TriggerSettings<P, K>>,
)
    requires
        trigger_ids_distinct(ts),
        setting_ids_distinct(ss),
    ensures
        applied_settings(ts, ss).len() == ts.len(),
        forall|j: int, k: int|
            0 <= j < ts.len() && 0 <= k < ss.len() && #[trigger] ss[k].id@ == #[trigger] ts[j].id@
                ==> applied_settings(ts, ss)[j] == with_saved(ts[j], ss[k]),
        forall|j: int|
            0 <= j < ts.len() && (forall|k: int| 0 <= k < ss.len() ==> #[trigger] ss[k].id@ != ts[j].id@)
                ==> #[trigger] applied_settings(ts, ss)[j] == ts[j],
    decreases ss.len(),
{
    if ss.len() > 0 {
        let s0 = ss[0];
        let rest = ss.drop_first();
        let t1 = applied_setting(ts, s0);
        lemma_position(ts, s0.id@);
        assert(t1.len() == ts.len());
        assert(forall|j: int| 0 <= j < ts.len() ==> #[trigger] t1[j].id == ts[j].id);
        assert(trigger_ids_distinct(t1)) by {
            assert forall|a: int, b: int| 0 <= a < b < t1.len() implies #[trigger] t1[a].id@ != #[trigger] t1[b].id@ by {
                assert(t1[a].id == ts[a].id && t1[b].id == ts[b].id);
            }
        }
        assert(setting_ids_distinct(rest)) by {
            assert forall|a: int, b: int| 0 <= a < b < rest.len() implies #[trigger] rest[a].id@ != #[trigger] rest[b].id@ by {
                assert(rest[a] == ss[a + 1] && rest[b] == ss[b + 1]);
            }
        }
        lemma_applied_settings(t1, rest);
        let r = applied_settings(ts, ss);
        assert(r == applied_settings(t1, rest));
        assert forall|j: int, k: int|
            0 <= j < ts.len() && 0 <= k < ss.len() && #[trigger] ss[k].id@ == #[trigger] ts[j].id@
                implies r[j] == with_saved(ts[j], ss[k]) by {
            if k == 0 {
                assert(position(ts, s0.id@) == Some(j)) by {
                    let p = position(ts, s0.id@)->0;
                    if p != j {
                        assert(ts[p].id@ != ts[j].id@);
                    }
                }
                assert(t1[j] == with_saved(ts[j], s0));
                assert forall|m: int| 0 <= m < rest.len() implies #[trigger] rest[m].id@ != t1[j].id@ by {
                    assert(rest[m] == ss[m + 1]);
                    assert(ss[0].id@ != ss[m + 1].id@);
                }
            } else {
                assert(rest[k - 1] == ss[k]);
                if let Some(p) = position(ts, s0.id@) {
                    if p == j {
                        assert(ss[0].id@ != ss[k].id@);
                    }
                }
                assert(t1[j] == ts[j]);
                assert(rest[k - 1].id@ == t1[j].id@);
            }
        }
        assert forall|j: int|
            0 <= j < ts.len() && (forall|k: int| 0 <= k < ss.len() ==> #[trigger] ss[k].id@ != ts[j].id@)
                implies #[trigger] r[j] == ts[j] by {
            assert(ss[0].id@ != ts[j].id@);
            if let Some(p) = position(ts, s0.id@) {
                assert(p != j);
            }
            assert(t1[j] == ts[j]);
            assert forall|m: int| 0 <= m < rest.len() implies #[trigger] rest[m].id@ != t1[j].id@ by {
                assert(rest[m] == ss[m + 1]);
            }
        }
    }
}

/// Saved settings restore: applying the settings saved of a table `saved` to a
/// table `table` (each without repeated ids) gives every trigger of `table` whose
/// id is in `saved` the saved switch, cooldown, pattern and curve, keeping its
/// name, condition and the rest, and leaves the other triggers as they were.
pub proof fn law_saved_settings_restore<C, P, K>(
    saved: Seq<EventTrigger<C, P, K>>,
    table: Seq<EventTrigger<C, P, K>>,
)
    requires
        trigger_ids_distinct(saved),
        trigger_ids_distinct(table),
    ensures
        applied_settings(table, settings_of(saved)).len() == table.len(),
        forall|j: int, i: int|
            0 <= j < table.len() && 0 <= i < saved.len() && #[trigger] saved[i].id@ == #[trigger] table[j].id@
                ==> applied_settings(table, settings_of(saved))[j] == (EventTrigger {
                enabled: saved[i].enabled,
                cooldown_ms: saved[i].cooldown_ms,
                pattern: saved[i].pattern,
                curve_points: saved[i].curve_points,
                ..table[j]
            }),
        forall|j: int|
            0 <= j < table.len() && (forall|i: int| 0 <= i < saved.len() ==> #[trigger] saved[i].id@ != table[j].id@)
                ==> #[trigger] applied_settings(table, settings_of(saved))[j] == table[j],
{
    let ss = settings_of(saved);
    assert(forall|i: int| 0 <= i < saved.len() ==> #[trigger] ss[i].id == saved[i].id);
    assert(setting_ids_distinct(ss)) by {
        assert forall|a: int, b: int| 0 <= a < b < ss.len() implies #[trigger] ss[a].id@ != #[trigger] ss[b].id@ by {
            assert(ss[a].id == saved[a].id && ss[b].id == saved[b].id);
        }
    }
    lemma_applied_settings(table, ss);
    assert forall|j: int, i: int|
        0 <= j < table.len() && 0 <= i < saved.len() && #[trigger] saved[i].id@ == #[trigger] table[j].id@
            implies applied_settings(table, ss)[j] == with_saved(table[j], ss[i]) by {
        assert(ss[i].id@ == table[j].id@);
    }
    assert forall|j: int|
        0 <= j < table.len() && (forall|i: int| 0 <= i < saved.len() ==> #[trigger] saved[i].id@ != table[j].id@)
            implies #[trigger] applied_settings(table, ss)[j] == table[j] by {
        assert forall|k: int| 0 <= k < ss.len() implies #[trigger] ss[k].id@ != table[j].id@ by {
            assert(ss[k].id == saved[k].id);
        }
    }
}

/// Trigger `j` fires at its own step of a check from `stamps`.
pub open spec fn fires_at_step<C, P, K>(
    ts: Seq<EventTrigger<C, P, K>>,
    holds: Seq<bool>,
    now: u64,
    stamps: Map<Seq<char>, u64>,
    j: int,
) -> bool {
    &&& ts[j].enabled
    &&& !ts[j].is_event_based
    &&& holds[j]
    &&& !in_cooldown(ts[j], check_run(ts, holds, now, j, (stamps, Seq::empty())).0, now)
}

proof fn lemma_run_keeps_now<C, P, K>(
    ts: Seq<EventTrigger<C, P, K>>,
    holds: Seq<bool>,
    now: u64,
    m: int,
    n: int,
    st0: (Map<Seq<char>, u64>, Seq<int>),
    k: Seq<char>,
)
    requires
        0 <= m <= n,
        check_run(ts, holds, now, m, st0).0.contains_key(k),
        check_run(ts, holds, now, m, st0).0[k] == now,
    ensures
        check_run(ts, holds, now, n, st0).0.contains_key(k),
        check_run(ts, holds, now, n, st0).0[k] == now,
    decreases n - m,
{
    if n > m {
        lemma_run_keeps_now(ts, holds, now, m, n - 1, st0, k);
    }
}

proof fn lemma_run_stamps<C, P, K>(
    ts: Seq<EventTrigger<C, P, K>>,
    holds: Seq<bool>,
    now: u64,
    n: int,
    st0: (Map<Seq<char>, u64>, Seq<int>),
    k: Seq<char>,
)
    ensures
        ({
            let m = check_run(ts, holds, now, n, st0).0;
            (m.contains_key(k) && m[k] == now) || (m.contains_key(k) == st0.0.contains_key(k) && (
            st0.0.contains_key(k) ==> m[k] == st0.0[k]))
        }),
    decreases n,
{
    if n > 0 {
        lemma_run_stamps(ts, holds, now, n - 1, st0, k);
    }
}

proof fn lemma_run_fired<C, P, K>(
    ts: Seq<EventTrigger<C, P, K>>,
    holds: Seq<bool>,
    now: u64,
    n: int,
    stamps: Map<Seq<char>, u64>,
    j: int,
)
    requires
        check_run(ts, holds, now, n, (stamps, Seq::empty())).1.contains(j),
    ensures
        0 <= j < n,
        fires_at_step(ts, holds, now, stamps, j),
    decreases n,
{
    if n > 0 {
        let prev = check_run(ts, holds, now, n - 1, (stamps, Seq::empty()));
        let cur = check_run(ts, holds, now, n, (stamps, Seq::empty()));
        if cur.1 == prev.1 {
            lemma_run_fired(ts, holds, now, n - 1, stamps, j);
        } else {
            assert(cur.1 == prev.1.push(n - 1));
            let w = choose|w: int| 0 <= w < cur.1.len() && cur.1[w] == j;
            if w < prev.1.len() {
                assert(prev.1[w] == j);
                lemma_run_fired(ts, holds, now, n - 1, stamps, j);
            }
        }
    }
}

proof fn lemma_run_continuous<C, P, K>(
    ts: Seq<EventTrigger<C, P, K>>,
    holds: Seq<bool>,
    now: u64,
    n: int,
    st0: (Map<Seq<char>, u64>, Seq<int>),
    j: int,
)
    requires
        0 <= j < n,
        ts[j].continuous,
        ts[j].enabled,
        !ts[j].is_event_based,
        holds[j],
    ensures
        check_run(ts, holds, now, n, st0).1.contains(j),
    decreases n,
{
    let prev = check_run(ts, holds, now, n - 1, st0);
    let cur = check_run(ts, holds, now, n, st0);
    if n - 1 == j {
        assert(cur.1 == prev.1.push(j));
        assert(cur.1[prev.1.len() as int] == j);
    } else {
        lemma_run_continuous(ts, holds, now, n - 1, st0, j);
        let w = choose|w: int| 0 <= w < prev.1.len() && prev.1[w] == j;
        if cur.1 != prev.1 {
            assert(cur.1 == prev.1.push(n - 1));
            assert(cur.1[w] == j);
        }
    }
}

/// Adding a trigger makes it the one found under its id.
pub proof fn law_added_trigger_is_found<C, P, K>(ts: Seq<EventTrigger<C, P, K>>, t: EventTrigger<C, P, K>)
    ensures
        position(with_trigger(ts, t), t.id@) matches Some(i) && with_trigger(ts, t)[i] == t,
{
    let id = t.id@;
    lemma_position(ts, id);
    let added = with_trigger(ts, t);
    match position(ts, id) {
        Some(i) => {
            assert forall|j: int| 0 <= j < i implies #[trigger] added[j].id@ != id by {
                assert(ts[j].id@ != id);
            }
            lemma_position_unique(added, id, i);
        },
        None => {
            let i = ts.len() as int;
            assert forall|j: int| 0 <= j < i implies #[trigger] added[j].id@ != id by {
                assert(ts[j].id@ != id);
            }
            lemma_position_unique(added, id, i);
        },
    }
}

/// Removing a trigger under a new id just added gives back the table before.
pub proof fn law_remove_undoes_add<C, P, K>(ts: Seq<EventTrigger<C, P, K>>, t: EventTrigger<C, P, K>)
    requires
        position(ts, t.id@) is None,
    ensures
        without_trigger(with_trigger(ts, t), t.id@) == ts,
{
    law_added_trigger_is_found(ts, t);
    lemma_position(ts, t.id@);
    let added = with_trigger(ts, t);
    assert(added == ts.push(t));
    if let Some(i) = position(added, t.id@) {
        lemma_position(added, t.id@);
        if i < ts.len() {
            assert(ts[i].id@ != t.id@);
        }
        assert(i == ts.len());
    }
    assert(added.remove(ts.len() as int) =~= ts);
}

/// A one-shot trigger that fired at `now1` does not fire again on a check at
/// `now2` before its cooldown has run out, whatever the conditions then.
pub proof fn law_one_shot_cooldown<C, P, K>(
    ts: Seq<EventTrigger<C, P, K>>,
    holds1: Seq<bool>,
    holds2: Seq<bool>,
    now1: u64,
    now2: u64,
    stamps: Map<Seq<char>, u64>,
    j: int,
)
    requires
        check_all(ts, holds1, now1, stamps).1.contains(j),
        !ts[j].continuous,
        now1 <= now2,
        now2 - now1 < ts[j].cooldown_ms,
    ensures
        !check_all(ts, holds2, now2, check_all(ts, holds1, now1, stamps).0).1.contains(j),
{
    let n = ts.len() as int;
    let id = ts[j].id@;
    lemma_run_fired(ts, holds1, now1, n, stamps, j);
    let before = check_run(ts, holds1, now1, j, (stamps, Seq::empty()));
    assert(check_run(ts, holds1, now1, j + 1, (stamps, Seq::empty())) == check_step(
        ts[j],
        holds1[j],
        j,
        now1,
        before,
    ));
    assert(check_run(ts, holds1, now1, j + 1, (stamps, Seq::empty())).0 == before.0.insert(id, now1));
    lemma_run_keeps_now(ts, holds1, now1, j + 1, n, (stamps, Seq::empty()), id);
    let mid = check_all(ts, holds1, now1, stamps).0;
    if check_all(ts, holds2, now2, mid).1.contains(j) {
        lemma_run_fired(ts, holds2, now2, n, mid, j);
        lemma_run_stamps(ts, holds2, now2, j, (mid, Seq::empty()), id);
        let m2 = check_run(ts, holds2, now2, j, (mid, Seq::empty())).0;
        assert(m2.contains_key(id));
        assert(elapsed_ms(now2, m2[id]) < ts[j].cooldown_ms);
        assert(in_cooldown(ts[j], m2, now2));
    }
}

/// The positions, among the first `n` triggers, of those the user made.
pub open spec fn user_positions<C, P, K>(ts: Seq<EventTrigger<C, P, K>>, n: int) -> Seq<int>
    decreases n,
{
    if n <= 0 {
        Seq::empty()
    } else if !ts[n - 1].is_builtin {
        user_positions(ts, n - 1).push(n - 1)
    } else {
        user_positions(ts, n - 1)
    }
}

/// How many of the first `n` triggers are switched on.
pub open spec fn enabled_upto<C, P, K>(ts: Seq<EventTrigger<C, P, K>>, n: int) -> nat
    decreases n,
{
    if n <= 0 {
        0
    } else if ts[n - 1].enabled {
        enabled_upto(ts, n - 1) + 1
    } else {
        enabled_upto(ts, n - 1)
    }
}

/// The table of triggers and the time each one-shot trigger last fired.
pub struct TriggerManager<C, P, K> {
    triggers: Vec<EventTrigger<C, P, K>>,
    last_triggered: Vec<(String, u64)>,
}

impl<C, P, K> TriggerManager<C, P, K> {
    /// The triggers, in order.
    pub closed spec fn triggers(&self) -> Seq<EventTrigger<C, P, K>> {
        self.triggers@
    }

    /// When each trigger id last fired, in milliseconds on the caller's clock.
    pub closed spec fn stamps(&self) -> Map<Seq<char>, u64> {
        stamp_map(self.last_triggered@)
    }

    /// No id has two times of last firing.
    pub closed spec fn wf(&self) -> bool {
        stamps_distinct(self.last_triggered@)
    }

    /// An empty table with no cooldowns running.
    pub fn new() -> (r: Self)
        ensures
            r.wf(),
            r.triggers() == Seq::<EventTrigger<C, P, K>>::empty(),
            r.stamps() == Map::<Seq<char>, u64>::empty(),
    {
        let r = TriggerManager { triggers: Vec::new(), last_triggered: Vec::new() };
        assert(r.stamps() =~= Map::<Seq<char>, u64>::empty());
        r
    }

    /// Adds a trigger, replacing the one with the same id if there is one.
    pub fn add_trigger(&mut self, trigger: EventTrigger<C, P, K>)
        requires
            old(self).wf(),
        ensures
            final(self).wf(),
            final(self).triggers() == with_trigger(old(self).triggers(), trigger),
            final(self).stamps() == old(self).stamps(),
    {
        match find_trigger(&self.triggers, trigger.id.as_str()) {
            Some(i) => {
                self.triggers.set(i, trigger);
            },
            None => {
                self.triggers.push(trigger);
            },
        }
    }

    /// The triggers.
    pub fn get_triggers(&self) -> (r: &Vec<EventTrigger<C, P, K>>)
        ensures
            r@ == self.triggers(),
    {
        &self.triggers
    }

    /// The triggers, to be changed in place; cooldowns are not touched.
    pub fn get_triggers_mut(&mut self) -> (r: &mut Vec<EventTrigger<C, P, K>>)
        ensures
            r@ == old(self).triggers(),
            final(self).triggers() == final(r)@,
            final(self).stamps() == old(self).stamps(),
            final(self).wf() == old(self).wf(),
    {
        &mut self.triggers
    }

    /// Switches the trigger found under `id` on or off; nothing happens when
    /// there is none.
    pub fn toggle_trigger(&mut self, id: &str, enabled: bool)
        requires
            old(self).wf(),
        ensures
            final(self).wf(),
            final(self).stamps() == old(self).stamps(),
            final(self).triggers() == match position(old(self).triggers(), id@) {
                Some(i) => old(self).triggers().update(
                    i,
                    EventTrigger { enabled: enabled, ..old(self).triggers()[i] },
                ),
                None => old(self).triggers(),
            },
    {
        if let Some(i) = find_trigger(&self.triggers, id) {
            self.triggers[i].enabled = enabled;
        }
    }

    /// Forgets every cooldown.
    pub fn clear_cooldowns(&mut self)
        ensures
            final(self).wf(),
            final(self).triggers() == old(self).triggers(),
            final(self).stamps() == Map::<Seq<char>, u64>::empty(),
    {
        self.last_triggered.clear();
        assert(self.stamps() =~= Map::<Seq<char>, u64>::empty());
    }

    /// Switches off the trigger found under `id` and forgets its cooldown;
    /// `false`, and nothing changed, when there is none.
    pub fn disable_trigger(&mut self, trigger_id: &str) -> (r: bool)
        requires
            old(self).wf(),
        ensures
            final(self).wf(),
            r == position(old(self).triggers(), trigger_id@) is Some,
            match position(old(self).triggers(), trigger_id@) {
                Some(i) => {
                    &&& final(self).triggers() == old(self).triggers().update(
                        i,
                        EventTrigger { enabled: false, ..old(self).triggers()[i] },
                    )
                    &&& final(self).stamps() == old(self).stamps().remove(trigger_id@)
                },
                None => final(self).triggers() == old(self).triggers() && final(self).stamps()
                    == old(self).stamps(),
            },
    {
        if let Some(i) = find_trigger(&self.triggers, trigger_id) {
            self.triggers[i].enabled = false;
            drop_stamp(&mut self.last_triggered, trigger_id);
            true
        } else {
            false
        }
    }

    /// Switches on the trigger found under `id`; `false`, and nothing changed,
    /// when there is none.
    pub fn enable_trigger(&mut self, trigger_id: &str) -> (r: bool)
        requires
            old(self).wf(),
        ensures
            final(self).wf(),
            final(self).stamps() == old(self).stamps(),
            r == position(old(self).triggers(), trigger_id@) is Some,
            final(self).triggers() == match position(old(self).triggers(), trigger_id@) {
                Some(i) => old(self).triggers().update(
                    i,
                    EventTrigger { enabled: true, ..old(self).triggers()[i] },
                ),
                None => old(self).triggers(),
            },
    {
        if let Some(i) = find_trigger(&self.triggers, trigger_id) {
            self.triggers[i].enabled = true;
            true
        } else {
            false
        }
    }

    /// Removes the trigger found under `id`; `false` when there is none. Its
    /// cooldown is kept.
    pub fn remove_trigger(&mut self, id: &str) -> (r: bool)
        requires
            old(self).wf(),
        ensures
            final(self).wf(),
            final(self).stamps() == old(self).stamps(),
            r == position(old(self).triggers(), id@) is Some,
            final(self).triggers() == without_trigger(old(self).triggers(), id@),
    {
        if let Some(i) = find_trigger(&self.triggers, id) {
            self.triggers.remove(i);
            true
        } else {
            false
        }
    }

    /// Sets the cooldown and the pattern (each where given) of the trigger found
    /// under `id`; `NotFound`, and nothing changed, when there is none.
    pub fn update_trigger(&mut self, id: &str, cooldown_ms: Option<u64>, pattern: Option<P>) -> (r: Result<
        (),
        TriggerError,
    >)
        requires
            old(self).wf(),
        ensures
            final(self).wf(),
            final(self).stamps() == old(self).stamps(),
            r is Ok == position(old(self).triggers(), id@) is Some,
            final(self).triggers() == match position(old(self).triggers(), id@) {
                Some(i) => old(self).triggers().update(
                    i,
                    with_settings(old(self).triggers()[i], cooldown_ms, pattern),
                ),
                None => old(self).triggers(),
            },
    {
        if let Some(i) = find_trigger(&self.triggers, id) {
            if let Some(c) = cooldown_ms {
                self.triggers[i].cooldown_ms = c;
            }
            if let Some(p) = pattern {
                self.triggers[i].pattern = p;
            }
            Ok(())
        } else {
            Err(TriggerError::NotFound)
        }
    }

    /// Sets the name, description and condition of the trigger found under `id`
    /// (used to fit a built-in trigger to the current vehicle); `NotFound`, and
    /// nothing changed, when there is none.
    pub fn update_trigger_condition(
        &mut self,
        id: &str,
        name: String,
        description: String,
        condition: C,
    ) -> (r: Result<(), TriggerError>)
        requires
            old(self).wf(),
        ensures
            final(self).wf(),
            final(self).stamps() == old(self).stamps(),
            r is Ok == position(old(self).triggers(), id@) is Some,
            final(self).triggers() == match position(old(self).triggers(), id@) {
                Some(i) => old(self).triggers().update(
                    i,
                    EventTrigger {
                        name: name,
                        description: description,
                        condition: condition,
                        ..old(self).triggers()[i]
                    },
                ),
                None => old(self).triggers(),
            },
    {
        if let Some(i) = find_trigger(&self.triggers, id) {
            self.triggers[i].name = name;
            self.triggers[i].description = description;
            self.triggers[i].condition = condition;
            Ok(())
        } else {
            Err(TriggerError::NotFound)
        }
    }

    /// Like `update_trigger`; a new pattern comes with its curve (none when none is
    /// given), and a curve given without a pattern replaces the curve alone.
    pub fn update_trigger_with_curve(
        &mut self,
        id: &str,
        cooldown_ms: Option<u64>,
        pattern: Option<P>,
        curve_points: Option<K>,
    ) -> (r: Result<(), TriggerError>)
        requires
            old(self).wf(),
        ensures
            final(self).wf(),
            final(self).stamps() == old(self).stamps(),
            r is Ok == position(old(self).triggers(), id@) is Some,
            final(self).triggers() == match position(old(self).triggers(), id@) {
                Some(i) => old(self).triggers().update(
                    i,
                    with_curve(old(self).triggers()[i], cooldown_ms, pattern, curve_points),
                ),
                None => old(self).triggers(),
            },
    {
        if let Some(i) = find_trigger(&self.triggers, id) {
            if let Some(c) = cooldown_ms {
                self.triggers[i].cooldown_ms = c;
            }
            match pattern {
                Some(p) => {
                    self.triggers[i].pattern = p;
                    self.triggers[i].curve_points = curve_points;
                },
                None => {
                    if curve_points.is_some() {
                        self.triggers[i].curve_points = curve_points;
                    }
                },
            }
            Ok(())
        } else {
            Err(TriggerError::NotFound)
        }
    }

    /// Applies saved settings, in order, each to the trigger found under its id;
    /// settings of unknown ids are passed over.
    pub fn apply_settings(&mut self, settings: Vec<TriggerSettings<P, K>>)
        requires
            old(self).wf(),
        ensures
            final(self).wf(),
            final(self).stamps() == old(self).stamps(),
            final(self).triggers() == applied_settings(old(self).triggers(), settings@),
    {
        let ghost target = applied_settings(self.triggers@, settings@);
        let mut rest = settings;
        while rest.len() > 0
            invariant
                stamps_distinct(self.last_triggered@),
                self.last_triggered@ == old(self).last_triggered@,
                applied_settings(self.triggers@, rest@) == target,
            decreases rest.len(),
        {
            let ghost r0 = rest@;
            let ghost ts0 = self.triggers@;
            let s = rest.remove(0);
            assert(rest@ =~= r0.drop_first());
            assert(applied_settings(ts0, r0) == applied_settings(applied_setting(ts0, s), rest@));
            if let Some(i) = find_trigger(&self.triggers, s.id.as_str()) {
                self.triggers[i].enabled = s.enabled;
                self.triggers[i].cooldown_ms = s.cooldown_ms;
                self.triggers[i].pattern = s.pattern;
                self.triggers[i].curve_points = s.curve_points;
                assert(self.triggers@ =~= applied_setting(ts0, s));
            }
        }
    }

    /// The positions of the triggers the user made (not built in), in order:
    /// the patterns that are exported.
    pub fn user_trigger_positions(&self) -> (r: Vec<usize>)
        ensures
            r@.map_values(|i: usize| i as int) == user_positions(self.triggers(), self.triggers().len() as int),
    {
        let n = self.triggers.len();
        let mut r: Vec<usize> = Vec::new();
        for i in 0..n
            invariant
                n == self.triggers@.len(),
                r@.map_values(|k: usize| k as int) == user_positions(self.triggers@, i as int),
        {
            if !self.triggers[i].is_builtin {
                let ghost before = r@;
                r.push(i);
                assert(r@.map_values(|k: usize| k as int) =~= before.map_values(|k: usize| k as int).push(
                    i as int,
                ));
            }
        }
        r
    }

    /// The position of the first trigger the user made with id `id`: the
    /// pattern that is exported under that id.
    pub fn find_user_trigger(&self, id: &str) -> (r: Option<usize>)
        ensures
            match r {
                Some(i) => {
                    &&& i < self.triggers().len()
                    &&& !self.triggers()[i as int].is_builtin
                    &&& self.triggers()[i as int].id@ == id@
                    &&& forall|j: int|
                        0 <= j < i ==> (#[trigger] self.triggers()[j]).is_builtin || self.triggers()[j].id@
                            != id@
                },
                None => forall|j: int|
                    0 <= j < self.triggers().len() ==> (#[trigger] self.triggers()[j]).is_builtin
                        || self.triggers()[j].id@ != id@,
            },
    {
        let n = self.triggers.len();
        for i in 0..n
            invariant
                n == self.triggers@.len(),
                forall|j: int|
                    0 <= j < i ==> (#[trigger] self.triggers@[j]).is_builtin || self.triggers@[j].id@ != id@,
        {
            if !self.triggers[i].is_builtin && str_eq(self.triggers[i].id.as_str(), id) {
                return Some(i);
            }
        }
        None
    }

    /// How many triggers are switched on.
    pub fn enabled_count(&self) -> (r: usize)
        ensures
            r == enabled_upto(self.triggers(), self.triggers().len() as int),
    {
        let n = self.triggers.len();
        let mut c: usize = 0;
        for i in 0..n
            invariant
                n == self.triggers@.len(),
                c == enabled_upto(self.triggers@, i as int),
                c <= i,
        {
            if self.triggers[i].enabled {
                c = c + 1;
            }
        }
        c
    }

    /// Checks every trigger at time `now` (milliseconds), where `holds[i]` tells
    /// whether the condition of trigger `i` holds. Returns the positions of the
    /// triggers that fire, in order, and starts the cooldowns of those that are
    /// one-shot; a continuous trigger whose condition stopped holding has its
    /// time reset.
    pub fn check_triggers_at(&mut self, now: u64, holds: &Vec<bool>) -> (r: Vec<usize>)
        requires
            old(self).wf(),
            holds.len() == old(self).triggers().len(),
        ensures
            final(self).wf(),
            final(self).triggers() == old(self).triggers(),
            final(self).stamps() == check_all(old(self).triggers(), holds@, now, old(self).stamps()).0,
            r@.map_values(|i: usize| i as int) == check_all(
                old(self).triggers(),
                holds@,
                now,
                old(self).stamps(),
            ).1,
            forall|k: int|
                0 <= k < r.len() ==> {
                    let j = #[trigger] r@[k] as int;
                    &&& j < old(self).triggers().len()
                    &&& old(self).triggers()[j].enabled
                    &&& !old(self).triggers()[j].is_event_based
                    &&& holds@[j]
                },
            forall|j: int|
                0 <= j < old(self).triggers().len() && #[trigger] old(self).triggers()[j].continuous
                    && old(self).triggers()[j].enabled && !old(self).triggers()[j].is_event_based
                    && holds@[j] ==> r@.contains(j as usize),
    {
        let ghost ts = self.triggers@;
        let ghost st0 = self.stamps();
        let mut fired: Vec<usize> = Vec::new();
        let n = self.triggers.len();
        for i in 0..n
            invariant
                n == ts.len(),
                holds@.len() == n,
                self.triggers@ == ts,
                stamps_distinct(self.last_triggered@),
                (stamp_map(self.last_triggered@), fired@.map_values(|x: usize| x as int))
                    == check_run(ts, holds@, now, i as int, (st0, Seq::empty())),
        {
            let ghost before = (stamp_map(self.last_triggered@), fired@.map_values(|x: usize| x as int));
            let ghost t = ts[i as int];
            assert(check_run(ts, holds@, now, i + 1, (st0, Seq::empty())) == check_step(
                t,
                holds@[i as int],
                i as int,
                now,
                before,
            ));
            let enabled = self.triggers[i].enabled;
            let event_based = self.triggers[i].is_event_based;
            let continuous = self.triggers[i].continuous;
            let cooldown = self.triggers[i].cooldown_ms;
            let stamp = find_stamp(&self.last_triggered, self.triggers[i].id.as_str());
            let known = stamp.is_some();
            let blocked = match stamp {
                Some(j) => {
                    proof {
                        lemma_stamp_at(self.last_triggered@, j as int);
                    }
                    let then = self.last_triggered[j].1;
                    let el = if now >= then { now - then } else { 0 };
                    !continuous && el < cooldown
                },
                None => {
                    proof {
                        lemma_stamp_absent(self.last_triggered@, t.id@);
                    }
                    false
                },
            };
            assert(blocked == in_cooldown(t, before.0, now));
            if enabled && !event_based && !blocked {
                if holds[i] {
                    let ghost f0 = fired@;
                    fired.push(i);
                    assert(fired@.map_values(|x: usize| x as int) =~= f0.map_values(
                        |x: usize| x as int,
                    ).push(i as int));
                    if !continuous {
                        let id = self.triggers[i].id.clone();
                        put_stamp(&mut self.last_triggered, &id, now);
                    }
                } else if continuous && known {
                    let id = self.triggers[i].id.clone();
                    put_stamp(&mut self.last_triggered, &id, now);
                }
            }
        }
        proof {
            let fs = check_all(ts, holds@, now, st0).1;
            assert forall|k: int| 0 <= k < fired.len() implies {
                let j = #[trigger] fired@[k] as int;
                &&& j < ts.len()
                &&& ts[j].enabled
                &&& !ts[j].is_event_based
                &&& holds@[j]
            } by {
                assert(fs[k] == fired@[k] as int);
                lemma_run_fired(ts, holds@, now, ts.len() as int, st0, fs[k]);
            }
            assert forall|j: int|
                0 <= j < ts.len() && #[trigger] ts[j].continuous && ts[j].enabled
                    && !ts[j].is_event_based && holds@[j] implies fired@.contains(j as usize) by {
                lemma_run_continuous(ts, holds@, now, ts.len() as int, (st0, Seq::empty()), j);
                let w = choose|w: int| 0 <= w < fs.len() && fs[w] == j;
                assert(fired@[w] as int == j);
            }
        }
        fired
    }
}

} // verus!
