//! Properties of the keyboard state machine over sequences of events.

use crate::keyboard::{
    applicable, combos_wf, conflict, distinct_keys, first_index, is_first_index, is_first_match,
    keys_wf, lemma_first_index, lemma_first_match_unique, matched_event, mode_after, modes_overlap,
    prefix_of, sets_wf, step, KbState, default_global,
};
use crate::events::ChangeMode;
use crate::keys::{EventType, Key, ACTIVATION_KEY};
use crate::events::ScreenReaderEvent as OdiliaEvent;
use crate::modes::ScreenReaderMode as Mode;
use vstd::prelude::*;

verus! {

/// The state after a sequence of events, each handled by [`step`].
pub open spec fn run(s: KbState, evs: Seq<EventType>) -> KbState
    decreases evs.len(),
{
    if evs.len() == 0 {
        s
    } else {
        step(run(s, evs.drop_last()), evs.last()).0
    }
}

/// Whether every event of the sequence is swallowed.
pub open spec fn all_swallowed(s: KbState, evs: Seq<EventType>) -> bool {
    forall|t: int| 0 <= t < evs.len() ==> !(#[trigger] step(run(s, evs.take(t)), evs[t])).1
}

/// Pressing each key of `ks`, in order.
pub open spec fn presses(ks: Seq<Key>) -> Seq<EventType> {
    ks.map_values(|k: Key| EventType::KeyPress(k))
}

/// Releasing each key of `ks`, in order.
pub open spec fn releases(ks: Seq<Key>) -> Seq<EventType> {
    ks.map_values(|k: Key| EventType::KeyRelease(k))
}

/// In a valid list of mode sets, two different combos that are live at the same time never run
/// into each other.
pub proof fn lemma_live_combos_do_not_conflict(
    sets: Seq<(Option<Mode>, Seq<(Seq<Key>, OdiliaEvent)>)>,
    cur: Mode,
    i: int,
    j: int,
    i2: int,
    j2: int,
)
    requires
        sets_wf(sets),
        0 <= i < sets.len(),
        0 <= j < sets[i].1.len(),
        0 <= i2 < sets.len(),
        0 <= j2 < sets[i2].1.len(),
        applicable(sets[i].0, cur),
        applicable(sets[i2].0, cur),
        i != i2 || j != j2,
    ensures
        !conflict(sets[i].1[j].0, sets[i2].1[j2].0),
{
    if i == i2 {
        assert(combos_wf(sets[i].1));
        if j < j2 {
            assert(!conflict(sets[i].1[j].0, sets[i].1[j2].0));
        } else {
            assert(!conflict(sets[i].1[j2].0, sets[i].1[j].0));
        }
    } else {
        assert(modes_overlap(sets[i].0, sets[i2].0));
        if i < i2 {
            assert(!conflict(sets[i].1[j].0, sets[i2].1[j2].0));
        } else {
            assert(modes_overlap(sets[i2].0, sets[i].0));
            assert(!conflict(sets[i2].1[j2].0, sets[i].1[j].0));
        }
    }
}

/// Pressing the first `t` keys of a live combo, after the activation key and with no key held,
/// holds exactly those keys and sends nothing, as long as the combo is not complete.
proof fn lemma_press_prefix(s: KbState, i: int, j: int, t: int)
    requires
        sets_wf(s.combos),
        0 <= i < s.combos.len(),
        0 <= j < s.combos[i].1.len(),
        applicable(s.combos[i].0, s.mode),
        s.activation_key_pressed,
        s.pressed.len() == 0,
        0 <= t < s.combos[i].1[j].0.len(),
    ensures
        run(s, presses(s.combos[i].1[j].0.take(t))) == (KbState {
            pressed: s.combos[i].1[j].0.take(t),
            ..s
        }),
        all_swallowed(s, presses(s.combos[i].1[j].0.take(t))),
    decreases t,
{
    let ks = s.combos[i].1[j].0;
    assert(combos_wf(s.combos[i].1));
    assert(keys_wf(ks));
    if t == 0 {
        assert(presses(ks.take(0)) =~= Seq::<EventType>::empty());
        assert(s.pressed =~= ks.take(0));
    } else {
        lemma_press_prefix(s, i, j, t - 1);
        let prev = KbState { pressed: ks.take(t - 1), ..s };
        let k = ks[t - 1];
        assert(presses(ks.take(t)) =~= presses(ks.take(t - 1)).push(EventType::KeyPress(k)));
        assert(presses(ks.take(t)).drop_last() =~= presses(ks.take(t - 1)));
        assert(k != ACTIVATION_KEY) by {
            assert(ks.contains(k));
        }
        assert(!prev.pressed.contains(k)) by {
            if prev.pressed.contains(k) {
                let x = choose|x: int| 0 <= x < prev.pressed.len() && prev.pressed[x] == k;
                assert(ks[x] == ks[t - 1]);
            }
        }
        let p = ks.take(t);
        assert(prev.pressed.push(k) =~= p);
        assert(!exists|i2: int, j2: int| is_first_match(s.combos, s.mode, p, i2, j2)) by {
            if exists|i2: int, j2: int| is_first_match(s.combos, s.mode, p, i2, j2) {
                let (i2, j2) = choose|i2: int, j2: int| is_first_match(s.combos, s.mode, p, i2, j2);
                assert(s.combos[i2].1[j2].0 == p);
                assert(prefix_of(p, ks));
                if i2 == i && j2 == j {
                    assert(p.len() < ks.len());
                } else {
                    lemma_live_combos_do_not_conflict(s.combos, s.mode, i, j, i2, j2);
                }
            }
        }
        assert(matched_event(s.combos, s.mode, p) is None);
        assert forall|u: int| 0 <= u < presses(ks.take(t)).len() implies !(#[trigger] step(
            run(s, presses(ks.take(t)).take(u)),
            presses(ks.take(t))[u],
        )).1 by {
            if u < t - 1 {
                assert(presses(ks.take(t)).take(u) =~= presses(ks.take(t - 1)).take(u));
                assert(presses(ks.take(t))[u] == presses(ks.take(t - 1))[u]);
            } else {
                assert(presses(ks.take(t)).take(u) =~= presses(ks.take(t - 1)));
            }
        }
    }
}

/// Pressing all keys of a live combo sends the combo's event, once, at the last key.
proof fn lemma_press_all(s: KbState, i: int, j: int)
    requires
        sets_wf(s.combos),
        0 <= i < s.combos.len(),
        0 <= j < s.combos[i].1.len(),
        applicable(s.combos[i].0, s.mode),
        s.activation_key_pressed,
        s.pressed.len() == 0,
    ensures
        run(s, presses(s.combos[i].1[j].0)) == (KbState {
            pressed: s.combos[i].1[j].0,
            mode: mode_after(s.combos[i].1[j].1, s.mode),
            outbox: s.outbox.push(s.combos[i].1[j].1),
            ..s
        }),
        all_swallowed(s, presses(s.combos[i].1[j].0)),
{
    let ks = s.combos[i].1[j].0;
    let n = ks.len() as int;
    assert(n > 0);
    assert(combos_wf(s.combos[i].1));
    assert(keys_wf(ks));
    lemma_press_prefix(s, i, j, n - 1);
    let prev = KbState { pressed: ks.take(n - 1), ..s };
    let k = ks[n - 1];
    assert(ks.take(n) =~= ks);
    assert(presses(ks) =~= presses(ks.take(n - 1)).push(EventType::KeyPress(k)));
    assert(presses(ks).drop_last() =~= presses(ks.take(n - 1)));
    assert(k != ACTIVATION_KEY) by {
        assert(ks.contains(k));
    }
    assert(!prev.pressed.contains(k)) by {
        if prev.pressed.contains(k) {
            let x = choose|x: int| 0 <= x < prev.pressed.len() && prev.pressed[x] == k;
            assert(ks[x] == ks[n - 1]);
        }
    }
    assert(prev.pressed.push(k) =~= ks);
    assert(is_first_match(s.combos, s.mode, ks, i, j)) by {
        assert forall|i2: int, j2: int|
            0 <= i2 < i && applicable(s.combos[i2].0, s.mode) && 0 <= j2 < s.combos[i2].1.len()
                implies #[trigger] s.combos[i2].1[j2].0 != ks by {
            lemma_live_combos_do_not_conflict(s.combos, s.mode, i, j, i2, j2);
        }
        assert forall|j2: int| 0 <= j2 < j implies #[trigger] s.combos[i].1[j2].0 != ks by {
            lemma_live_combos_do_not_conflict(s.combos, s.mode, i, j, i, j2);
        }
    }
    lemma_first_match_unique(s.combos, s.mode, ks, i, j);
    assert forall|u: int| 0 <= u < presses(ks).len() implies !(#[trigger] step(
        run(s, presses(ks).take(u)),
        presses(ks)[u],
    )).1 by {
        if u < n - 1 {
            assert(presses(ks).take(u) =~= presses(ks.take(n - 1)).take(u));
            assert(presses(ks)[u] == presses(ks.take(n - 1))[u]);
        } else {
            assert(presses(ks).take(u) =~= presses(ks.take(n - 1)));
        }
    }
}

/// Releasing the first `u` keys of a held combo, in order, lets go of exactly those keys and
/// changes nothing else.
proof fn lemma_release_prefix(s: KbState, pre: Seq<EventType>, ks: Seq<Key>, u: int)
    requires
        keys_wf(ks),
        run(s, pre).pressed == ks,
        0 <= u <= ks.len(),
    ensures
        run(s, pre + releases(ks.take(u))) == (KbState { pressed: ks.skip(u), ..run(s, pre) }),
        forall|v: int|
            0 <= v < u ==> !(#[trigger] step(
                run(s, pre + releases(ks.take(v))),
                EventType::KeyRelease(ks[v]),
            )).1,
    decreases u,
{
    let base = run(s, pre);
    if u == 0 {
        assert(pre + releases(ks.take(0)) =~= pre);
        assert(ks.skip(0) =~= ks);
    } else {
        lemma_release_prefix(s, pre, ks, u - 1);
        let k = ks[u - 1];
        let evs = pre + releases(ks.take(u));
        assert(evs.drop_last() =~= pre + releases(ks.take(u - 1)));
        assert(evs.last() == EventType::KeyRelease(k));
        let held = ks.skip(u - 1);
        assert(held[0] == k);
        assert(k != ACTIVATION_KEY) by {
            assert(ks.contains(k));
        }
        assert(held.contains(k));
        lemma_first_index(held, k, 0);
        assert(held.remove(0) =~= ks.skip(u));
    }
}

/// Every key combo of a valid set of bindings does what it is bound to: with the activation key
/// held and no other key down, pressing the combo's keys in order swallows every press, sends
/// nothing until the last key, and then sends the combo's event exactly once (taking up the
/// new mode of a mode change); releasing the keys in order swallows every release and leaves
/// no key held.
pub proof fn law_combo_triggers_its_event(s: KbState, i: int, j: int)
    requires
        sets_wf(s.combos),
        0 <= i < s.combos.len(),
        0 <= j < s.combos[i].1.len(),
        applicable(s.combos[i].0, s.mode),
        s.activation_key_pressed,
        s.pressed.len() == 0,
    ensures
        forall|t: int|
            0 <= t < s.combos[i].1[j].0.len() ==> (#[trigger] run(
                s,
                presses(s.combos[i].1[j].0.take(t)),
            )).outbox == s.outbox,
        run(s, presses(s.combos[i].1[j].0)).outbox == s.outbox.push(s.combos[i].1[j].1),
        run(s, presses(s.combos[i].1[j].0)).mode == mode_after(s.combos[i].1[j].1, s.mode),
        all_swallowed(s, presses(s.combos[i].1[j].0)),
        run(s, presses(s.combos[i].1[j].0) + releases(s.combos[i].1[j].0)).pressed.len() == 0,
        run(s, presses(s.combos[i].1[j].0) + releases(s.combos[i].1[j].0)).outbox == s.outbox.push(
            s.combos[i].1[j].1,
        ),
        forall|v: int|
            0 <= v < s.combos[i].1[j].0.len() ==> !(#[trigger] step(
                run(
                    s,
                    presses(s.combos[i].1[j].0) + releases(s.combos[i].1[j].0.take(v)),
                ),
                EventType::KeyRelease(s.combos[i].1[j].0[v]),
            )).1,
{
    let ks = s.combos[i].1[j].0;
    assert forall|t: int| 0 <= t < ks.len() implies (#[trigger] run(s, presses(ks.take(t)))).outbox
        == s.outbox by {
        lemma_press_prefix(s, i, j, t);
    }
    lemma_press_all(s, i, j);
    assert(combos_wf(s.combos[i].1));
    lemma_release_prefix(s, presses(ks), ks, ks.len() as int);
    assert(ks.take(ks.len() as int) =~= ks);
}

/// With the activation key up and no key held, a key release changes nothing and is passed
/// through, whatever the key; so is any sequence of releases.
pub proof fn law_releases_pass_through(s: KbState, evs: Seq<EventType>)
    requires
        !s.activation_key_pressed,
        s.pressed.len() == 0,
        forall|t: int| 0 <= t < evs.len() ==> (#[trigger] evs[t]) is KeyRelease,
    ensures
        run(s, evs) == s,
        forall|t: int| 0 <= t < evs.len() ==> (#[trigger] step(run(s, evs.take(t)), evs[t])) == (s, true),
    decreases evs.len(),
{
    if evs.len() > 0 {
        law_releases_pass_through(s, evs.drop_last());
        assert(evs.last() is KeyRelease);
        assert forall|t: int| 0 <= t < evs.len() implies (#[trigger] step(
            run(s, evs.take(t)),
            evs[t],
        )) == (s, true) by {
            if t < evs.len() - 1 {
                assert(evs.take(t) =~= evs.drop_last().take(t));
                assert(evs[t] == evs.drop_last()[t]);
            } else {
                assert(evs.take(t) =~= evs.drop_last());
            }
        }
    }
}

/// The activation key is always swallowed when pressed, and swallowed when released while it
/// is held.
pub proof fn law_activation_key_swallowed(s: KbState)
    ensures
        !step(s, EventType::KeyPress(ACTIVATION_KEY)).1,
        step(s, EventType::KeyPress(ACTIVATION_KEY)).0.activation_key_pressed,
        s.activation_key_pressed ==> !step(s, EventType::KeyRelease(ACTIVATION_KEY)).1,
        s.activation_key_pressed ==> !step(s, EventType::KeyRelease(ACTIVATION_KEY)).0.activation_key_pressed,
{
}

/// A key other than the activation key, pressed or released while the activation key is up
/// and the key is not held from an activation, is passed through and changes nothing.
pub proof fn law_unheld_keys_pass_through(s: KbState, k: Key)
    requires
        k != ACTIVATION_KEY,
        !s.activation_key_pressed,
        !s.pressed.contains(k),
    ensures
        step(s, EventType::KeyPress(k)) == (s, true),
        step(s, EventType::KeyRelease(k)) == (s, true),
{
}

/// Pointer events are always passed through and change nothing.
pub proof fn law_pointer_events_pass_through(s: KbState, et: EventType)
    requires
        !(et is KeyPress),
        !(et is KeyRelease),
    ensures
        step(s, et) == (s, true),
{
}

/// A key released after having been pressed during activation is swallowed, even once the
/// activation key is up, and is no longer held.
pub proof fn law_held_key_release_swallowed(s: KbState, k: Key)
    requires
        k != ACTIVATION_KEY,
        s.pressed.contains(k),
        distinct_keys(s.pressed),
    ensures
        !step(s, EventType::KeyRelease(k)).1,
        !step(s, EventType::KeyRelease(k)).0.pressed.contains(k),
{
    let i = choose|i: int| 0 <= i < s.pressed.len() && s.pressed[i] == k;
    let f = first_index(s.pressed, k);
    assert forall|x: int| 0 <= x < i implies s.pressed[x] != k by {}
    assert(is_first_index(s.pressed, k, i));
    lemma_first_index(s.pressed, k, i);
    let r = s.pressed.remove(i);
    if r.contains(k) {
        let x = choose|x: int| 0 <= x < r.len() && r[x] == k;
        if x < i {
            assert(s.pressed[x] == k);
        } else {
            assert(s.pressed[x + 1] == k);
        }
    }
}

/// While the activation key is held, pressing a key that is already held (as the keyboard's
/// auto-repeat does) is swallowed and leaves the state as it was: no key is added, no event is
/// raised, the mode stays.
pub proof fn law_repeated_press_swallowed(s: KbState, k: Key)
    requires
        s.activation_key_pressed,
        s.pressed.contains(k),
    ensures
        step(s, EventType::KeyPress(k)) == (s, false),
{
}

/// With the global combos of the default bindings as the first set, and nothing held, pressing
/// the activation key and then `f` raises the change to focus mode, once, and focus mode is
/// entered; pressing it and then `b` raises the change to browse mode and enters browse mode.
/// This holds in every mode and whatever the other sets are.
pub proof fn law_default_mode_keys(s: KbState)
    requires
        s.combos.len() > 0,
        s.combos[0] == (None::<Mode>, default_global()),
        s.pressed.len() == 0,
    ensures
        ({
            let a = step(s, EventType::KeyPress(ACTIVATION_KEY)).0;
            let (t, pass) = step(a, EventType::KeyPress(Key::KeyF));
            &&& !pass
            &&& t.mode == Mode::Focus
            &&& t.outbox == s.outbox.push(OdiliaEvent::ChangeMode(ChangeMode(Mode::Focus)))
            &&& t.pressed == seq![Key::KeyF]
            &&& t.activation_key_pressed
            &&& t.combos == s.combos
        }),
        ({
            let a = step(s, EventType::KeyPress(ACTIVATION_KEY)).0;
            let (t, pass) = step(a, EventType::KeyPress(Key::KeyB));
            &&& !pass
            &&& t.mode == Mode::Browse
            &&& t.outbox == s.outbox.push(OdiliaEvent::ChangeMode(ChangeMode(Mode::Browse)))
            &&& t.pressed == seq![Key::KeyB]
            &&& t.activation_key_pressed
            &&& t.combos == s.combos
        }),
{
    let a = step(s, EventType::KeyPress(ACTIVATION_KEY)).0;
    let g = default_global();
    assert(Key::KeyF != ACTIVATION_KEY);
    assert(Key::KeyB != ACTIVATION_KEY);
    assert(a.pressed.push(Key::KeyF) =~= seq![Key::KeyF]);
    assert(a.pressed.push(Key::KeyB) =~= seq![Key::KeyB]);
    assert(!a.pressed.contains(Key::KeyF));
    assert(!a.pressed.contains(Key::KeyB));
    assert(is_first_match(a.combos, a.mode, seq![Key::KeyF], 0, 0));
    lemma_first_match_unique(a.combos, a.mode, seq![Key::KeyF], 0, 0);
    assert(g[0].0 != seq![Key::KeyB]) by {
        assert(g[0].0[0] != seq![Key::KeyB][0]);
    }
    assert(g[1].0 != seq![Key::KeyB]) by {
        assert(g[1].0[0] != seq![Key::KeyB][0]);
    }
    assert(is_first_match(a.combos, a.mode, seq![Key::KeyB], 0, 2));
    lemma_first_match_unique(a.combos, a.mode, seq![Key::KeyB], 0, 2);
}

} // verus!
