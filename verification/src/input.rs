//! Frame-synchronized input capture: translates raw platform window events
//! plus the frame clock into a deterministic, repeat-aware event stream that
//! is consumed exactly once per frame.
//!
//! The translator keeps a held-key table (button -> timestamp of the first
//! observed press), the last observed modifier set, and the events captured
//! since the last batch was taken. Taking a batch synthesizes one repeat
//! event per still-held key, classified by how long the key has been held
//! relative to the configured repeat threshold.

use vstd::prelude::*;
use crate::time::GameTime;

pub mod command;

verus! {

/// Default repeat threshold: a quarter of a simulated second, in microseconds.
pub const DEFAULT_TEXT_REPEAT_US: u64 = 250_000;

/// A fixed set of four independent modifier flags: a value, not a reference
/// to live keyboard state.
#[derive(Clone, Copy, Debug, PartialEq, Eq, Hash, Structural)]
pub struct Modifiers {
    pub shift: bool,
    pub ctrl: bool,
    pub alt: bool,
    pub super_key: bool,
}

impl Modifiers {
    pub fn new() -> (m: Modifiers)
        ensures
            m == (Modifiers { shift: false, ctrl: false, alt: false, super_key: false }),
    {
        Modifiers { shift: false, ctrl: false, alt: false, super_key: false }
    }
}

/// A button identity: a decoded virtual key, or the reserved mouse bucket.
#[derive(Clone, Copy, Debug, PartialEq, Eq, Hash, Structural)]
pub enum Button {
    VirtualKey(u32),
    Mouse,
}

/// Repeat classification of a virtual-key event. The payload of the repeat
/// variants is the elapsed hold duration, in microseconds, at the moment the
/// per-frame batch was produced.
#[derive(Clone, Copy, Debug, PartialEq, Eq, Structural)]
pub enum Repeat {
    NoRepeat,
    EarlyRepeat(u64),
    TextRepeat(u64),
}

/// One translated input event: a decoded character, or a virtual key with
/// the modifier set and repeat classification in force when it was emitted.
#[derive(Clone, Copy, Debug, PartialEq, Eq, Structural)]
pub enum InputEvent {
    Character(char),
    VirtKey(u32, Modifiers, Repeat),
}

/// Whether a raw key event is a press or a release.
#[derive(Clone, Copy, Debug, PartialEq, Eq, Structural)]
pub enum ElementState {
    Pressed,
    Released,
}

/// The closed set of raw platform window events the translator consumes.
/// A keyboard event whose virtual key could not be decoded carries `None`
/// and leaves the held-key table untouched.
#[derive(Clone, Copy, Debug, PartialEq, Eq)]
pub enum WindowEvent {
    KeyboardInput(ElementState, Option<u32>, Modifiers),
    ReceivedCharacter(char),
    Focused(bool),
    Closed,
}

/// The batch of input events valid for exactly one frame.
#[derive(Debug, PartialEq)]
pub struct InputEvents {
    events: Vec<InputEvent>,
}

impl Clone for InputEvents {
    fn clone(&self) -> (r: InputEvents)
        ensures
            r@ == self@,
    {
        let mut events: Vec<InputEvent> = Vec::new();
        let mut i: usize = 0;
        while i < self.events.len()
            invariant
                0 <= i <= self.events@.len(),
                events@ == self.events@.take(i as int),
            decreases self.events@.len() - i,
        {
            proof {
                assert(self.events@.take(i + 1).drop_last() =~= self.events@.take(i as int));
                assert(self.events@.take(i + 1).last() == self.events@[i as int]);
            }
            events.push(self.events[i]);
            i += 1;
        }
        proof {
            assert(self.events@.take(self.events@.len() as int) =~= self.events@);
        }
        InputEvents { events }
    }
}

impl View for InputEvents {
    type V = Seq<InputEvent>;

    closed spec fn view(&self) -> Seq<InputEvent> {
        self.events@
    }
}

impl InputEvents {
    pub fn new() -> (r: InputEvents)
        ensures
            r@ == Seq::<InputEvent>::empty(),
    {
        let r = InputEvents { events: Vec::new() };
        proof {
            assert(r@ =~= Seq::<InputEvent>::empty());
        }
        r
    }

    pub fn len(&self) -> (r: usize)
        ensures
            r == self@.len(),
    {
        self.events.len()
    }

    pub fn is_empty(&self) -> (r: bool)
        ensures
            r == (self@.len() == 0),
    {
        self.events.is_empty()
    }

    pub fn as_vec(&self) -> (r: &Vec<InputEvent>)
        ensures
            r@ == self@,
    {
        &self.events
    }
}

/// Whether the held-key table `s` has an entry for button `b`.
pub open spec fn table_holds(s: Seq<(Button, u64)>, b: Button) -> bool {
    exists|i: int| 0 <= i < s.len() && (#[trigger] s[i]).0 == b
}

/// Whether the held-key table `s` records button `b` as pressed at time `t`.
pub open spec fn table_has(s: Seq<(Button, u64)>, b: Button, t: u64) -> bool {
    s.contains((b, t))
}

/// A well-formed held-key table has at most one entry per button.
pub open spec fn table_wf(s: Seq<(Button, u64)>) -> bool {
    forall|i: int, j: int| 0 <= i < j < s.len() ==> (#[trigger] s[i]).0 != (#[trigger] s[j]).0
}

/// The held-key table with every entry for button `b` removed.
pub open spec fn table_remove(s: Seq<(Button, u64)>, b: Button) -> Seq<(Button, u64)>
    decreases s.len(),
{
    if s.len() == 0 {
        Seq::empty()
    } else {
        let rest = table_remove(s.drop_last(), b);
        if s.last().0 == b {
            rest
        } else {
            rest.push(s.last())
        }
    }
}

/// The held-key table after a press of button `b` observed at time `t`:
/// a new entry unless the button is already held (idempotent against the
/// platform's auto-repeat of the press signal itself).
pub open spec fn table_press(s: Seq<(Button, u64)>, b: Button, t: u64) -> Seq<(Button, u64)> {
    if table_holds(s, b) {
        s
    } else {
        s.push((b, t))
    }
}

/// How one raw event transforms the held-key table, given the frame-start
/// timestamp `now_us` at which it was observed.
pub open spec fn step_held(s: Seq<(Button, u64)>, evt: WindowEvent, now_us: u64) -> Seq<
    (Button, u64),
> {
    match evt {
        WindowEvent::KeyboardInput(state, key, _mods) => match key {
            Option::Some(k) => match state {
                ElementState::Pressed => table_press(s, Button::VirtualKey(k), now_us),
                ElementState::Released => table_remove(s, Button::VirtualKey(k)),
            },
            Option::None => s,
        },
        WindowEvent::Focused(gained) => if gained {
            s
        } else {
            Seq::empty()
        },
        _ => s,
    }
}

/// How one raw event extends the captured frame events, given the held-key
/// table `s` in force when the event arrived. Only the first press of a
/// not-yet-held key emits an edge-triggered `NoRepeat` event; characters are
/// appended unconditionally; everything else emits nothing.
pub open spec fn step_pending(
    p: Seq<InputEvent>,
    s: Seq<(Button, u64)>,
    evt: WindowEvent,
) -> Seq<InputEvent> {
    match evt {
        WindowEvent::KeyboardInput(state, key, mods) => match key {
            Option::Some(k) => match state {
                ElementState::Pressed => if table_holds(s, Button::VirtualKey(k)) {
                    p
                } else {
                    p.push(InputEvent::VirtKey(k, mods, Repeat::NoRepeat))
                },
                ElementState::Released => p,
            },
            Option::None => p,
        },
        WindowEvent::ReceivedCharacter(ch) => p.push(InputEvent::Character(ch)),
        _ => p,
    }
}

/// How one raw event updates the stored modifier snapshot: every
/// modifier-bearing event replaces it, everything else keeps it.
pub open spec fn step_modifiers(m: Modifiers, evt: WindowEvent) -> Modifiers {
    match evt {
        WindowEvent::KeyboardInput(_state, _key, mods) => mods,
        _ => m,
    }
}

/// Repeat classification of a key pressed at `press_us` when the batch is
/// produced at `now_us`: no synthesized repeat at the exact press instant,
/// an early repeat below the threshold, a text repeat at or above it.
pub open spec fn classify_repeat(press_us: u64, now_us: u64, threshold_us: u64) -> Repeat
    recommends
        press_us <= now_us,
{
    if now_us == press_us {
        Repeat::NoRepeat
    } else if now_us - press_us < threshold_us {
        Repeat::EarlyRepeat((now_us - press_us) as u64)
    } else {
        Repeat::TextRepeat((now_us - press_us) as u64)
    }
}

/// The repeat events synthesized at batch time from the held-key table, in
/// table order: one per held virtual key whose hold duration is nonzero,
/// carrying the *current* modifier snapshot.
pub open spec fn repeat_events(
    held: Seq<(Button, u64)>,
    mods: Modifiers,
    now_us: u64,
    threshold_us: u64,
) -> Seq<InputEvent>
    decreases held.len(),
{
    if held.len() == 0 {
        Seq::empty()
    } else {
        let rest = repeat_events(held.drop_last(), mods, now_us, threshold_us);
        match held.last().0 {
            Button::VirtualKey(k) => if held.last().1 == now_us {
                rest
            } else {
                rest.push(
                    InputEvent::VirtKey(k, mods, classify_repeat(held.last().1, now_us, threshold_us)),
                )
            },
            Button::Mouse => rest,
        }
    }
}

/// Looks up whether the table vector has an entry for button `b`.
fn find_button(keys: &Vec<(Button, u64)>, b: Button) -> (r: bool)
    ensures
        r == table_holds(keys@, b),
{
    let mut i: usize = 0;
    while i < keys.len()
        invariant
            0 <= i <= keys@.len(),
            forall|j: int| 0 <= j < i ==> (#[trigger] keys@[j]).0 != b,
        decreases keys@.len() - i,
    {
        if keys[i].0 == b {
            return true;
        }
        i += 1;
    }
    false
}

/// Rebuilds the table vector without any entry for button `b`.
fn remove_button(keys: &mut Vec<(Button, u64)>, b: Button)
    ensures
        final(keys)@ == table_remove(old(keys)@, b),
{
    let mut out: Vec<(Button, u64)> = Vec::new();
    let mut i: usize = 0;
    proof {
        assert(out@ =~= table_remove(keys@.take(0), b));
    }
    while i < keys.len()
        invariant
            0 <= i <= keys@.len(),
            keys@ == old(keys)@,
            out@ == table_remove(keys@.take(i as int), b),
        decreases keys@.len() - i,
    {
        let pair = keys[i];
        proof {
            assert(keys@.take(i + 1).drop_last() =~= keys@.take(i as int));
            assert(keys@.take(i + 1).last() == keys@[i as int]);
        }
        if pair.0 == b {
        } else {
            out.push(pair);
        }
        i += 1;
    }
    proof {
        assert(keys@.take(keys@.len() as int) =~= keys@);
    }
    *keys = out;
}

/// The input translator: a state machine over raw platform events and the
/// frame clock. Owns the held-key table and the frame-event buffer; nothing
/// else mutates them.
#[derive(Clone, Debug)]
pub struct InputManager {
    frame_events: Vec<InputEvent>,
    keys_down: Vec<(Button, u64)>,
    modifiers: Modifiers,
    text_repeat_us: u64,
}

impl InputManager {
    /// Events captured since the last batch was taken.
    pub closed spec fn pending(self) -> Seq<InputEvent> {
        self.frame_events@
    }

    /// The held-key table: buttons currently held, each with the timestamp
    /// (microseconds) at which its press was first observed.
    pub closed spec fn held(self) -> Seq<(Button, u64)> {
        self.keys_down@
    }

    /// The last observed modifier set.
    pub closed spec fn mods(self) -> Modifiers {
        self.modifiers
    }

    /// The configured repeat threshold, in microseconds.
    pub closed spec fn text_repeat(self) -> u64 {
        self.text_repeat_us
    }

    /// The held-key table never has two entries for one button.
    pub open spec fn wf(self) -> bool {
        table_wf(self.held())
    }

    pub fn new() -> (m: InputManager)
        ensures
            m.pending() == Seq::<InputEvent>::empty(),
            m.held() == Seq::<(Button, u64)>::empty(),
            m.mods() == (Modifiers { shift: false, ctrl: false, alt: false, super_key: false }),
            m.text_repeat() == DEFAULT_TEXT_REPEAT_US,
            m.wf(),
    {
        let m = InputManager {
            frame_events: Vec::new(),
            keys_down: Vec::new(),
            modifiers: Modifiers::new(),
            text_repeat_us: DEFAULT_TEXT_REPEAT_US,
        };
        proof {
            assert(m.pending() =~= Seq::<InputEvent>::empty());
            assert(m.held() =~= Seq::<(Button, u64)>::empty());
        }
        m
    }

    /// Feeds one raw platform event into the translator. `time` is the
    /// current frame clock; a first press is stamped with its frame-start
    /// timestamp. Unrecognized raw events are silently ignored.
    pub fn translate_event(&mut self, evt: &WindowEvent, time: &GameTime)
        requires
            old(self).wf(),
        ensures
            final(self).held() == step_held(old(self).held(), *evt, time.frame_start_us),
            final(self).pending() == step_pending(old(self).pending(), old(self).held(), *evt),
            final(self).mods() == step_modifiers(old(self).mods(), *evt),
            final(self).text_repeat() == old(self).text_repeat(),
            final(self).wf(),
    {
        match *evt {
            WindowEvent::KeyboardInput(state, key, mods) => {
                self.modifiers = mods;
                match key {
                    Option::Some(k) => {
                        let b = Button::VirtualKey(k);
                        match state {
                            ElementState::Pressed => {
                                let already = find_button(&self.keys_down, b);
                                if !already {
                                    self.keys_down.push((b, time.frame_start_time()));
                                    self.frame_events.push(
                                        InputEvent::VirtKey(k, mods, Repeat::NoRepeat),
                                    );
                                }
                            },
                            ElementState::Released => {
                                remove_button(&mut self.keys_down, b);
                                proof {
                                    lemma_table_remove_wf(old(self).held(), b);
                                }
                            },
                        }
                    },
                    Option::None => {},
                }
            },
            WindowEvent::ReceivedCharacter(ch) => {
                self.frame_events.push(InputEvent::Character(ch));
            },
            WindowEvent::Focused(gained) => {
                if !gained {
                    self.keys_down.clear();
                    proof {
                        assert(self.held() =~= Seq::<(Button, u64)>::empty());
                    }
                }
            },
            WindowEvent::Closed => {},
        }
    }

    /// Takes the per-frame batch: the events captured since the last batch,
    /// followed by one synthesized repeat event per held virtual key whose
    /// hold duration is nonzero. The captured buffer is reset (events are
    /// consumed exactly once); the held-key table is left untouched.
    ///
    /// The frame clock never runs backwards, so every recorded press
    /// timestamp is at or before the current frame start.
    pub fn get_events(&mut self, time: &GameTime) -> (r: InputEvents)
        requires
            old(self).wf(),
            forall|i: int| 0 <= i < old(self).held().len() ==> (#[trigger] old(self).held()[i]).1
                <= time.frame_start_us,
        ensures
            r@ == old(self).pending() + repeat_events(
                old(self).held(),
                old(self).mods(),
                time.frame_start_us,
                old(self).text_repeat(),
            ),
            final(self).pending() == Seq::<InputEvent>::empty(),
            final(self).held() == old(self).held(),
            final(self).mods() == old(self).mods(),
            final(self).text_repeat() == old(self).text_repeat(),
            final(self).wf(),
    {
        let mut taken: Vec<InputEvent> = Vec::new();
        core::mem::swap(&mut taken, &mut self.frame_events);

        let ghost pre_held = self.keys_down@;
        let now = time.frame_start_time();
        let mut i: usize = 0;
        proof {
            assert(taken@ + repeat_events(
                pre_held.take(0),
                self.modifiers,
                now,
                self.text_repeat_us,
            ) =~= taken@);
        }
        while i < self.keys_down.len()
            invariant
                0 <= i <= self.keys_down@.len(),
                self.keys_down@ == pre_held,
                self.frame_events@.len() == 0,
                forall|j: int| 0 <= j < pre_held.len() ==> (#[trigger] pre_held[j]).1 <= now,
                taken@ == old(self).pending() + repeat_events(
                    pre_held.take(i as int),
                    self.modifiers,
                    now,
                    self.text_repeat_us,
                ),
                self.modifiers == old(self).mods(),
                self.text_repeat_us == old(self).text_repeat(),
            decreases self.keys_down@.len() - i,
        {
            let pair = self.keys_down[i];
            proof {
                assert(pre_held.take(i + 1).drop_last() =~= pre_held.take(i as int));
                assert(pre_held.take(i + 1).last() == pre_held[i as int]);
            }
            match pair.0 {
                Button::VirtualKey(k) => {
                    if pair.1 != now {
                        let dur = now - pair.1;
                        let rep = if dur < self.text_repeat_us {
                            Repeat::EarlyRepeat(dur)
                        } else {
                            Repeat::TextRepeat(dur)
                        };
                        taken.push(InputEvent::VirtKey(k, self.modifiers, rep));
                    }
                },
                Button::Mouse => {},
            }
            i += 1;
        }
        proof {
            assert(pre_held.take(pre_held.len() as int) =~= pre_held);
        }
        InputEvents { events: taken }
    }

    /// Whether the given virtual key is currently held.
    pub fn is_key_down(&self, key: u32) -> (r: bool)
        ensures
            r == table_holds(self.held(), Button::VirtualKey(key)),
    {
        find_button(&self.keys_down, Button::VirtualKey(key))
    }
}

impl Default for InputManager {
    fn default() -> (m: InputManager)
        ensures
            m.pending() == Seq::<InputEvent>::empty(),
            m.held() == Seq::<(Button, u64)>::empty(),
            m.mods() == (Modifiers { shift: false, ctrl: false, alt: false, super_key: false }),
            m.text_repeat() == DEFAULT_TEXT_REPEAT_US,
            m.wf(),
    {
        InputManager::new()
    }
}

/// Removing a button keeps the table well-formed.
pub proof fn lemma_table_remove_wf(s: Seq<(Button, u64)>, b: Button)
    requires
        table_wf(s),
    ensures
        table_wf(table_remove(s, b)),
    decreases s.len(),
{
    if s.len() > 0 {
        assert(table_wf(s.drop_last()));
        lemma_table_remove_wf(s.drop_last(), b);
        lemma_table_remove_entries(s.drop_last(), b);
        let rest = table_remove(s.drop_last(), b);
        if s.last().0 != b {
            let r = rest.push(s.last());
            assert forall|i: int, j: int| 0 <= i < j < r.len() implies (#[trigger] r[i]).0 != (
            #[trigger] r[j]).0 by {
                if j == r.len() - 1 {
                    assert(rest.contains(rest[i]));
                    assert(s.drop_last().contains(rest[i]));
                    let k = choose|k: int|
                        0 <= k < s.drop_last().len() && s.drop_last()[k] == rest[i];
                    assert(s[k] == rest[i]);
                    assert(s[k].0 != s[s.len() - 1].0);
                } else {
                    assert(rest[i].0 != rest[j].0);
                }
            }
        }
    }
}

/// The entries of the table after a removal are exactly the entries of the
/// original table whose button differs from the removed one.
pub proof fn lemma_table_remove_entries(s: Seq<(Button, u64)>, b: Button)
    ensures
        forall|p: (Button, u64)| #[trigger] table_remove(s, b).contains(p) <==> (s.contains(p)
            && p.0 != b),
    decreases s.len(),
{
    if s.len() > 0 {
        lemma_table_remove_entries(s.drop_last(), b);
        assert forall|p: (Button, u64)| #[trigger] s.contains(p) && p.0 != b implies table_remove(
            s,
            b,
        ).contains(p) by {
            let r = table_remove(s, b);
            let rest = table_remove(s.drop_last(), b);
            let i = choose|i: int| 0 <= i < s.len() && s[i] == p;
            if i < s.len() - 1 {
                assert(s.drop_last()[i] == p);
                assert(s.drop_last().contains(p));
                assert(rest.contains(p));
                let j = choose|j: int| 0 <= j < rest.len() && rest[j] == p;
                if s.last().0 != b {
                    assert(r[j] == p);
                }
                assert(r.contains(p));
            } else {
                assert(p == s.last());
                assert(r[r.len() - 1] == p);
                assert(r.contains(p));
            }
        }
        assert forall|p: (Button, u64)| #[trigger] table_remove(s, b).contains(p) implies s
            .contains(p) && p.0 != b by {
            let r = table_remove(s, b);
            let rest = table_remove(s.drop_last(), b);
            let i = choose|i: int| 0 <= i < r.len() && r[i] == p;
            if s.last().0 == b {
                assert(rest.contains(p));
            } else {
                if i < r.len() - 1 {
                    assert(rest[i] == p);
                    assert(rest.contains(p));
                } else {
                    assert(p == s.last());
                }
            }
            if rest.contains(p) {
                let j = choose|j: int| 0 <= j < s.drop_last().len() && s.drop_last()[j] == p;
                assert(s[j] == p);
                assert(s.contains(p));
            }
        }
    }
}

/// Pressing a button makes it held and leaves every other button's presence
/// exactly as it was.
pub proof fn lemma_table_press_holds(s: Seq<(Button, u64)>, b: Button, t: u64, b2: Button)
    ensures
        table_holds(table_press(s, b, t), b2) <==> (b2 == b || table_holds(s, b2)),
{
    if !table_holds(s, b) {
        let r = s.push((b, t));
        assert(r[s.len() as int] == (b, t));
        if table_holds(r, b2) {
            let i = choose|i: int| 0 <= i < r.len() && r[i].0 == b2;
            if i < s.len() {
                assert(s[i].0 == b2);
            }
        }
        if table_holds(s, b2) {
            let i = choose|i: int| 0 <= i < s.len() && s[i].0 == b2;
            assert(r[i].0 == b2);
        }
    }
}

/// A release removes exactly the released button's entry and no others: the
/// released button is no longer held, and every other button keeps both its
/// presence and its recorded press timestamp.
pub proof fn lemma_release_removes_exactly_one(
    s: Seq<(Button, u64)>,
    b: Button,
    b2: Button,
    t2: u64,
)
    ensures
        !table_holds(table_remove(s, b), b),
        b2 != b ==> (table_holds(table_remove(s, b), b2) <==> table_holds(s, b2)),
        b2 != b ==> (table_has(table_remove(s, b), b2, t2) <==> table_has(s, b2, t2)),
{
    lemma_table_remove_entries(s, b);
    let r = table_remove(s, b);
    if table_holds(r, b) {
        let i = choose|i: int| 0 <= i < r.len() && r[i].0 == b;
        assert(r.contains(r[i]));
    }
    if b2 != b {
        if table_holds(r, b2) {
            let i = choose|i: int| 0 <= i < r.len() && r[i].0 == b2;
            assert(r.contains(r[i]));
            let j = choose|j: int| 0 <= j < s.len() && s[j] == r[i];
            assert(s[j].0 == b2);
        }
        if table_holds(s, b2) {
            let i = choose|i: int| 0 <= i < s.len() && s[i].0 == b2;
            assert(s.contains(s[i]));
            assert(r.contains(s[i]));
            let j = choose|j: int| 0 <= j < r.len() && r[j] == s[i];
            assert(r[j].0 == b2);
        }
    }
}

/// Pressing a button that is already held changes nothing: no new table
/// entry, no timestamp change, and no additional edge-triggered event in the
/// frame buffer — so no later batch can gain a second `NoRepeat` event from
/// a press that arrives while the key is held.
pub proof fn lemma_press_while_held_is_noop(
    p: Seq<InputEvent>,
    s: Seq<(Button, u64)>,
    k: u32,
    mods: Modifiers,
    now_us: u64,
)
    requires
        table_holds(s, Button::VirtualKey(k)),
    ensures
        step_held(s, WindowEvent::KeyboardInput(ElementState::Pressed, Option::Some(k), mods), now_us)
            == s,
        step_pending(p, s, WindowEvent::KeyboardInput(ElementState::Pressed, Option::Some(k), mods))
            == p,
{
}

/// A focus-lost event empties the held-key table no matter how many keys are
/// held, and a batch taken afterwards (at any time, with any modifiers and
/// threshold) synthesizes zero repeat events.
pub proof fn lemma_focus_lost_clears(
    s: Seq<(Button, u64)>,
    now_us: u64,
    mods: Modifiers,
    batch_us: u64,
    threshold_us: u64,
)
    ensures
        step_held(s, WindowEvent::Focused(false), now_us) == Seq::<(Button, u64)>::empty(),
        repeat_events(
            step_held(s, WindowEvent::Focused(false), now_us),
            mods,
            batch_us,
            threshold_us,
        ) == Seq::<InputEvent>::empty(),
{
}

/// Whether an event is the edge-triggered first press of a hold.
pub open spec fn is_edge_event(e: InputEvent) -> bool {
    match e {
        InputEvent::VirtKey(_k, _m, rep) => rep is NoRepeat,
        InputEvent::Character(_ch) => false,
    }
}

/// Synthesized repeat events are never edge-triggered.
pub proof fn lemma_repeats_are_never_edges(
    held: Seq<(Button, u64)>,
    mods: Modifiers,
    now_us: u64,
    threshold_us: u64,
)
    ensures
        forall|i: int| 0 <= i < repeat_events(held, mods, now_us, threshold_us).len()
            ==> !is_edge_event(#[trigger] repeat_events(held, mods, now_us, threshold_us)[i]),
    decreases held.len(),
{
    if held.len() > 0 {
        lemma_repeats_are_never_edges(held.drop_last(), mods, now_us, threshold_us);
        let r = repeat_events(held, mods, now_us, threshold_us);
        let rest = repeat_events(held.drop_last(), mods, now_us, threshold_us);
        assert forall|i: int| 0 <= i < r.len() implies !is_edge_event(#[trigger] r[i]) by {
            if i < rest.len() {
                assert(r[i] == rest[i]);
            } else {
                assert(!is_edge_event(r[i]));
            }
        }
    }
}

/// A batch never returns the same edge-triggered event twice across two
/// consecutive calls: taking a batch resets the frame buffer, so a second
/// batch with no raw events in between consists of synthesized repeats only,
/// and none of those is edge-triggered.
pub proof fn lemma_no_edge_event_twice(
    held: Seq<(Button, u64)>,
    mods: Modifiers,
    now_us: u64,
    threshold_us: u64,
)
    ensures
        forall|i: int|
            0 <= i < (Seq::<InputEvent>::empty() + repeat_events(held, mods, now_us, threshold_us)).len()
                ==> !is_edge_event(
                #[trigger] (Seq::<InputEvent>::empty() + repeat_events(held, mods, now_us, threshold_us))[i],
            ),
{
    lemma_repeats_are_never_edges(held, mods, now_us, threshold_us);
    assert(Seq::<InputEvent>::empty() + repeat_events(held, mods, now_us, threshold_us)
        =~= repeat_events(held, mods, now_us, threshold_us));
}

/// The held-key table obtained by running a sequence of timed raw events
/// from an empty table.
pub open spec fn run_table(evts: Seq<(WindowEvent, u64)>) -> Seq<(Button, u64)>
    decreases evts.len(),
{
    if evts.len() == 0 {
        Seq::empty()
    } else {
        step_held(run_table(evts.drop_last()), evts.last().0, evts.last().1)
    }
}

/// Whether the most recent event concerning button `b` in `evts` is a press
/// that was not yet followed by a release of `b` or by a focus loss.
pub open spec fn pressed_unreleased(evts: Seq<(WindowEvent, u64)>, b: Button) -> bool
    decreases evts.len(),
{
    if evts.len() == 0 {
        false
    } else {
        match evts.last().0 {
            WindowEvent::KeyboardInput(state, key, _mods) => match key {
                Option::Some(k) => if Button::VirtualKey(k) == b {
                    match state {
                        ElementState::Pressed => true,
                        ElementState::Released => false,
                    }
                } else {
                    pressed_unreleased(evts.drop_last(), b)
                },
                Option::None => pressed_unreleased(evts.drop_last(), b),
            },
            WindowEvent::Focused(gained) => if gained {
                pressed_unreleased(evts.drop_last(), b)
            } else {
                false
            },
            _ => pressed_unreleased(evts.drop_last(), b),
        }
    }
}

/// For every sequence of raw events, the held-key table has an entry for a
/// button exactly when the most recent event for that button was a press not
/// yet followed by a release or a focus loss.
pub proof fn lemma_held_iff_pressed_unreleased(evts: Seq<(WindowEvent, u64)>, b: Button)
    ensures
        table_holds(run_table(evts), b) <==> pressed_unreleased(evts, b),
    decreases evts.len(),
{
    if evts.len() > 0 {
        lemma_held_iff_pressed_unreleased(evts.drop_last(), b);
        let s = run_table(evts.drop_last());
        let now_us = evts.last().1;
        match evts.last().0 {
            WindowEvent::KeyboardInput(state, key, _mods) => match key {
                Option::Some(k) => {
                    let kb = Button::VirtualKey(k);
                    match state {
                        ElementState::Pressed => {
                            lemma_table_press_holds(s, kb, now_us, b);
                        },
                        ElementState::Released => {
                            lemma_release_removes_exactly_one(s, kb, b, 0);
                        },
                    }
                },
                Option::None => {},
            },
            _ => {},
        }
    }
}

} // verus!
