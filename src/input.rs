//! Frame-coherent input state: per key or button, a small state machine
//! driven by press and release events and aged once per frame.

use vstd::prelude::*;

verus! {

/// The state of one key or button, as seen by the layers during a frame.
#[derive(Clone, Copy, Debug, PartialEq, Eq, Structural)]
pub enum InputState {
    PressedThisFrame,
    ReleasedThisFrame,
    Held,
    Idle,
}

/// Whether a key or button went down or up.
#[derive(Clone, Copy, Debug, PartialEq, Eq, Structural)]
pub enum ElementState {
    Pressed,
    Released,
}

/// A keyboard key: a known key code, or a platform code that has no name.
#[derive(Clone, Copy, Debug, PartialEq, Eq, Structural)]
pub enum Key {
    Code(u32),
    Unidentified(u32),
}

/// A mouse button.
#[derive(Clone, Copy, Debug, PartialEq, Eq, Structural)]
pub enum MouseButton {
    Left,
    Right,
    Middle,
    Back,
    Forward,
    Other(u16),
}

/// What the tracker is keyed by: a (device, key or button) pair.
#[derive(Clone, Copy, Debug, PartialEq, Eq, Structural)]
pub enum InputKey {
    Keyboard(Key),
    Mouse(MouseButton),
}

/// The state that a press or release event leads to.
pub open spec fn event_transition(s: InputState, e: ElementState) -> InputState {
    match e {
        ElementState::Pressed => if s == InputState::Idle {
            InputState::PressedThisFrame
        } else {
            s
        },
        ElementState::Released => if s == InputState::Held || s == InputState::PressedThisFrame {
            InputState::ReleasedThisFrame
        } else {
            s
        },
    }
}

/// The state after the once-per-frame aging step.
pub open spec fn aged(s: InputState) -> InputState {
    match s {
        InputState::PressedThisFrame => InputState::Held,
        InputState::ReleasedThisFrame => InputState::Idle,
        _ => s,
    }
}

/// The state recorded for `k` in a list of entries: the last entry for `k`
/// wins, and a key without an entry is `None`.
pub open spec fn lookup(entries: Seq<(InputKey, InputState)>, k: InputKey) -> InputState
    decreases entries.len(),
{
    if entries.len() == 0 {
        InputState::Idle
    } else if entries.last().0 == k {
        entries.last().1
    } else {
        lookup(entries.drop_last(), k)
    }
}

proof fn lemma_lookup_update(
    entries: Seq<(InputKey, InputState)>,
    i: int,
    key: InputKey,
    s: InputState,
    k: InputKey,
)
    requires
        0 <= i < entries.len(),
        entries[i].0 == key,
        forall|j: int| i < j < entries.len() ==> entries[j].0 != key,
    ensures
        lookup(entries.update(i, (key, s)), k) == if k == key {
            s
        } else {
            lookup(entries, k)
        },
    decreases entries.len(),
{
    let u = entries.update(i, (key, s));
    if i == entries.len() - 1 {
        assert(u.drop_last() =~= entries.drop_last());
    } else {
        assert(u.drop_last() =~= entries.drop_last().update(i, (key, s)));
        lemma_lookup_update(entries.drop_last(), i, key, s, k);
    }
}

proof fn lemma_lookup_absent(entries: Seq<(InputKey, InputState)>, key: InputKey)
    requires
        forall|j: int| 0 <= j < entries.len() ==> entries[j].0 != key,
    ensures
        lookup(entries, key) == InputState::Idle,
    decreases entries.len(),
{
    if entries.len() > 0 {
        lemma_lookup_absent(entries.drop_last(), key);
    }
}

/// Entries with every state of one device aged, and the other device's
/// states kept.
pub open spec fn age_device(e: (InputKey, InputState), keyboard: bool) -> (InputKey, InputState) {
    if (e.0 is Keyboard) == keyboard {
        (e.0, aged(e.1))
    } else {
        e
    }
}

proof fn lemma_lookup_age(entries: Seq<(InputKey, InputState)>, keyboard: bool, k: InputKey)
    ensures
        lookup(entries.map_values(|e| age_device(e, keyboard)), k) == if (k is Keyboard)
            == keyboard {
            aged(lookup(entries, k))
        } else {
            lookup(entries, k)
        },
    decreases entries.len(),
{
    let m = entries.map_values(|e| age_device(e, keyboard));
    if entries.len() > 0 {
        assert(m.drop_last() =~= entries.drop_last().map_values(|e| age_device(e, keyboard)));
        lemma_lookup_age(entries.drop_last(), keyboard, k);
    }
}

/// The input state of every key and mouse button, and the last key that an
/// event was seen for.
pub struct InputTracker {
    entries: Vec<(InputKey, InputState)>,
    last_key: Key,
}

impl InputTracker {
    /// The state of `k` as the layers see it.
    pub closed spec fn state_of(&self, k: InputKey) -> InputState {
        lookup(self.entries@, k)
    }

    /// The key of the most recent key event.
    pub closed spec fn last_key_spec(&self) -> Key {
        self.last_key
    }

    /// A tracker on which every key and button is `None`.
    pub fn new() -> (r: InputTracker)
        ensures
            forall|k: InputKey| r.state_of(k) == InputState::Idle,
            r.last_key_spec() == Key::Unidentified(0),
    {
        InputTracker { entries: Vec::new(), last_key: Key::Unidentified(0) }
    }

    /// The state of `k`.
    pub fn state(&self, k: InputKey) -> (r: InputState)
        ensures
            r == self.state_of(k),
    {
        let mut i: usize = self.entries.len();
        assert(self.entries@.subrange(0, i as int) =~= self.entries@);
        while i > 0
            invariant
                i <= self.entries.len(),
                lookup(self.entries@, k) == lookup(self.entries@.subrange(0, i as int), k),
            decreases i,
        {
            let ghost prefix = self.entries@.subrange(0, i as int);
            assert(prefix.drop_last() =~= self.entries@.subrange(0, i - 1));
            if self.entries[i - 1].0 == k {
                return self.entries[i - 1].1;
            }
            i = i - 1;
        }
        InputState::Idle
    }

    /// Delivers a press or release event for `k`.
    pub fn set_state(&mut self, k: InputKey, e: ElementState)
        ensures
            forall|j: InputKey|
                #![trigger final(self).state_of(j)]
                final(self).state_of(j) == if j == k {
                    event_transition(old(self).state_of(k), e)
                } else {
                    old(self).state_of(j)
                },
            final(self).last_key_spec() == old(self).last_key_spec(),
    {
        let mut i: usize = self.entries.len();
        while i > 0
            invariant
                i <= self.entries.len(),
                self.entries@ == old(self).entries@,
                self.last_key == old(self).last_key,
                forall|j: int| i <= j < self.entries.len() ==> self.entries@[j].0 != k,
            decreases i,
        {
            if self.entries[i - 1].0 == k {
                let idx = i - 1;
                let cur = self.entries[idx].1;
                let next = Self::transition(cur, e);
                proof {
                    let ghost es = self.entries@;
                    assert forall|j: InputKey| #[trigger]
                        lookup(es.update(idx as int, (k, next)), j) == if j == k {
                            next
                        } else {
                            lookup(es, j)
                        } by {
                        lemma_lookup_update(es, idx as int, k, next, j);
                    }
                    lemma_lookup_update(es, idx as int, k, cur, k);
                    assert(es.update(idx as int, (k, cur)) =~= es);
                }
                self.entries.set(idx, (k, next));
                return;
            }
            i = i - 1;
        }
        proof {
            lemma_lookup_absent(self.entries@, k);
        }
        let next = Self::transition(InputState::Idle, e);
        if next != InputState::Idle {
            let ghost es = self.entries@;
            self.entries.push((k, next));
            assert(self.entries@.drop_last() =~= es);
        }
    }

    fn transition(s: InputState, e: ElementState) -> (r: InputState)
        ensures
            r == event_transition(s, e),
    {
        match e {
            ElementState::Pressed => if s == InputState::Idle {
                InputState::PressedThisFrame
            } else {
                s
            },
            ElementState::Released => if s == InputState::Held || s
                == InputState::PressedThisFrame {
                InputState::ReleasedThisFrame
            } else {
                s
            },
        }
    }

    /// Ages the states of one device: keyboard keys when `keyboard` holds,
    /// mouse buttons otherwise.
    fn age_device(&mut self, keyboard: bool)
        ensures
            forall|j: InputKey|
                #![trigger final(self).state_of(j)]
                final(self).state_of(j) == if (j is Keyboard) == keyboard {
                    aged(old(self).state_of(j))
                } else {
                    old(self).state_of(j)
                },
            final(self).last_key_spec() == old(self).last_key_spec(),
    {
        let ghost start = self.entries@;
        let n = self.entries.len();
        let mut i: usize = 0;
        while i < n
            invariant
                n == self.entries.len() == start.len(),
                i <= n,
                self.last_key == old(self).last_key,
                forall|j: int| 0 <= j < i ==> self.entries@[j] == age_device(start[j], keyboard),
                forall|j: int| i <= j < n ==> self.entries@[j] == start[j],
            decreases n - i,
        {
            let (k, s) = self.entries[i];
            let is_key = match k {
                InputKey::Keyboard(_) => true,
                InputKey::Mouse(_) => false,
            };
            if is_key == keyboard {
                let a = match s {
                    InputState::PressedThisFrame => InputState::Held,
                    InputState::ReleasedThisFrame => InputState::Idle,
                    _ => s,
                };
                self.entries.set(i, (k, a));
            }
            i = i + 1;
        }
        proof {
            assert(self.entries@ =~= start.map_values(|e| age_device(e, keyboard)));
            assert forall|j: InputKey| #[trigger]
                lookup(self.entries@, j) == if (j is Keyboard) == keyboard {
                    aged(lookup(start, j))
                } else {
                    lookup(start, j)
                } by {
                lemma_lookup_age(start, keyboard, j);
            }
        }
    }
}

impl Key {
    /// The key code, for a key that has one.
    pub fn code(&self) -> (r: Option<u32>)
        ensures
            r == match *self {
                Key::Code(c) => Some(c),
                Key::Unidentified(_) => None::<u32>,
            },
    {
        match self {
            Key::Code(c) => Some(*c),
            Key::Unidentified(_) => None,
        }
    }

    /// The platform code, for a key without a key code.
    pub fn native_code(&self) -> (r: Option<u32>)
        ensures
            r == match *self {
                Key::Code(_) => None::<u32>,
                Key::Unidentified(c) => Some(c),
            },
    {
        match self {
            Key::Code(_) => None,
            Key::Unidentified(c) => Some(*c),
        }
    }
}

/// Delivers a key event, and records `key` as the last key seen.
pub fn set_key_state(input: &mut InputTracker, key: Key, state: ElementState)
    ensures
        forall|j: InputKey|
            #![trigger final(input).state_of(j)]
            final(input).state_of(j) == if j == InputKey::Keyboard(key) {
                event_transition(old(input).state_of(j), state)
            } else {
                old(input).state_of(j)
            },
        final(input).last_key_spec() == key,
{
    input.set_state(InputKey::Keyboard(key), state);
    let ghost mid = *input;
    input.last_key = key;
    assert forall|j: InputKey| #![trigger input.state_of(j)]
        input.state_of(j) == mid.state_of(j) by {
        assert(input.entries@ == mid.entries@);
    }
}

/// The state of a key.
pub fn key_state(input: &InputTracker, key: Key) -> (r: InputState)
    ensures
        r == input.state_of(InputKey::Keyboard(key)),
{
    input.state(InputKey::Keyboard(key))
}

/// Whether the key went down during this frame.
pub fn key_pressed_this_frame(input: &InputTracker, key: Key) -> (r: bool)
    ensures
        r == (input.state_of(InputKey::Keyboard(key)) == InputState::PressedThisFrame),
{
    key_state(input, key) == InputState::PressedThisFrame
}

/// Whether the key went up during this frame.
pub fn key_released_this_frame(input: &InputTracker, key: Key) -> (r: bool)
    ensures
        r == (input.state_of(InputKey::Keyboard(key)) == InputState::ReleasedThisFrame),
{
    key_state(input, key) == InputState::ReleasedThisFrame
}

/// Whether the key has been down since an earlier frame.
pub fn key_held(input: &InputTracker, key: Key) -> (r: bool)
    ensures
        r == (input.state_of(InputKey::Keyboard(key)) == InputState::Held),
{
    key_state(input, key) == InputState::Held
}

/// Whether the key is down, newly or held.
pub fn key_pressed(input: &InputTracker, key: Key) -> (r: bool)
    ensures
        r == (input.state_of(InputKey::Keyboard(key)) == InputState::PressedThisFrame
            || input.state_of(InputKey::Keyboard(key)) == InputState::Held),
{
    let state = key_state(input, key);
    state == InputState::PressedThisFrame || state == InputState::Held
}

/// The key of the most recent key event, whatever its state.
pub fn last_key_pressed(input: &InputTracker) -> (r: Key)
    ensures
        r == input.last_key_spec(),
{
    input.last_key
}

/// Delivers a mouse button event.
pub fn set_mouse_state(input: &mut InputTracker, button: MouseButton, state: ElementState)
    ensures
        forall|j: InputKey|
            #![trigger final(input).state_of(j)]
            final(input).state_of(j) == if j == InputKey::Mouse(button) {
                event_transition(old(input).state_of(j), state)
            } else {
                old(input).state_of(j)
            },
        final(input).last_key_spec() == old(input).last_key_spec(),
{
    input.set_state(InputKey::Mouse(button), state);
}

/// The state of a mouse button.
pub fn mouse_state(input: &InputTracker, button: MouseButton) -> (r: InputState)
    ensures
        r == input.state_of(InputKey::Mouse(button)),
{
    input.state(InputKey::Mouse(button))
}

/// Whether the button went down during this frame.
pub fn button_pressed_this_frame(input: &InputTracker, button: MouseButton) -> (r: bool)
    ensures
        r == (input.state_of(InputKey::Mouse(button)) == InputState::PressedThisFrame),
{
    mouse_state(input, button) == InputState::PressedThisFrame
}

/// Whether the button went up during this frame.
pub fn button_released_this_frame(input: &InputTracker, button: MouseButton) -> (r: bool)
    ensures
        r == (input.state_of(InputKey::Mouse(button)) == InputState::ReleasedThisFrame),
{
    mouse_state(input, button) == InputState::ReleasedThisFrame
}

/// Whether the button has been down since an earlier frame.
pub fn button_held(input: &InputTracker, button: MouseButton) -> (r: bool)
    ensures
        r == (input.state_of(InputKey::Mouse(button)) == InputState::Held),
{
    mouse_state(input, button) == InputState::Held
}

/// Whether the button is down, newly or held.
pub fn button_pressed(input: &InputTracker, button: MouseButton) -> (r: bool)
    ensures
        r == (input.state_of(InputKey::Mouse(button)) == InputState::PressedThisFrame
            || input.state_of(InputKey::Mouse(button)) == InputState::Held),
{
    let state = mouse_state(input, button);
    state == InputState::PressedThisFrame || state == InputState::Held
}

/// Whether the button went up during this frame.
pub fn button_released(input: &InputTracker, button: MouseButton) -> (r: bool)
    ensures
        r == (input.state_of(InputKey::Mouse(button)) == InputState::ReleasedThisFrame),
{
    mouse_state(input, button) == InputState::ReleasedThisFrame
}

/// Ages every keyboard key; mouse buttons keep their state.
pub fn update_keyboard_state(input: &mut InputTracker)
    ensures
        forall|j: InputKey|
            #![trigger final(input).state_of(j)]
            final(input).state_of(j) == if j is Keyboard {
                aged(old(input).state_of(j))
            } else {
                old(input).state_of(j)
            },
        final(input).last_key_spec() == old(input).last_key_spec(),
{
    input.age_device(true);
}

/// Ages every mouse button; keyboard keys keep their state.
pub fn update_mouse_state(input: &mut InputTracker)
    ensures
        forall|j: InputKey|
            #![trigger final(input).state_of(j)]
            final(input).state_of(j) == if j is Mouse {
                aged(old(input).state_of(j))
            } else {
                old(input).state_of(j)
            },
        final(input).last_key_spec() == old(input).last_key_spec(),
{
    input.age_device(false);
}

/// The once-per-frame aging step, run before the layers update: a state
/// entered this frame becomes `Held` or `Idle`.
pub fn update_input_state(input: &mut InputTracker)
    ensures
        forall|j: InputKey|
            #![trigger final(input).state_of(j)]
            final(input).state_of(j) == aged(old(input).state_of(j)),
        final(input).last_key_spec() == old(input).last_key_spec(),
{
    update_keyboard_state(input);
    update_mouse_state(input);
    assert forall|j: InputKey| #![trigger input.state_of(j)]
        input.state_of(j) == aged(old(input).state_of(j)) by {
        if j is Keyboard {
        } else {
            assert(aged(aged(old(input).state_of(j))) == aged(old(input).state_of(j)));
        }
    }
}

/// A state after `n` aging steps with no event in between.
pub open spec fn aged_times(s: InputState, n: nat) -> InputState
    decreases n,
{
    if n == 0 {
        s
    } else {
        aged(aged_times(s, (n - 1) as nat))
    }
}

/// Aging settles after one step: a state entered this frame becomes `Held`
/// (after a press) or `Idle` (after a release), and further aging with no
/// event in between leaves it there.
pub proof fn lemma_aging_settles(s: InputState, n: nat)
    requires
        n >= 1,
    ensures
        aged_times(s, n) == aged(s),
        aged(aged(s)) == aged(s),
        s == InputState::PressedThisFrame ==> aged_times(s, n) == InputState::Held,
        s == InputState::ReleasedThisFrame ==> aged_times(s, n) == InputState::Idle,
    decreases n,
{
    if n > 1 {
        lemma_aging_settles(s, (n - 1) as nat);
    } else {
        assert(aged_times(s, 0) == s);
    }
}

/// No state is skipped: a press followed in the same frame by a release
/// leaves the key `ReleasedThisFrame`, whatever state it was in.
pub proof fn lemma_press_release_same_frame(s: InputState)
    ensures
        event_transition(event_transition(s, ElementState::Pressed), ElementState::Released)
            == InputState::ReleasedThisFrame,
{
}

} // verus!
