use vstd::prelude::*;

verus! {

/// Number of entries of the key-state table.
pub const KEY_COUNT: usize = 512;

/// Scancode of the key that aborts a dialog.
pub const ESCAPE_SCANCODE: i32 = 41;

/// Which modifier keys are held.
#[derive(Clone, Copy, PartialEq, Eq, Structural)]
pub struct Modifiers {
    pub shift: bool,
    pub ctrl: bool,
    pub alt: bool,
    pub gui: bool,
}

/// A discrete input event, as the platform reported it.
pub enum InputEvent {
    /// A key went down; the modifiers are those held after it.
    KeyDown { scancode: Option<i32>, mods: Modifiers },
    /// A key went up; the modifiers are those held after it.
    KeyUp { scancode: Option<i32>, mods: Modifiers },
    /// Text was typed, as UTF-8 bytes.
    TextInput(Vec<u8>),
    /// The window was asked to close.
    Quit,
    /// Anything else.
    Other,
}

/// What applying one event means for the session.
#[derive(Clone, Copy, PartialEq, Eq, Structural)]
pub enum EventEffect {
    /// The session goes on.
    Continue,
    /// The session ends at once, without an answer.
    Quit,
    /// The dialog is aborted: it ends with code 1.
    Abort,
}

/// The slot of the key-state table for a scancode, when it has one.
pub open spec fn key_slot(code: i32) -> Option<u8> {
    if 0 <= code <= 255 {
        Some(code as u8)
    } else {
        None
    }
}

/// Relies on num's `ToPrimitive::to_u8` for `i32`: `Some` of the same value
/// when it lies in 0..=255, else `None`.
#[verifier::external_body]
fn scancode_to_u8(code: i32) -> (r: Option<u8>)
    ensures
        r == key_slot(code),
{
    num::ToPrimitive::to_u8(&code)
}

/// A piece of typed text can be handed on when it holds no zero byte.
pub open spec fn text_is_wellformed(t: Seq<u8>) -> bool {
    forall|i: int| 0 <= i < t.len() ==> t[i] != 0
}

/// The input that the interface sees: keys, modifiers, pointer and typed text.
pub struct InputState {
    pub keys_down: Vec<bool>,
    pub mods: Modifiers,
    pub mouse_x: i32,
    pub mouse_y: i32,
    pub mouse_down: (bool, bool, bool),
    pub text: Vec<Vec<u8>>,
}

/// The key-state table after a key changed state.
pub open spec fn keys_after(keys: Seq<bool>, code: i32, down: bool) -> Seq<bool> {
    match key_slot(code) {
        Some(k) => keys.update(k as int, down),
        None => keys,
    }
}

/// Applying `event` to `s` gives `t` and `r`: keys update the key table and
/// the modifiers, text without zero bytes is queued (other text is dropped),
/// the abort key aborts and a quit event quits; the pointer stays.
pub open spec fn input_step(s: InputState, event: InputEvent, t: InputState, r: EventEffect) -> bool {
    &&& t.mouse_x == s.mouse_x
    &&& t.mouse_y == s.mouse_y
    &&& t.mouse_down == s.mouse_down
    &&& match event {
        InputEvent::KeyDown { scancode: Some(c), mods } => {
            &&& t.keys_down@ == keys_after(s.keys_down@, c, true)
            &&& t.mods == mods
            &&& t.text == s.text
            &&& r == if c == ESCAPE_SCANCODE { EventEffect::Abort } else { EventEffect::Continue }
        },
        InputEvent::KeyUp { scancode: Some(c), mods } => {
            &&& t.keys_down@ == keys_after(s.keys_down@, c, false)
            &&& t.mods == mods
            &&& t.text == s.text
            &&& r == EventEffect::Continue
        },
        InputEvent::TextInput(typed) => {
            &&& t.keys_down == s.keys_down
            &&& t.mods == s.mods
            &&& t.text@ == if text_is_wellformed(typed@) {
                s.text@.push(typed)
            } else {
                s.text@
            }
            &&& r == EventEffect::Continue
        },
        InputEvent::Quit => t == s && r == EventEffect::Quit,
        _ => t == s && r == EventEffect::Continue,
    }
}

impl InputState {
    pub open spec fn wf(&self) -> bool {
        self.keys_down@.len() == KEY_COUNT
    }

    /// No key held, no pointer button down, no text typed.
    pub fn new() -> (r: InputState)
        ensures
            r.wf(),
            forall|i: int| 0 <= i < KEY_COUNT ==> !r.keys_down@[i],
            r.mods == (Modifiers { shift: false, ctrl: false, alt: false, gui: false }),
            r.mouse_x == 0,
            r.mouse_y == 0,
            r.mouse_down == (false, false, false),
            r.text@.len() == 0,
    {
        let mut keys_down: Vec<bool> = Vec::new();
        let mut i: usize = 0;
        while i < KEY_COUNT
            invariant
                i <= KEY_COUNT,
                keys_down@.len() == i,
                forall|j: int| 0 <= j < i ==> !keys_down@[j],
            decreases KEY_COUNT - i,
        {
            keys_down.push(false);
            i = i + 1;
        }
        InputState {
            keys_down,
            mods: Modifiers { shift: false, ctrl: false, alt: false, gui: false },
            mouse_x: 0,
            mouse_y: 0,
            mouse_down: (false, false, false),
            text: Vec::new(),
        }
    }

    /// Applies one event: keys update the key table and the modifiers, text
    /// without zero bytes is queued for the text field (other text is dropped),
    /// the abort key aborts and a quit event quits.
    pub fn apply_event(&mut self, event: InputEvent) -> (r: EventEffect)
        requires
            old(self).wf(),
        ensures
            final(self).wf(),
            input_step(*old(self), event, *final(self), r),
    {
        match event {
            InputEvent::KeyDown { scancode: Some(c), mods } => {
                self.set_key(c, true);
                self.mods = mods;
                if c == ESCAPE_SCANCODE {
                    EventEffect::Abort
                } else {
                    EventEffect::Continue
                }
            },
            InputEvent::KeyUp { scancode: Some(c), mods } => {
                self.set_key(c, false);
                self.mods = mods;
                EventEffect::Continue
            },
            InputEvent::TextInput(t) => {
                let mut i: usize = 0;
                while i < t.len() && t[i] != 0
                    invariant
                        i <= t@.len(),
                        forall|j: int| 0 <= j < i ==> t@[j] != 0,
                    decreases t@.len() - i,
                {
                    i = i + 1;
                }
                if i == t.len() {
                    self.text.push(t);
                }
                EventEffect::Continue
            },
            InputEvent::Quit => EventEffect::Quit,
            _ => EventEffect::Continue,
        }
    }

    fn set_key(&mut self, code: i32, down: bool)
        requires
            old(self).wf(),
        ensures
            final(self).wf(),
            final(self).keys_down@ == keys_after(old(self).keys_down@, code, down),
            final(self).mods == old(self).mods,
            final(self).text == old(self).text,
            final(self).mouse_x == old(self).mouse_x,
            final(self).mouse_y == old(self).mouse_y,
            final(self).mouse_down == old(self).mouse_down,
    {
        if let Some(k) = scancode_to_u8(code) {
            self.keys_down[k as usize] = down;
        }
    }

    /// Records the pointer as sampled now.
    pub fn set_pointer(&mut self, x: i32, y: i32, left: bool, right: bool, middle: bool)
        ensures
            final(self).mouse_x == x,
            final(self).mouse_y == y,
            final(self).mouse_down == (left, right, middle),
            final(self).keys_down == old(self).keys_down,
            final(self).mods == old(self).mods,
            final(self).text == old(self).text,
    {
        self.mouse_x = x;
        self.mouse_y = y;
        self.mouse_down = (left, right, middle);
    }

    /// Hands out the typed text, oldest first, and forgets it.
    pub fn take_text(&mut self) -> (r: Vec<Vec<u8>>)
        ensures
            r@ == old(self).text@,
            final(self).text@.len() == 0,
            final(self).keys_down == old(self).keys_down,
            final(self).mods == old(self).mods,
            final(self).mouse_x == old(self).mouse_x,
            final(self).mouse_y == old(self).mouse_y,
            final(self).mouse_down == old(self).mouse_down,
    {
        let mut out: Vec<Vec<u8>> = Vec::new();
        std::mem::swap(&mut out, &mut self.text);
        out
    }
}

/// The events that have arrived and are not yet applied, oldest first.
pub struct EventQueue {
    pub events: Vec<InputEvent>,
}

/// The queue after one iteration of the session: the events that arrived are
/// appended, then the oldest is applied and leaves.
pub open spec fn queue_step(q: Seq<InputEvent>, arrived: Seq<InputEvent>) -> Seq<InputEvent> {
    (q + arrived).drop_first()
}

/// The queue after one iteration for each list of arrivals, in turn.
pub open spec fn queue_after(q: Seq<InputEvent>, arrivals: Seq<Seq<InputEvent>>) -> Seq<InputEvent>
    decreases arrivals.len(),
{
    if arrivals.len() == 0 {
        q
    } else {
        queue_step(queue_after(q, arrivals.drop_last()), arrivals.last())
    }
}

impl EventQueue {
    /// An empty queue.
    pub fn new() -> (r: EventQueue)
        ensures
            r.events@.len() == 0,
    {
        EventQueue { events: Vec::new() }
    }

    /// Whether the session must wait for an event before it can go on: only
    /// when nothing is queued.
    pub fn needs_wait(&self) -> (r: bool)
        ensures
            r == (self.events@.len() == 0),
    {
        self.events.len() == 0
    }

    /// Queues an event that arrived.
    pub fn push(&mut self, event: InputEvent)
        ensures
            final(self).events@ == old(self).events@.push(event),
    {
        self.events.push(event);
    }

    /// Takes the oldest event out of the queue.
    pub fn pop_front(&mut self) -> (r: Option<InputEvent>)
        ensures
            old(self).events@.len() == 0 ==> r is None && final(self).events@.len() == 0,
            old(self).events@.len() > 0 ==> {
                &&& r == Some(old(self).events@[0])
                &&& final(self).events@ == old(self).events@.drop_first()
            },
    {
        if self.events.len() == 0 {
            None
        } else {
            Some(self.events.remove(0))
        }
    }
}

/// An event that stands behind `k` others in the queue is still queued, `k - n`
/// places from the front, after `n <= k` iterations, whatever arrives meanwhile:
/// since each iteration applies one event, it is applied in iteration `k + 1`
/// at the earliest.
pub proof fn queued_event_waits(q: Seq<InputEvent>, arrivals: Seq<Seq<InputEvent>>, k: int)
    requires
        0 <= k < q.len(),
        arrivals.len() <= k,
    ensures
        queue_after(q, arrivals).len() >= q.len() - arrivals.len(),
        queue_after(q, arrivals)[k - arrivals.len()] == q[k],
    decreases arrivals.len(),
{
    if arrivals.len() > 0 {
        let prev = arrivals.drop_last();
        queued_event_waits(q, prev, k);
        let p = queue_after(q, prev);
        let joined = p + arrivals.last();
        assert(joined[k - prev.len()] == p[k - prev.len()]);
        assert(joined.drop_first()[k - arrivals.len()] == joined[k - prev.len()]);
    }
}

} // verus!
