//! The cumulative input state and the reports it gives rise to.

use crate::command::Commands;
use crate::hid_report::{
    flag_set, CursorReport, KeyboardModifiers, KeyboardReport, MouseButtons, MouseReport,
    MODIFIER_FIRST,
};
use vstd::prelude::*;

verus! {

/// Number of keys that a keyboard report can hold.
pub const KEY_SLOTS: usize = 6;

/// A report to be sent to the host.
#[derive(Clone, Copy, Debug, PartialEq, Eq)]
pub enum Report {
    Keyboard(KeyboardReport),
    Mouse(MouseReport),
    Cursor(CursorReport),
}

/// Whether `keys` can be the keys held down: at most six of them, each a
/// real key code, none twice.
pub open spec fn valid_keys(keys: Seq<u8>) -> bool {
    &&& keys.len() <= KEY_SLOTS
    &&& !keys.contains(0)
    &&& keys.no_duplicates()
}

/// The six slots of a report that holds `keys`: the keys in order, then
/// zeros.
pub open spec fn slots_of(keys: Seq<u8>) -> Seq<u8> {
    Seq::new(KEY_SLOTS as nat, |i: int| if i < keys.len() { keys[i] } else { 0u8 })
}

/// Whether the empty slots of `slots` form a suffix.
pub open spec fn compact(slots: Seq<u8>) -> bool {
    forall|i: int, j: int| 0 <= i < j < slots.len() && slots[i] == 0 ==> slots[j] == 0
}

/// Whether no key stands in two slots of `slots`.
pub open spec fn distinct(slots: Seq<u8>) -> bool {
    forall|i: int, j: int| 0 <= i < j < slots.len() && slots[i] != 0 ==> slots[i] != slots[j]
}

/// The keys held down after `key` is pressed while `keys` are held down.
///
/// A key that is held down already, the code 0, and a seventh key change
/// nothing.
pub open spec fn press(keys: Seq<u8>, key: u8) -> Seq<u8> {
    if key == 0 || keys.contains(key) || keys.len() >= KEY_SLOTS {
        keys
    } else {
        keys.push(key)
    }
}

/// The keys held down after `key` is released while `keys` are held down:
/// `keys` without `key`, the keys behind it moved up by one.
///
/// A key that is not held down changes nothing.
pub open spec fn release(keys: Seq<u8>, key: u8) -> Seq<u8> {
    keys.remove_value(key)
}

/// What the input state stands for: the mouse buttons held down, by
/// position, the keys held down, in the order of their slots, and the
/// modifiers held down, by position.
pub struct InputState {
    pub buttons: Set<int>,
    pub keys: Seq<u8>,
    pub modifiers: Set<int>,
}

/// The input state in which nothing is held down.
pub open spec fn initial_state() -> InputState {
    InputState {
        buttons: Set::<int>::empty(),
        keys: Seq::<u8>::empty(),
        modifiers: Set::<int>::empty(),
    }
}

/// The input state after `cmd`.
pub open spec fn next_state(s: InputState, cmd: Commands) -> InputState {
    match cmd {
        Commands::MouseDown(b) => InputState { buttons: s.buttons.union(b@), ..s },
        Commands::MouseUp(b) => InputState { buttons: s.buttons.difference(b@), ..s },
        Commands::KeyDown(key) => if KeyboardModifiers::spec_is_modifier(key) {
            InputState { modifiers: s.modifiers.insert(key - MODIFIER_FIRST), ..s }
        } else {
            InputState { keys: press(s.keys, key), ..s }
        },
        Commands::KeyUp(key) => if KeyboardModifiers::spec_is_modifier(key) {
            InputState { modifiers: s.modifiers.remove(key - MODIFIER_FIRST), ..s }
        } else {
            InputState { keys: release(s.keys, key), ..s }
        },
        Commands::AbsMove(_, _) | Commands::RelMove(_, _) | Commands::Wheel(_) => s,
    }
}

/// Whether `r` is the mouse report of the buttons `buttons` with the motion
/// `(x, y)` and the wheel turn `wheel`.
pub open spec fn is_mouse_report(r: Report, buttons: Set<int>, x: i16, y: i16, wheel: i8) -> bool {
    &&& r matches Report::Mouse(m)
    &&& flag_set(m.buttons) == buttons
    &&& m.x == x
    &&& m.y == y
    &&& m.wheel == wheel
}

/// Whether `r` is the keyboard report of the modifiers `modifiers` and the
/// keys `keys`.
pub open spec fn is_keyboard_report(r: Report, modifiers: Set<int>, keys: Seq<u8>) -> bool {
    &&& r matches Report::Keyboard(k)
    &&& flag_set(k.modifier) == modifiers
    &&& k.leds == 0
    &&& k.keycodes@ == slots_of(keys)
}

/// Whether `r` is the report that tells the host of `cmd`, `s` being the
/// input state after it.
pub open spec fn is_report_of(r: Report, s: InputState, cmd: Commands) -> bool {
    match cmd {
        Commands::MouseDown(_) | Commands::MouseUp(_) => is_mouse_report(r, s.buttons, 0, 0, 0),
        Commands::KeyDown(_) | Commands::KeyUp(_) => is_keyboard_report(r, s.modifiers, s.keys),
        Commands::AbsMove(x, y) => r == Report::Cursor(CursorReport { buttons: 0, x, y }),
        Commands::RelMove(x, y) => is_mouse_report(r, s.buttons, x, y, 0),
        Commands::Wheel(w) => is_mouse_report(r, s.buttons, 0, 0, w),
    }
}

/// Index of the first empty slot at or after `from`; the number of slots if
/// there is none.
spec fn first_empty(slots: Seq<u8>, from: int) -> int
    decreases slots.len() - from,
{
    if from >= slots.len() || slots[from] == 0 {
        from
    } else {
        first_empty(slots, from + 1)
    }
}

/// The first empty slot lies among the slots or behind them, and no slot
/// before it is empty.
proof fn lemma_first_empty(slots: Seq<u8>, from: int)
    requires
        0 <= from <= slots.len(),
    ensures
        from <= first_empty(slots, from) <= slots.len(),
        forall|i: int| from <= i < first_empty(slots, from) ==> slots[i] != 0,
        first_empty(slots, from) < slots.len() ==> slots[first_empty(slots, from)] == 0,
    decreases slots.len() - from,
{
    if from < slots.len() && slots[from] != 0 {
        lemma_first_empty(slots, from + 1);
    }
}

/// The first empty slot is the one before which no slot is empty.
proof fn lemma_first_empty_is(slots: Seq<u8>, n: int)
    requires
        0 <= n <= slots.len(),
        forall|i: int| 0 <= i < n ==> slots[i] != 0,
        n < slots.len() ==> slots[n] == 0,
    ensures
        first_empty(slots, 0) == n,
{
    lemma_first_empty(slots, 0);
}

/// Slots in order hold valid keys up to the first empty slot, and nothing
/// behind it.
proof fn lemma_keys_of_slots(slots: Seq<u8>)
    requires
        slots.len() == KEY_SLOTS,
        compact(slots),
        distinct(slots),
    ensures
        valid_keys(slots.take(first_empty(slots, 0))),
        slots == slots_of(slots.take(first_empty(slots, 0))),
{
    lemma_first_empty(slots, 0);
    let keys = slots.take(first_empty(slots, 0));
    assert(slots =~= slots_of(keys));
    assert forall|k: int| 0 <= k < keys.len() implies keys[k] != 0 by {
        assert(keys[k] == slots[k]);
    }
}

/// The input state: mouse buttons, keys and modifiers held down.
#[derive(Debug)]
pub struct App {
    mouse_pressed: MouseButtons,
    keys_pressed: [u8; 6],
    modifiers: KeyboardModifiers,
}

impl View for App {
    type V = InputState;

    closed spec fn view(&self) -> InputState {
        InputState {
            buttons: self.mouse_pressed@,
            keys: self.keys_pressed@.take(first_empty(self.keys_pressed@, 0)),
            modifiers: self.modifiers@,
        }
    }
}

impl App {
    #[verifier::type_invariant]
    spec fn slots_in_order(self) -> bool {
        let slots = self.keys_pressed@;
        &&& compact(slots)
        &&& distinct(slots)
    }

    /// The state in which nothing is held down.
    pub fn new() -> (r: Self)
        ensures
            r@ == initial_state(),
    {
        let r = App {
            mouse_pressed: MouseButtons::empty(),
            keys_pressed: [0u8; 6],
            modifiers: KeyboardModifiers::empty(),
        };
        assert(r@.keys =~= Seq::<u8>::empty());
        r
    }

    /// The mouse buttons held down.
    pub fn mouse_pressed(&self) -> (r: MouseButtons)
        ensures
            r@ == self@.buttons,
    {
        self.mouse_pressed
    }

    /// The six key slots as they stand in a keyboard report.
    pub fn keys_pressed(&self) -> (r: [u8; 6])
        ensures
            r@ == slots_of(self@.keys),
            valid_keys(self@.keys),
            compact(r@),
    {
        proof {
            use_type_invariant(self);
            lemma_keys_of_slots(self.keys_pressed@);
        }
        self.keys_pressed
    }

    /// The modifiers held down.
    pub fn modifiers(&self) -> (r: KeyboardModifiers)
        ensures
            r@ == self@.modifiers,
    {
        self.modifiers
    }

    /// Applies `cmd` to the input state and returns the report that tells the
    /// host of it.
    pub fn process_cmd(&mut self, cmd: Commands) -> (r: Report)
        ensures
            final(self)@ == next_state(old(self)@, cmd),
            is_report_of(r, final(self)@, cmd),
            valid_keys(final(self)@.keys),
    {
        proof {
            use_type_invariant(&*self);
        }
        let r = match cmd {
            Commands::MouseDown(btn) => {
                self.mouse_pressed = self.mouse_pressed.union(btn);
                Report::Mouse(mouse_report(0, 0, self.mouse_pressed))
            },
            Commands::MouseUp(btn) => {
                self.mouse_pressed = self.mouse_pressed.difference(btn);
                Report::Mouse(mouse_report(0, 0, self.mouse_pressed))
            },
            Commands::KeyDown(key) => {
                if KeyboardModifiers::is_modifier(key) {
                    self.modifiers = self.modifiers.union(KeyboardModifiers::from_keycode(key));
                    assert(self@.modifiers =~= old(self)@.modifiers.insert(key - MODIFIER_FIRST));
                } else {
                    self.add_key_pressed(key);
                }
                Report::Keyboard(kbd_report(self.modifiers, &self.keys_pressed()))
            },
            Commands::KeyUp(key) => {
                if KeyboardModifiers::is_modifier(key) {
                    self.modifiers =
                    self.modifiers.difference(KeyboardModifiers::from_keycode(key));
                    assert(self@.modifiers =~= old(self)@.modifiers.remove(key - MODIFIER_FIRST));
                } else {
                    self.remove_key_pressed(key);
                }
                Report::Keyboard(kbd_report(self.modifiers, &self.keys_pressed()))
            },
            Commands::AbsMove(x, y) => Report::Cursor(cursor_report(x, y)),
            Commands::RelMove(x, y) => Report::Mouse(mouse_report(x, y, self.mouse_pressed)),
            Commands::Wheel(w) => Report::Mouse(wheel_report(w, self.mouse_pressed)),
        };
        proof {
            use_type_invariant(&*self);
            lemma_keys_of_slots(self.keys_pressed@);
        }
        r
    }

    /// Holds `key` down: puts it into the first empty slot, unless it is held
    /// down already or no slot is empty.
    fn add_key_pressed(&mut self, key: u8)
        ensures
            final(self)@ == (InputState { keys: press(old(self)@.keys, key), ..old(self)@ }),
    {
        proof {
            use_type_invariant(&*self);
            lemma_first_empty(self.keys_pressed@, 0);
        }
        let ghost slots = self.keys_pressed@;
        let ghost n = first_empty(slots, 0);
        let mut i: usize = 0;
        while i < 6
            invariant
                0 <= i <= 6,
                *self == *old(self),
                slots == self.keys_pressed@,
                n == first_empty(slots, 0),
                0 <= n <= 6,
                forall|j: int| 0 <= j < n ==> slots[j] != 0,
                n < 6 ==> slots[n] == 0,
                compact(slots),
                distinct(slots),
                forall|j: int| 0 <= j < i ==> slots[j] != 0 && slots[j] != key,
            decreases 6 - i,
        {
            if key == self.keys_pressed[i] {
                proof {
                    if key != 0 {
                        assert(self@.keys[i as int] == key);
                    }
                }
                return ;
            }
            if self.keys_pressed[i] == 0x00 {
                proof {
                    let after = slots.update(i as int, key);
                    assert(n == i);
                    assert(compact(after));
                    assert(distinct(after));
                }
                self.keys_pressed[i] = key;
                proof {
                    let after = self.keys_pressed@;
                    lemma_first_empty_is(after, i + 1);
                    assert(after.take(i + 1) =~= slots.take(i as int).push(key));
                    assert(!slots.take(i as int).contains(key));
                }
                return ;
            }
            i += 1;
        }
        proof {
            assert(n == 6);
        }
    }

    /// Index of the slot that holds `key`, looked for up to the first empty
    /// slot, that slot included.
    fn find_key_pressed(&self, key: u8) -> (r: Option<usize>)
        ensures
            match r {
                Some(i) => {
                    &&& i <= first_empty(self.keys_pressed@, 0)
                    &&& i < KEY_SLOTS
                    &&& self.keys_pressed@[i as int] == key
                    &&& forall|j: int| 0 <= j < i ==> self.keys_pressed@[j] != key
                },
                None => forall|j: int|
                    0 <= j < first_empty(self.keys_pressed@, 0) ==> self.keys_pressed@[j] != key,
            },
    {
        proof {
            lemma_first_empty(self.keys_pressed@, 0);
        }
        let ghost slots = self.keys_pressed@;
        let ghost n = first_empty(slots, 0);
        let mut i: usize = 0;
        while i < 6
            invariant
                0 <= i <= 6,
                slots == self.keys_pressed@,
                n == first_empty(slots, 0),
                0 <= n <= 6,
                forall|j: int| 0 <= j < n ==> slots[j] != 0,
                n < 6 ==> slots[n] == 0,
                forall|j: int| 0 <= j < i ==> slots[j] != 0 && slots[j] != key,
            decreases 6 - i,
        {
            if key == self.keys_pressed[i] {
                return Some(i);
            }
            if self.keys_pressed[i] == 0x00 {
                return None;
            }
            i += 1;
        }
        None
    }

    /// Lets `key` go: closes the gap that it leaves and empties the last
    /// slot. A key that is not held down changes nothing.
    fn remove_key_pressed(&mut self, key: u8)
        ensures
            final(self)@ == (InputState { keys: release(old(self)@.keys, key), ..old(self)@ }),
    {
        proof {
            use_type_invariant(&*self);
            lemma_first_empty(self.keys_pressed@, 0);
        }
        let ghost before = self.keys_pressed@;
        let ghost n = first_empty(before, 0);
        if let Some(idx) = self.find_key_pressed(key) {
            let mut slots = self.keys_pressed;
            let mut j: usize = idx;
            while j < 5
                invariant
                    idx <= j <= 5,
                    before.len() == 6,
                    slots@.len() == 6,
                    forall|k: int| 0 <= k < idx ==> slots@[k] == before[k],
                    forall|k: int| idx <= k < j ==> slots@[k] == before[k + 1],
                    forall|k: int| j <= k < 6 ==> slots@[k] == before[k],
                decreases 5 - j,
            {
                slots[j] = slots[j + 1];
                j += 1;
            }
            slots[5] = 0x00;
            proof {
                let after = slots@;
                assert(after =~= before.remove(idx as int).push(0u8));
                if key == 0 {
                    assert(idx == n);
                    assert(after =~= before);
                    before.take(n).index_of_first_ensures(key);
                } else {
                    assert(idx < n);
                    assert(compact(after));
                    assert(distinct(after));
                    lemma_first_empty_is(after, n - 1);
                    let keys = before.take(n);
                    assert(keys[idx as int] == key);
                    keys.index_of_first_ensures(key);
                    assert(keys.index_of_first(key) == Some(idx as int));
                    assert(after.take(n - 1) =~= keys.remove(idx as int));
                }
            }
            self.keys_pressed = slots;
        } else {
            proof {
                let keys = before.take(n);
                keys.index_of_first_ensures(key);
                if keys.contains(key) {
                    let k = choose|k: int| 0 <= k < keys.len() && keys[k] == key;
                    assert(before[k] == key);
                }
            }
        }
    }
}

/// The input state after the commands `cmds`, applied in order.
pub open spec fn run(s: InputState, cmds: Seq<Commands>) -> InputState
    decreases cmds.len(),
{
    if cmds.len() == 0 {
        s
    } else {
        next_state(run(s, cmds.drop_last()), cmds.last())
    }
}

/// Whether the key with code `key` is held down in `s`.
pub open spec fn is_held(s: InputState, key: u8) -> bool {
    if KeyboardModifiers::spec_is_modifier(key) {
        s.modifiers.contains(key - MODIFIER_FIRST)
    } else {
        s.keys.contains(key)
    }
}

/// The slots of valid keys hold those keys first and are empty from there on:
/// at most six slots are taken, and no empty slot stands before a taken one.
pub proof fn lemma_slots_of_valid_keys(keys: Seq<u8>)
    requires
        valid_keys(keys),
    ensures
        slots_of(keys).len() == KEY_SLOTS,
        forall|i: int| 0 <= i < KEY_SLOTS ==> (slots_of(keys)[i] != 0 <==> i < keys.len()),
        compact(slots_of(keys)),
        distinct(slots_of(keys)),
{
    assert forall|i: int| 0 <= i < keys.len() implies keys[i] != 0 by {
        assert(keys.contains(keys[i]));
    }
}

/// No command makes valid keys invalid.
pub proof fn lemma_next_state_keeps_keys_valid(s: InputState, cmd: Commands)
    requires
        valid_keys(s.keys),
    ensures
        valid_keys(next_state(s, cmd).keys),
{
    match cmd {
        Commands::KeyDown(key) => {
            if !KeyboardModifiers::spec_is_modifier(key) && press(s.keys, key) != s.keys {
                let after = s.keys.push(key);
                assert forall|i: int, j: int|
                    0 <= i < after.len() && 0 <= j < after.len() && i != j implies after[i]
                    != after[j] by {
                    if i < s.keys.len() {
                        assert(s.keys.contains(after[i]));
                    }
                    if j < s.keys.len() {
                        assert(s.keys.contains(after[j]));
                    }
                }
                assert forall|i: int| 0 <= i < after.len() implies after[i] != 0 by {
                    if i < s.keys.len() {
                        assert(s.keys.contains(after[i]));
                    }
                }
            }
        },
        Commands::KeyUp(key) => {
            s.keys.index_of_first_ensures(key);
            if !KeyboardModifiers::spec_is_modifier(key) && s.keys.contains(key) {
                let at = s.keys.index_of_first(key)->Some_0;
                let after = s.keys.remove(at);
                assert forall|i: int| 0 <= i < after.len() implies s.keys.contains(
                    #[trigger] after[i],
                ) by {
                    if i < at {
                        assert(after[i] == s.keys[i]);
                    } else {
                        assert(after[i] == s.keys[i + 1]);
                    }
                }
            }
        },
        _ => {},
    }
}

/// Whatever commands arrive, from the state in which nothing is held down on:
/// at most six key slots are taken, no key twice, and the empty slots are the
/// last ones.
pub proof fn lemma_run_keeps_slots_in_order(cmds: Seq<Commands>)
    ensures
        ({
            let keys = run(initial_state(), cmds).keys;
            &&& valid_keys(keys)
            &&& compact(slots_of(keys))
            &&& forall|i: int| 0 <= i < KEY_SLOTS ==> (slots_of(keys)[i] != 0 <==> i < keys.len())
        }),
    decreases cmds.len(),
{
    let start = initial_state();
    if cmds.len() > 0 {
        lemma_run_keeps_slots_in_order(cmds.drop_last());
        lemma_next_state_keeps_keys_valid(run(start, cmds.drop_last()), cmds.last());
    }
    lemma_slots_of_valid_keys(run(start, cmds).keys);
}

/// To press a key that is held down already changes nothing: a second press
/// leaves the state as the first one left it.
pub proof fn lemma_press_twice(s: InputState, key: u8)
    ensures
        next_state(next_state(s, Commands::KeyDown(key)), Commands::KeyDown(key)) == next_state(
            s,
            Commands::KeyDown(key),
        ),
        press(press(s.keys, key), key) == press(s.keys, key),
{
    let once = next_state(s, Commands::KeyDown(key));
    let twice = next_state(once, Commands::KeyDown(key));
    if press(s.keys, key) != s.keys {
        assert(s.keys.push(key)[s.keys.len() as int] == key);
        assert(s.keys.push(key).contains(key));
    }
    assert(twice.modifiers =~= once.modifiers);
}

/// To release a key that is not held down changes nothing.
pub proof fn lemma_release_absent(s: InputState, key: u8)
    requires
        !is_held(s, key),
    ensures
        next_state(s, Commands::KeyUp(key)) == s,
{
    let after = next_state(s, Commands::KeyUp(key));
    s.keys.index_of_first_ensures(key);
    assert(after.modifiers =~= s.modifiers);
}

/// The report of the cursor at the absolute position `(x, y)`.
pub fn cursor_report(x: u16, y: u16) -> (r: CursorReport)
    ensures
        r == (CursorReport { buttons: 0, x, y }),
{
    CursorReport::with_position(x, y)
}

/// The report of a pointer motion by `(x, y)` while `btn` are held down.
pub fn mouse_report(x: i16, y: i16, btn: MouseButtons) -> (r: MouseReport)
    ensures
        r == (MouseReport { buttons: btn.spec_bits(), x, y, wheel: 0 }),
{
    MouseReport { buttons: btn.bits(), x, y, wheel: 0 }
}

/// The report of a wheel turn by `wheel` while `btn` are held down.
pub fn wheel_report(wheel: i8, btn: MouseButtons) -> (r: MouseReport)
    ensures
        r == (MouseReport { buttons: btn.spec_bits(), x: 0, y: 0, wheel }),
{
    MouseReport { buttons: btn.bits(), x: 0, y: 0, wheel }
}

/// The report of a keyboard on which `modifiers` and the keys in `keys` are
/// held down.
pub fn kbd_report(modifiers: KeyboardModifiers, keys: &[u8; 6]) -> (r: KeyboardReport)
    ensures
        r == (KeyboardReport { modifier: modifiers.spec_bits(), leds: 0, keycodes: *keys }),
{
    KeyboardReport { modifier: modifiers.bits(), keycodes: *keys, leds: 0 }
}

} // verus!
