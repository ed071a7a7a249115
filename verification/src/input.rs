//! Edge-triggered input: named actions bound to physical keys, and for each
//! frame which of the bound keys went down, stayed down or came up.

use std::collections::{BTreeMap, BTreeSet};
use vstd::laws_cmp::obeys_cmp;
use vstd::prelude::*;
use vstd::std_specs::iter::IteratorSpec;
use winit::event::VirtualKeyCode;
use winit_input_helper::WinitInputHelper;

verus! {

/// The code of a physical key: a number that stands for the key.
pub type KeyCode = u32;

/// The window system's name for a key, as an opaque value.
#[verifier::external_type_specification]
#[verifier::external_body]
pub struct ExVirtualKeyCode(VirtualKeyCode);

/// The window system's record of the keys that are down, as an opaque value.
#[verifier::external_type_specification]
#[verifier::external_body]
pub struct ExWinitInputHelper(WinitInputHelper);

/// The code of the key `key`.
pub uninterp spec fn code_of(key: VirtualKeyCode) -> KeyCode;

/// The codes of the keys that `events` holds as down.
pub uninterp spec fn keys_down(events: WinitInputHelper) -> Set<KeyCode>;

/// The cast of a `VirtualKeyCode` to an integer: the key's code, which is
/// the number of its variant.
#[verifier::external_body]
fn key_code(key: VirtualKeyCode) -> (code: KeyCode)
    ensures
        code == code_of(key),
{
    key as KeyCode
}

/// `WinitInputHelper::key_held`: whether `key` is down. The helper keeps one
/// flag for each key code, and answers with the flag of the key's code.
#[verifier::external_body]
fn key_held(events: &WinitInputHelper, key: VirtualKeyCode) -> (down: bool)
    ensures
        down == keys_down(*events).contains(code_of(key)),
{
    events.key_held(key)
}

/// Where a frame learns which keys are down: from the window system's
/// record, or from a set of key codes.
enum KeySource<'a> {
    Helper(&'a WinitInputHelper),
    Codes(&'a BTreeSet<KeyCode>),
}

impl<'a> KeySource<'a> {
    /// The codes of the keys that are down.
    spec fn down(&self) -> Set<KeyCode> {
        match self {
            KeySource::Helper(events) => keys_down(**events),
            KeySource::Codes(held) => held@,
        }
    }

    /// Whether `key` is down.
    fn has(&self, key: VirtualKeyCode) -> (b: bool)
        ensures
            b == self.down().contains(code_of(key)),
    {
        match self {
            KeySource::Helper(events) => key_held(events, key),
            KeySource::Codes(held) => {
                let code: KeyCode = key_code(key);
                held.contains(&code)
            },
        }
    }
}

/// The bindings of actions to keys, and the bound keys that were down in the
/// current frame and in the frame before it. `ActionID` is whatever the game
/// names its actions with; what is said of an `Input` holds for action types
/// that are ordered lawfully.
pub struct Input<ActionID: Ord + Eq> {
    key_map: BTreeMap<ActionID, VirtualKeyCode>,
    this_frame_keys: BTreeSet<KeyCode>,
    last_frame_keys: BTreeSet<KeyCode>,
}

impl<ActionID: Ord + Eq> Input<ActionID> {
    /// The code of the key of each bound action.
    pub closed spec fn bindings(&self) -> Map<ActionID, KeyCode> {
        self.key_map@.map_values(|key: VirtualKeyCode| code_of(key))
    }

    /// The codes of the bound keys that were down at the last update.
    pub closed spec fn down(&self) -> Set<KeyCode> {
        self.this_frame_keys@
    }

    /// The codes of the bound keys that were down at the update before the
    /// last.
    pub closed spec fn was_down(&self) -> Set<KeyCode> {
        self.last_frame_keys@
    }

    /// Whether the key of `id` is in `keys`. An action that is not bound has
    /// no key, and so its key is in no set.
    pub open spec fn key_in(&self, id: ActionID, keys: Set<KeyCode>) -> bool {
        self.bindings().contains_key(id) && keys.contains(self.bindings()[id])
    }

    /// Whether the key of `id` is down in the current frame.
    pub open spec fn held(&self, id: ActionID) -> bool {
        self.key_in(id, self.down())
    }

    /// Whether the key of `id` went down with the current frame.
    pub open spec fn pressed(&self, id: ActionID) -> bool {
        self.key_in(id, self.down()) && !self.key_in(id, self.was_down())
    }

    /// Whether the key of `id` came up with the current frame.
    pub open spec fn released(&self, id: ActionID) -> bool {
        !self.key_in(id, self.down()) && self.key_in(id, self.was_down())
    }

    /// Whether `self` is what an update makes of `before` when the keys in
    /// `held` are down: the bindings stay, the current frame of `before` is
    /// the frame before, and the current frame holds the bound keys that
    /// are in `held`.
    pub open spec fn follows(&self, before: &Self, held: Set<KeyCode>) -> bool {
        &&& self.bindings() == before.bindings()
        &&& self.was_down() == before.down()
        &&& self.down() == before.bindings().values().intersect(held)
    }

    /// After two updates in a row, an action is pressed exactly when it is
    /// bound to a key that was down at the second update and not at the
    /// first, released exactly when its key was down at the first and not at
    /// the second, and held exactly when its key was down at the second.
    pub proof fn lemma_edges(start: &Self, first: &Self, second: &Self, a: Set<KeyCode>, b: Set<
        KeyCode,
    >, id: ActionID)
        requires
            first.follows(start, a),
            second.follows(first, b),
        ensures
            second.held(id) <==> start.key_in(id, b),
            second.pressed(id) <==> start.key_in(id, b) && !start.key_in(id, a),
            second.released(id) <==> !start.key_in(id, b) && start.key_in(id, a),
    {
        if start.bindings().contains_key(id) {
            assert(start.bindings().values().contains(start.bindings()[id]));
        }
    }

    /// No action is pressed and released in one frame; one that is pressed
    /// is held, and one that is released is not.
    pub proof fn lemma_one_edge_at_most(&self, id: ActionID)
        ensures
            self.pressed(id) ==> self.held(id) && !self.released(id),
            self.released(id) ==> !self.held(id),
    {
    }

    /// No bindings, and no key down in either frame: whatever is asked of a
    /// new input is false.
    pub fn new() -> (input: Self)
        ensures
            input.bindings() == Map::<ActionID, KeyCode>::empty(),
            input.down() == Set::<KeyCode>::empty(),
            input.was_down() == Set::<KeyCode>::empty(),
            forall|id: ActionID| !input.held(id) && !input.pressed(id) && !input.released(id),
    {
        let input = Self {
            key_map: BTreeMap::new(),
            this_frame_keys: BTreeSet::new(),
            last_frame_keys: BTreeSet::new(),
        };
        assert(input.bindings() =~= Map::<ActionID, KeyCode>::empty());
        input
    }

    /// Binds the action `id` to `key`. A binding that `id` had before is
    /// replaced.
    pub fn add_key_to_map(&mut self, id: ActionID, key: VirtualKeyCode)
        requires
            obeys_cmp::<ActionID>(),
        ensures
            final(self).bindings() == old(self).bindings().insert(id, code_of(key)),
            final(self).down() == old(self).down(),
            final(self).was_down() == old(self).was_down(),
    {
        self.key_map.insert(id, key);
        assert(self.bindings() =~= old(self).bindings().insert(id, code_of(key)));
    }

    /// Starts a frame in which the keys that `source` gives are down.
    fn turn(&mut self, source: &KeySource)
        requires
            obeys_cmp::<ActionID>(),
        ensures
            final(self).follows(old(self), source.down()),
    {
        let mut now: BTreeSet<KeyCode> = BTreeSet::new();
        let ghost bound: Seq<VirtualKeyCode> = self.key_map.values().remaining().unref();
        let ghost mut seen: int = 0;
        for key in it: self.key_map.values()
            invariant
                it.seq().unref() == bound,
                seen == it.index(),
                forall|k: KeyCode|
                    now@.contains(k) <==> source.down().contains(k) && exists|i: int|
                        0 <= i < seen && code_of(#[trigger] bound[i]) == k,
        {
            if source.has(*key) {
                now.insert(key_code(*key));
            }
            proof {
                seen = seen + 1;
            }
        }
        proof {
            assert(seen == bound.len());
            assert(bound.to_set() == self.key_map@.values());
            assert forall|k: KeyCode|
                now@.contains(k) <==> self.bindings().values().intersect(source.down()).contains(
                    k,
                ) by {
                if self.bindings().values().contains(k) {
                    let id = choose|id: ActionID|
                        self.bindings().contains_key(id) && self.bindings()[id] == k;
                    assert(self.key_map@.values().contains(self.key_map@[id]));
                    assert(bound.contains(self.key_map@[id]));
                }
                if exists|i: int| 0 <= i < seen && code_of(#[trigger] bound[i]) == k {
                    let i = choose|i: int| 0 <= i < seen && code_of(#[trigger] bound[i]) == k;
                    assert(bound.contains(bound[i]));
                    let id = choose|id: ActionID|
                        self.key_map@.contains_key(id) && self.key_map@[id] == bound[i];
                    assert(self.bindings().contains_key(id) && self.bindings()[id] == k);
                }
            }
            assert(now@ =~= self.bindings().values().intersect(source.down()));
        }
        std::mem::swap(&mut self.this_frame_keys, &mut now);
        self.last_frame_keys = now;
    }

    /// Starts a frame in which the keys whose codes are in `held` are down.
    /// What was the current frame becomes the frame before, and the keys of
    /// the current frame are the bound keys that are in `held`.
    pub fn advance(&mut self, held: &BTreeSet<KeyCode>)
        requires
            obeys_cmp::<ActionID>(),
        ensures
            final(self).follows(old(self), held@),
    {
        self.turn(&KeySource::Codes(held));
    }

    /// Starts a frame: reads from `events` which of the bound keys are down
    /// now, and goes on as [`Input::advance`] does with the keys that
    /// `events` holds as down. To be called once for each frame, before
    /// anything is asked.
    pub fn update(&mut self, events: &WinitInputHelper)
        requires
            obeys_cmp::<ActionID>(),
        ensures
            final(self).follows(old(self), keys_down(*events)),
    {
        self.turn(&KeySource::Helper(events));
    }

    /// Whether the key of `id` is down in the current frame.
    pub fn is_held(&self, id: ActionID) -> (b: bool)
        requires
            obeys_cmp::<ActionID>(),
        ensures
            b == self.held(id),
    {
        match self.key_map.get(&id) {
            Some(key) => {
                let code: KeyCode = key_code(*key);
                self.this_frame_keys.contains(&code)
            },
            None => false,
        }
    }

    /// Whether the key of `id` went down with the current frame: it is down
    /// now and was not down in the frame before.
    pub fn is_pressed(&self, id: ActionID) -> (b: bool)
        requires
            obeys_cmp::<ActionID>(),
        ensures
            b == self.pressed(id),
    {
        match self.key_map.get(&id) {
            Some(key) => {
                let code: KeyCode = key_code(*key);
                self.this_frame_keys.contains(&code) && !self.last_frame_keys.contains(&code)
            },
            None => false,
        }
    }

    /// Whether the key of `id` came up with the current frame: it is not
    /// down now and was down in the frame before.
    pub fn is_released(&self, id: ActionID) -> (b: bool)
        requires
            obeys_cmp::<ActionID>(),
        ensures
            b == self.released(id),
    {
        match self.key_map.get(&id) {
            Some(key) => {
                let code: KeyCode = key_code(*key);
                !self.this_frame_keys.contains(&code) && self.last_frame_keys.contains(&code)
            },
            None => false,
        }
    }
}

} // verus!
