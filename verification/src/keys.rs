//! Key bindings and the classification of raw input chunks against them.

use vstd::prelude::*;

verus! {

/// A key as the bytes a terminal sends for it; `None` is an unbound key.
pub type Key = Option<Vec<u8>>;

/// The escape keys of a streaming session.
pub struct KeyBindings {
    pub prefix: Key,
    pub pause: Key,
}

/// The mathematical value of [`KeyBindings`].
pub struct KeyBindingsView {
    pub prefix: Option<Seq<u8>>,
    pub pause: Option<Seq<u8>>,
}

/// The bytes of a key, if it is bound.
pub open spec fn key_view(key: Key) -> Option<Seq<u8>> {
    match key {
        Some(bytes) => Some(bytes@),
        None => None,
    }
}

/// The pause key when the configuration names none: `^\`.
pub open spec fn default_pause() -> Seq<u8> {
    seq![0x1cu8]
}

impl View for KeyBindings {
    type V = KeyBindingsView;

    open spec fn view(&self) -> KeyBindingsView {
        KeyBindingsView { prefix: key_view(self.prefix), pause: key_view(self.pause) }
    }
}

impl Default for KeyBindings {
    /// No prefix key, and `^\` to pause.
    fn default() -> (keys: KeyBindings)
        ensures
            keys@ == (KeyBindingsView { prefix: None, pause: Some(default_pause()) }),
    {
        let mut pause: Vec<u8> = Vec::new();
        pause.push(0x1c);
        assert(pause@ =~= default_pause());
        KeyBindings { prefix: None, pause: Some(pause) }
    }
}

/// The bindings that a configuration resolves to. A setting that is absent
/// (`Ok(None)`) leaves the default in place; one that is present replaces it,
/// also by "unbound".
pub open spec fn resolved_bindings(prefix: Option<Key>, pause: Option<Key>) -> KeyBindingsView {
    KeyBindingsView {
        prefix: match prefix {
            Some(key) => key_view(key),
            None => None,
        },
        pause: match pause {
            Some(key) => key_view(key),
            None => Some(default_pause()),
        },
    }
}

/// Builds the key bindings from the two configured keys, each of which may be
/// absent or may have failed to parse. The prefix key is looked at first, so
/// its error wins over one of the pause key.
pub fn get_key_bindings<E>(prefix_key: Result<Option<Key>, E>, pause_key: Result<Option<Key>, E>)
    -> (result: Result<KeyBindings, E>)
    ensures
        match (prefix_key, pause_key) {
            (Err(e), _) => result == Err::<KeyBindings, E>(e),
            (Ok(_), Err(e)) => result == Err::<KeyBindings, E>(e),
            (Ok(prefix), Ok(pause)) => result is Ok && result->Ok_0@ == resolved_bindings(
                prefix,
                pause,
            ),
        },
{
    let mut keys = KeyBindings::default();
    match prefix_key {
        Err(e) => {
            return Err(e);
        },
        Ok(Some(key)) => {
            keys.prefix = key;
        },
        Ok(None) => {},
    }
    match pause_key {
        Err(e) => {
            return Err(e);
        },
        Ok(Some(key)) => {
            keys.pause = key;
        },
        Ok(None) => {},
    }
    Ok(keys)
}

/// Whether the prefix key was the last chunk seen.
#[derive(Clone, Copy, Debug, PartialEq, Eq, Structural)]
pub struct InputGateState {
    pub armed: bool,
}

/// What an input chunk means to the streamer.
#[derive(Clone, Copy, Debug, PartialEq, Eq, Structural)]
pub enum Classification {
    /// The prefix key: consumed, and the input state is armed.
    PrefixArmed,
    /// The pause key, where it counts: consumed, pause flips.
    PauseToggled,
    /// Ordinary input.
    PassThrough,
}

/// The meaning of `chunk` for an input state that is `armed` or not. A chunk matches a
/// key only when it equals it byte for byte.
pub open spec fn classify_spec(armed: bool, chunk: Seq<u8>, keys: KeyBindingsView)
    -> Classification {
    if !armed && keys.prefix == Some(chunk) {
        Classification::PrefixArmed
    } else if (armed || keys.prefix is None) && keys.pause == Some(chunk) {
        Classification::PauseToggled
    } else {
        Classification::PassThrough
    }
}

/// Whether two byte strings are the same.
pub fn bytes_equal(a: &[u8], b: &[u8]) -> (same: bool)
    ensures
        same == (a@ == b@),
{
    if a.len() != b.len() {
        return false;
    }
    let mut i: usize = 0;
    while i < a.len()
        invariant
            a@.len() == b@.len(),
            i <= a@.len(),
            forall|k: int| 0 <= k < i ==> a@[k] == b@[k],
        decreases a@.len() - i,
    {
        if a[i] != b[i] {
            return false;
        }
        i += 1;
    }
    assert(a@ =~= b@);
    true
}

/// Whether `chunk` is exactly the key, which must be bound to match anything.
pub fn key_matches(key: &Key, chunk: &[u8]) -> (hit: bool)
    ensures
        hit == (key_view(*key) == Some(chunk@)),
{
    match key {
        Some(bytes) => bytes_equal(chunk, bytes.as_slice()),
        None => false,
    }
}

/// Classifies one input chunk and moves the input state: only the prefix key leaves
/// it armed, every other chunk disarms it.
pub fn classify(state: &mut InputGateState, chunk: &[u8], keys: &KeyBindings) -> (class:
    Classification)
    ensures
        class == classify_spec(old(state).armed, chunk@, keys@),
        final(state).armed == (class == Classification::PrefixArmed),
{
    if !state.armed && key_matches(&keys.prefix, chunk) {
        state.armed = true;
        return Classification::PrefixArmed;
    }
    let counts = state.armed || keys.prefix.is_none();
    state.armed = false;
    if counts && key_matches(&keys.pause, chunk) {
        return Classification::PauseToggled;
    }
    Classification::PassThrough
}

} // verus!
