//! The state that the application manages, one value for each type.
use vstd::prelude::*;

verus! {

/// Names the type of a managed value.
#[derive(Clone, Copy, PartialEq, Eq, Structural, Debug)]
pub enum StateKey {
    /// The environment that the process was started with.
    Env,
    /// The scopes of the asset protocol.
    Scopes,
    /// The queue of channel data on its way to a webview.
    ChannelDataIpcQueue,
    /// A type of the user.
    User(u64),
}

/// The types of which a value is managed.
pub struct StateManager {
    keys: Vec<StateKey>,
}

impl View for StateManager {
    type V = Set<StateKey>;

    closed spec fn view(&self) -> Set<StateKey> {
        self.keys@.to_set()
    }
}

impl StateManager {
    /// No value is managed.
    pub fn new() -> (manager: Self)
        ensures
            manager@ == Set::<StateKey>::empty(),
    {
        let manager = StateManager { keys: Vec::new() };
        assert(manager@ =~= Set::<StateKey>::empty());
        manager
    }

    /// Whether a value of the type is managed.
    pub fn contains(&self, key: StateKey) -> (managed: bool)
        ensures
            managed == self@.contains(key),
    {
        let mut i: usize = 0;
        while i < self.keys.len()
            invariant
                i <= self.keys.len(),
                forall|j: int| 0 <= j < i ==> self.keys@[j] != key,
            decreases self.keys.len() - i,
        {
            if self.keys[i] == key {
                assert(self.keys@.contains(key));
                return true;
            }
            i += 1;
        }
        false
    }

    /// Takes a value of the type into management, unless one is managed already.
    pub fn set(&mut self, key: StateKey) -> (taken: bool)
        ensures
            taken == !old(self)@.contains(key),
            final(self)@ == old(self)@.insert(key),
    {
        if self.contains(key) {
            assert(self@.insert(key) =~= self@);
            return false;
        }
        let ghost before = self.keys@;
        self.keys.push(key);
        proof {
            let after = before.push(key);
            assert forall|k: StateKey| after.contains(k) <==> before.contains(k) || k == key by {
                if before.contains(k) {
                    let i = before.index_of(k);
                    assert(after[i] == k);
                }
                if k == key {
                    assert(after[before.len() as int] == k);
                }
            }
            assert(self@ =~= before.to_set().insert(key));
        }
        true
    }
}

} // verus!
