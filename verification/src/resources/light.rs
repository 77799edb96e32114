//! The lights a keyed bridge exposes, and the pending state changes to send
//! back to it.

use crate::codec::str_eq;
use vstd::prelude::*;

verus! {

/// The lights a bridge listed, keyed by the bridge's numeric light ids, in
/// the order the bridge listed them.
#[derive(Debug)]
pub struct Lights(pub Vec<(u32, Light)>);

/// A pending change to a light's state, sent back to the bridge; absent
/// fields are left as they are.
#[derive(Debug, Clone, Copy, PartialEq, Eq, Structural)]
pub struct LightChange {
    pub on: Option<bool>,
}

/// A single light: its name, its current state and the change to send, if
/// one is pending.
#[derive(Debug)]
pub struct Light {
    pub name: String,
    pub state: State,
    pub change: Option<LightChange>,
}

/// A light's current state.
#[derive(Debug, Clone, Copy, PartialEq, Eq, Structural)]
pub struct State {
    pub on: bool,
}

impl Lights {
    /// The first light carrying the given name, borrowed for mutation.
    /// Asking for a name no light carries is a caller error, ruled out by
    /// the precondition.
    pub fn name(&mut self, name: &str) -> (r: &mut Light)
        requires
            exists|k: int|
                0 <= k < old(self).0@.len() && (#[trigger] old(self).0@[k]).1.name@ == name@,
        ensures
            exists|k: int|
                {
                    &&& 0 <= k < old(self).0@.len()
                    &&& (#[trigger] old(self).0@[k]).1.name@ == name@
                    &&& forall|j: int| 0 <= j < k ==> old(self).0@[j].1.name@ != name@
                    &&& *r == old(self).0@[k].1
                    &&& final(self).0@ == old(self).0@.update(
                        k,
                        (old(self).0@[k].0, *final(r)),
                    )
                },
    {
        let idx = find_name_idx(&self.0, name);
        let entry = &mut self.0[idx];
        &mut entry.1
    }
}

fn find_name_idx(ls: &Vec<(u32, Light)>, name: &str) -> (idx: usize)
    requires
        exists|k: int| 0 <= k < ls@.len() && (#[trigger] ls@[k]).1.name@ == name@,
    ensures
        idx < ls@.len(),
        ls@[idx as int].1.name@ == name@,
        forall|j: int| 0 <= j < idx ==> ls@[j].1.name@ != name@,
{
    let n = ls.len();
    let mut idx: usize = 0;
    while idx < n
        invariant
            idx <= n,
            n == ls@.len(),
            forall|j: int| 0 <= j < idx ==> ls@[j].1.name@ != name@,
        decreases n - idx,
    {
        if str_eq(ls[idx].1.name.as_str(), name) {
            return idx;
        }
        idx += 1;
    }
    proof {
        let k = choose|k: int| 0 <= k < ls@.len() && (#[trigger] ls@[k]).1.name@ == name@;
        assert(ls@[k].1.name@ != name@);
        assert(false);
    }
    0
}

impl Light {
    /// Flips the light's state and records the pending change to send.
    pub fn toggle(&mut self)
        ensures
            final(self).state.on == !old(self).state.on,
            final(self).name == old(self).name,
            final(self).change == (Some(LightChange { on: Some(!old(self).state.on) })),
    {
        self.state.on = !self.state.on;
        self.change = Some(LightChange { on: Some(self.state.on) });
    }
}

} // verus!
