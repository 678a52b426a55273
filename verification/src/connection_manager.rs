use vstd::prelude::*;

use crate::error::Error;

verus! {

/// The registry of live supervisors, by target id. The supervisor tasks
/// themselves and their join handles live with the async runtime in the
/// embedding shell; the registry is what refuses a second connection for an
/// id whose supervisor is live.
pub struct ConnectionManager {
    pub active: Vec<u128>,
}

impl ConnectionManager {
    /// The ids with a live supervisor.
    pub open spec fn live(&self) -> Set<u128> {
        Set::new(|id: u128| self.active@.contains(id))
    }

    /// Each live id is recorded once.
    pub open spec fn wf(&self) -> bool {
        forall|i: int, j: int|
            0 <= i < j < self.active@.len() ==> self.active@[i] != self.active@[j]
    }

    pub fn new() -> (r: ConnectionManager)
        ensures
            r.wf(),
            r.live() == Set::<u128>::empty(),
    {
        let r = ConnectionManager { active: Vec::new() };
        proof {
            assert(r.live() =~= Set::<u128>::empty());
        }
        r
    }

    /// Whether a supervisor is live for this id.
    pub fn is_connected(&self, id: u128) -> (r: bool)
        ensures
            r == self.live().contains(id),
    {
        let mut i: usize = 0;
        while i < self.active.len()
            invariant
                i <= self.active@.len(),
                forall|j: int| 0 <= j < i ==> self.active@[j] != id,
            decreases self.active@.len() - i,
        {
            if self.active[i] == id {
                return true;
            }
            i = i + 1;
        }
        proof {
            assert(!self.active@.contains(id));
        }
        false
    }

    /// Record a supervisor for an id, refusing an id whose supervisor is
    /// already live — in that case nothing changes.
    pub fn connect_app(&mut self, id: u128) -> (r: Result<(), Error>)
        requires
            old(self).wf(),
        ensures
            final(self).wf(),
            match r {
                Ok(()) => !old(self).live().contains(id) && final(self).live() == old(
                    self,
                ).live().insert(id),
                Err(e) => {
                    &&& old(self).live().contains(id)
                    &&& e == Error::ApplicationAlreadyConnected(id)
                    &&& *final(self) == *old(self)
                },
            },
    {
        if self.is_connected(id) {
            return Err(Error::ApplicationAlreadyConnected(id));
        }
        let ghost s0 = self.active@;
        self.active.push(id);
        proof {
            assert forall|x: u128| self.live().contains(x) <==> old(self).live().insert(
                id,
            ).contains(x) by {
                if self.active@.contains(x) {
                    let i = choose|i: int| 0 <= i < self.active@.len() && self.active@[i] == x;
                    if i < s0.len() {
                        assert(s0[i] == x);
                    }
                }
                if s0.contains(x) {
                    let i = choose|i: int| 0 <= i < s0.len() && s0[i] == x;
                    assert(self.active@[i] == x);
                }
                if x == id {
                    assert(self.active@[s0.len() as int] == x);
                }
            }
            assert(self.live() =~= old(self).live().insert(id));
        }
        Ok(())
    }

    /// Forget the supervisor of an id; dropping the shell's join handle and
    /// command sender is the passive shutdown signal. An id with no live
    /// supervisor changes nothing.
    pub fn disconnect_app(&mut self, uuid: u128)
        requires
            old(self).wf(),
        ensures
            final(self).wf(),
            final(self).live() == old(self).live().remove(uuid),
    {
        let ghost s0 = self.active@;
        let mut i: usize = 0;
        while i < self.active.len()
            invariant
                self.active@ == s0,
                old(self).active@ == s0,
                forall|a: int, b: int| 0 <= a < b < s0.len() ==> s0[a] != s0[b],
                i <= s0.len(),
                forall|j: int| 0 <= j < i ==> s0[j] != uuid,
            decreases s0.len() - i,
        {
            if self.active[i] == uuid {
                self.active.remove(i);
                proof {
                    assert forall|x: u128| self.live().contains(x) <==> old(self).live().remove(
                        uuid,
                    ).contains(x) by {
                        if self.active@.contains(x) {
                            let j = choose|j: int|
                                0 <= j < self.active@.len() && self.active@[j] == x;
                            if j < i {
                                assert(s0[j] == x);
                            } else {
                                assert(s0[j + 1] == x);
                            }
                            assert(x != uuid ==> s0.contains(x));
                            if x == uuid {
                                let j0 = choose|j0: int|
                                    0 <= j0 < self.active@.len() && self.active@[j0] == uuid;
                                if j0 < i {
                                    assert(s0[j0] == uuid);
                                } else {
                                    assert(s0[j0 + 1] == uuid);
                                }
                                assert(false);
                            }
                        }
                        if s0.contains(x) && x != uuid {
                            let j = choose|j: int| 0 <= j < s0.len() && s0[j] == x;
                            if j < i {
                                assert(self.active@[j] == x);
                            } else {
                                assert(j != i);
                                assert(self.active@[j - 1] == x);
                            }
                        }
                    }
                    assert(self.live() =~= old(self).live().remove(uuid));
                }
                return ;
            }
            i = i + 1;
        }
        proof {
            assert(!s0.contains(uuid));
            assert(self.live() =~= old(self).live().remove(uuid));
        }
    }
}

} // verus!
