use vstd::prelude::*;

verus! {

/// The singleton bridge control state.
///
/// Created once at bootstrap; `paused` is toggled only by `admin`, and
/// `total_bridged` only ever grows, by exactly one per accepted message.
pub struct ProgramState {
    /// The identity authorized for privileged operations, as 32 bytes.
    pub admin: [u8; 32],
    /// While true, every inbound message is rejected before any other check.
    pub paused: bool,
    /// Count of accepted attestations across all keys; never reset.
    pub total_bridged: u64,
}

/// Identity equality, decided byte by byte.
pub fn id_matches(a: &[u8; 32], b: &[u8; 32]) -> (r: bool)
    ensures
        r == (a@ == b@),
{
    let mut i: usize = 0;
    while i < 32
        invariant
            i <= 32,
            forall|j: int| 0 <= j < i ==> a@[j] == b@[j],
        decreases 32 - i,
    {
        if a[i] != b[i] {
            return false;
        }
        i += 1;
    }
    proof {
        assert(a@ =~= b@);
    }
    true
}

impl ProgramState {
    /// Counts one more accepted message. Called exactly once per acceptance,
    /// inside the same atomic unit as the record commit.
    pub fn increment_total_bridged(&mut self)
        requires
            old(self).total_bridged < u64::MAX,
        ensures
            final(self).admin == old(self).admin,
            final(self).paused == old(self).paused,
            final(self).total_bridged == old(self).total_bridged + 1,
    {
        self.total_bridged = self.total_bridged + 1;
    }
}

} // verus!
