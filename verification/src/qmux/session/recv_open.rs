//! Which streams of the peer were opened before.

use std::collections::HashSet;

use vstd::prelude::*;

verus! {

/// Tracks which peer-initiated recv-stream indices (in one direction) are open,
/// closed, or merely implicitly opened, so a frame on an id can be classified.
///
/// A peer opening stream index N implicitly opens all lower indices too (RFC 9000,
/// section 3.2), and frames for different streams can arrive in any order. So a
/// vacant id below the high-water mark is ambiguous: it may have been created and
/// then retired (a duplicate/late frame to ignore) or implicitly opened and not
/// yet delivered (a genuinely new stream). We disambiguate by recording the
/// highest index we've instantiated a frontend for plus the still-unopened
/// "holes" beneath it.
pub struct RecvOpen {
    /// Highest index we've instantiated a frontend for (`None` = none yet).
    created_max: Option<u64>,
    /// Indices below `created_max` that were implicitly opened (a higher index
    /// arrived first) but haven't had their own first frame, so no frontend
    /// exists yet.
    holes: HashSet<u64>,
}

impl RecvOpen {
    #[verifier::type_invariant]
    spec fn holes_below(self) -> bool {
        forall|i: u64| #[trigger]
            self.holes@.contains(i) ==> (self.created_max matches Some(max) && i < max)
    }

    /// The indices that were recorded.
    pub closed spec fn opened(self) -> Set<u64> {
        Set::new(
            |i: u64|
                (self.created_max matches Some(max) && i <= max) && !self.holes@.contains(i),
        )
    }

    /// Nothing recorded yet.
    pub fn new() -> (r: RecvOpen)
        ensures
            r.opened() == Set::<u64>::empty(),
    {
        broadcast use vstd::std_specs::hash::group_hash_axioms;

        let r = RecvOpen { created_max: None, holes: HashSet::new() };
        assert(r.opened() =~= Set::<u64>::empty());
        r
    }

    /// Whether a frame for `index` targets an already-closed stream: one we
    /// created before (`index <= created_max` and not a still-open hole) but that
    /// is no longer live. Callers check the active map for liveness separately.
    pub fn is_closed(&self, index: u64) -> (r: bool)
        ensures
            r == self.opened().contains(index),
    {
        broadcast use vstd::std_specs::hash::group_hash_axioms;

        match self.created_max {
            Some(max) => index <= max && !self.holes.contains(&index),
            None => false,
        }
    }

    /// Record that `index` has been opened (a STREAM frontend instantiated for it,
    /// or a RESET_STREAM consuming it), advancing the high-water mark and filling
    /// in the holes it implicitly opened.
    pub fn record(&mut self, index: u64)
        ensures
            final(self).opened() == old(self).opened().insert(index),
    {
        broadcast use vstd::std_specs::hash::group_hash_axioms;

        proof {
            use_type_invariant(&*self);
        }
        let ghost before = self.opened();
        let mut holes: HashSet<u64> = HashSet::new();
        std::mem::swap(&mut self.holes, &mut holes);
        let ghost had = holes@;
        match self.created_max {
            Some(max) if index <= max => {
                // Filling a previously-implicit hole below the high-water mark.
                holes.remove(&index);
            },
            prev => {
                // New high-water mark: everything between the old mark and this
                // index is now implicitly opened but not yet delivered.
                let start: u64 = match prev {
                    Some(max) => max + 1,
                    None => 0,
                };
                let mut i: u64 = start;
                while i < index
                    invariant
                        start <= i,
                        start <= index ==> i <= index,
                        forall|j: u64| #[trigger]
                            holes@.contains(j) <==> (had.contains(j) || start <= j < i),
                    decreases index - i,
                {
                    holes.insert(i);
                    i += 1;
                }
                self.created_max = Some(index);
            },
        }
        self.holes = holes;
        assert(self.opened() =~= before.insert(index));
    }
}

} // verus!
