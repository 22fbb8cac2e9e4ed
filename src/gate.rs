use vstd::prelude::*;

verus! {

/// Probes the page for skip selectors, one at a time and in order, until one
/// is present or none is left.
pub struct PreconditionGate {
    pub selectors: Vec<String>,
    /// Index of the next selector to probe
    pub next: usize,
    /// `Some(true)`: a selector was present; `Some(false)`: none was.
    pub verdict: Option<bool>,
    /// What each probe so far found
    pub seen: Ghost<Seq<bool>>,
}

impl PreconditionGate {
    /// Its verdict agrees with what its lookups found: it says skip
    /// exactly when some probed selector was present, it stopped probing at
    /// the first present one, and it clears the page only after probing
    /// every selector.
    pub open spec fn wf(&self) -> bool {
        let seen = self.seen@;
        &&& self.next == seen.len() <= self.selectors@.len()
        &&& forall|i: int| 0 <= i < seen.len() - 1 ==> !#[trigger] seen[i]
        &&& (self.verdict == Some(true)) <==> (exists|i: int|
            0 <= i < seen.len() && #[trigger] seen[i])
        &&& (self.verdict == Some(false)) <==> (seen.len() == self.selectors@.len() && forall|
            i: int,
        | 0 <= i < seen.len() ==> !#[trigger] seen[i])
    }

    /// This gate after the lookup of the next selector found it `found`.
    pub open spec fn observed(self, found: bool) -> PreconditionGate {
        let seen = self.seen@.push(found);
        PreconditionGate {
            selectors: self.selectors,
            next: (self.next + 1) as usize,
            verdict: if found {
                Some(true)
            } else if self.next + 1 == self.selectors@.len() {
                Some(false)
            } else {
                None
            },
            seen: Ghost(seen),
        }
    }

    pub fn new(selectors: Vec<String>) -> (g: PreconditionGate)
        ensures
            g.wf(),
            g.selectors == selectors,
            g.seen@ == Seq::<bool>::empty(),
            g.verdict == (if selectors@.len() == 0 {
                Some(false)
            } else {
                None
            }),
    {
        let verdict = if selectors.len() == 0 {
            Some(false)
        } else {
            None
        };
        PreconditionGate { selectors, next: 0, verdict, seen: Ghost(Seq::empty()) }
    }

    /// The selector to probe next, while no verdict is reached.
    pub fn next_probe(&self) -> (r: Option<&String>)
        requires
            self.wf(),
        ensures
            self.verdict is None ==> r == Some(&self.selectors@[self.next as int]),
            self.verdict is Some ==> r is None,
    {
        match self.verdict {
            Some(_) => None,
            None => Some(&self.selectors[self.next]),
        }
    }

    /// Records what the probe of the next selector found.
    pub fn observe(&mut self, found: bool)
        requires
            old(self).wf(),
            old(self).verdict is None,
        ensures
            final(self).wf(),
            *final(self) == old(self).observed(found),
    {
        let ghost before = self.seen@;
        let count = self.selectors.len();
        proof {
            assert forall|i: int| 0 <= i < before.len() implies !#[trigger] before[i] by {
                if before[i] {
                    assert(exists|j: int| 0 <= j < before.len() && #[trigger] before[j]);
                }
            }
            assert(self.next < self.selectors@.len());
        }
        self.next = self.next + 1;
        self.seen = Ghost(before.push(found));
        if found {
            self.verdict = Some(true);
        } else if self.next == count {
            self.verdict = Some(false);
        }
        assert(self.seen@[before.len() as int] == found);
        if !found {
            assert forall|i: int| 0 <= i < self.seen@.len() implies !#[trigger] self.seen@[i] by {
                if i < before.len() {
                    assert(self.seen@[i] == before[i]);
                }
            }
        }
    }
}

/// Once a gate has its verdict, it says skip exactly when one of the
/// selectors it looked for was present; it looked for them in order and
/// stopped at the first present one; and when it says go on it has looked
/// for every selector.
pub proof fn lemma_gate_verdict(g: PreconditionGate)
    requires
        g.wf(),
        g.verdict is Some,
    ensures
        g.verdict == Some(true) <==> exists|i: int| 0 <= i < g.seen@.len() && #[trigger] g.seen@[i],
        g.verdict == Some(true) ==> g.seen@.last() && forall|i: int|
            0 <= i < g.seen@.len() - 1 ==> !#[trigger] g.seen@[i],
        g.verdict == Some(false) ==> g.seen@.len() == g.selectors@.len(),
{
    if g.verdict == Some(true) {
        let i = choose|i: int| 0 <= i < g.seen@.len() && #[trigger] g.seen@[i];
        if i < g.seen@.len() - 1 {
            assert(!g.seen@[i]);
        }
    }
}

} // verus!
