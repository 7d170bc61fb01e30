//! Bookkeeping of breakpoint locations.
//!
//! One table maps each requested address to its state: Pending while no
//! process holds it, Installed once the trap opcode has been planted and
//! the displaced original byte recorded.  Keeping a single map, with each
//! address at most once, is what rules out the classic corruption where a
//! second install records the trap opcode itself as the "original" byte.

use vstd::prelude::*;

verus! {

/// State of one breakpoint address.
#[derive(Clone, Copy, Debug, PartialEq, Eq, Structural)]
pub enum BreakpointState {
    /// Requested, but not planted in the current process image.
    Pending,
    /// Planted; carries the byte the trap opcode displaced.
    Installed(u8),
}

/// One requested trap location.
#[derive(Clone, Copy, Debug, PartialEq, Eq, Structural)]
pub struct Breakpoint {
    pub addr: usize,
    pub state: BreakpointState,
}

/// The registered breakpoints of a session, a map from address to state.
pub struct BreakpointTable {
    entries: Vec<Breakpoint>,
}

/// The map an entry sequence stands for; later entries would win, though
/// a well-formed table never repeats an address.
pub open spec fn entries_map(s: Seq<Breakpoint>) -> Map<int, BreakpointState>
    decreases s.len(),
{
    if s.len() == 0 {
        Map::empty()
    } else {
        entries_map(s.drop_last()).insert(s.last().addr as int, s.last().state)
    }
}

/// No address occurs twice.
pub open spec fn entries_unique(s: Seq<Breakpoint>) -> bool {
    forall|i: int, j: int| 0 <= i < j < s.len() ==> s[i].addr != s[j].addr
}

/// The address of the entry at `i`, as a mathematical integer.
pub open spec fn addr_at(s: Seq<Breakpoint>, i: int) -> int {
    s[i].addr as int
}

proof fn lemma_entries_map_dom(s: Seq<Breakpoint>)
    ensures
        forall|a: int|
            #[trigger] entries_map(s).dom().contains(a) <==> exists|i: int|
                0 <= i < s.len() && #[trigger] addr_at(s, i) == a,
    decreases s.len(),
{
    if s.len() > 0 {
        let d = s.drop_last();
        lemma_entries_map_dom(d);
        assert forall|a: int| #[trigger] entries_map(s).dom().contains(a) implies exists|i: int|
            0 <= i < s.len() && #[trigger] addr_at(s, i) == a by {
            if a == s.last().addr as int {
                assert(addr_at(s, s.len() - 1) == a);
            } else {
                assert(entries_map(d).dom().contains(a));
                let i = choose|i: int| 0 <= i < d.len() && #[trigger] addr_at(d, i) == a;
                assert(addr_at(s, i) == a);
            }
        }
        assert forall|a: int|
            (exists|i: int| 0 <= i < s.len() && #[trigger] addr_at(s, i) == a) implies entries_map(
            s,
        ).dom().contains(a) by {
            let i = choose|i: int| 0 <= i < s.len() && #[trigger] addr_at(s, i) == a;
            if i < s.len() - 1 {
                assert(addr_at(d, i) == a);
                assert(entries_map(d).dom().contains(a));
            }
        }
    }
}

proof fn lemma_entries_map_index(s: Seq<Breakpoint>, i: int)
    requires
        entries_unique(s),
        0 <= i < s.len(),
    ensures
        entries_map(s).dom().contains(s[i].addr as int),
        entries_map(s)[s[i].addr as int] == s[i].state,
    decreases s.len(),
{
    if i < s.len() - 1 {
        assert(s.drop_last()[i] == s[i]);
        lemma_entries_map_index(s.drop_last(), i);
    }
}

proof fn lemma_entries_map_update(s: Seq<Breakpoint>, i: int, b: Breakpoint)
    requires
        entries_unique(s),
        0 <= i < s.len(),
        b.addr == s[i].addr,
    ensures
        entries_map(s.update(i, b)) =~= entries_map(s).insert(b.addr as int, b.state),
    decreases s.len(),
{
    let t = s.update(i, b);
    if i == s.len() - 1 {
        assert(t.drop_last() =~= s.drop_last());
        assert(t.last() == b);
    } else {
        assert(t.drop_last() =~= s.drop_last().update(i, b));
        assert(s.drop_last()[i] == s[i]);
        lemma_entries_map_update(s.drop_last(), i, b);
        assert(t.last() == s.last());
        // the two inserts go to different keys, so they commute
        assert(s.last().addr != b.addr);
    }
}

impl View for BreakpointTable {
    type V = Map<int, BreakpointState>;

    closed spec fn view(&self) -> Map<int, BreakpointState> {
        entries_map(self.entries@)
    }
}

impl BreakpointTable {
    #[verifier::type_invariant]
    closed spec fn wf(self) -> bool {
        entries_unique(self.entries@)
    }

    /// An empty table.
    pub fn new() -> (r: BreakpointTable)
        ensures
            r@ == Map::<int, BreakpointState>::empty(),
    {
        BreakpointTable { entries: Vec::new() }
    }

    /// The index of the entry for `addr`, if the address is registered.
    fn find_index(&self, addr: usize) -> (r: Option<usize>)
        ensures
            match r {
                Some(i) => i < self.entries@.len() && self.entries@[i as int].addr == addr,
                None => forall|i: int| 0 <= i < self.entries@.len() ==> self.entries@[i].addr != addr,
            },
    {
        let n = self.entries.len();
        let mut i: usize = 0;
        while i < n
            invariant
                i <= n,
                n == self.entries@.len(),
                forall|j: int| 0 <= j < i ==> self.entries@[j].addr != addr,
            decreases n - i,
        {
            if self.entries[i].addr == addr {
                return Some(i);
            }
            i += 1;
        }
        None
    }

    /// Whether `addr` is registered.
    pub fn contains(&self, addr: usize) -> (r: bool)
        ensures
            r == self@.dom().contains(addr as int),
    {
        proof {
            use_type_invariant(&*self);
            lemma_entries_map_dom(self.entries@);
        }
        match self.find_index(addr) {
            Some(i) => {
                proof {
                    assert(addr_at(self.entries@, i as int) == addr as int);
                }
                true
            },
            None => {
                proof {
                    self.lemma_not_found(addr);
                }
                false
            },
        }
    }

    /// When no entry holds `addr`, the map has no key for it either.
    proof fn lemma_not_found(&self, addr: usize)
        requires
            forall|i: int| 0 <= i < self.entries@.len() ==> self.entries@[i].addr != addr,
        ensures
            !self@.dom().contains(addr as int),
    {
        lemma_entries_map_dom(self.entries@);
        if self@.dom().contains(addr as int) {
            let i = choose|i: int|
                0 <= i < self.entries@.len() && #[trigger] addr_at(self.entries@, i) == addr as int;
            assert(self.entries@[i].addr != addr);
        }
    }

    /// The state recorded for `addr`, if the address is registered.
    pub fn get(&self, addr: usize) -> (r: Option<BreakpointState>)
        ensures
            r == if self@.dom().contains(addr as int) {
                Some(self@[addr as int])
            } else {
                None::<BreakpointState>
            },
    {
        proof {
            use_type_invariant(&*self);
            lemma_entries_map_dom(self.entries@);
        }
        match self.find_index(addr) {
            Some(i) => {
                proof {
                    assert(addr_at(self.entries@, i as int) == addr as int);
                    lemma_entries_map_index(self.entries@, i as int);
                }
                Some(self.entries[i].state)
            },
            None => {
                proof {
                    self.lemma_not_found(addr);
                }
                None
            },
        }
    }

    /// The displaced original byte at `addr`, if a breakpoint is both
    /// registered and installed there.
    pub fn installed_byte(&self, addr: usize) -> (r: Option<u8>)
        ensures
            r == if self@.dom().contains(addr as int) {
                match self@[addr as int] {
                    BreakpointState::Installed(b) => Some(b),
                    BreakpointState::Pending => None::<u8>,
                }
            } else {
                None::<u8>
            },
    {
        match self.get(addr) {
            Some(BreakpointState::Installed(b)) => Some(b),
            _ => None,
        }
    }

    /// Registers `addr` as Pending.  An address already in the table is
    /// left exactly as it is: registration never forgets a recorded
    /// original byte.
    pub fn register(&mut self, addr: usize) -> (added: bool)
        ensures
            added == !old(self)@.dom().contains(addr as int),
            final(self)@ == if old(self)@.dom().contains(addr as int) {
                old(self)@
            } else {
                old(self)@.insert(addr as int, BreakpointState::Pending)
            },
    {
        proof {
            use_type_invariant(&*self);
            lemma_entries_map_dom(self.entries@);
        }
        match self.find_index(addr) {
            Some(i) => {
                proof {
                    assert(addr_at(self.entries@, i as int) == addr as int);
                }
                false
            },
            None => {
                proof {
                    self.lemma_not_found(addr);
                }
                let mut entries: Vec<Breakpoint> = Vec::new();
                core::mem::swap(&mut entries, &mut self.entries);
                entries.push(Breakpoint { addr, state: BreakpointState::Pending });
                core::mem::swap(&mut entries, &mut self.entries);
                proof {
                    assert(self.entries@.drop_last() =~= old(self).entries@);
                }
                true
            },
        }
    }

    /// Records the state of the registered address `addr`.
    pub fn set_state(&mut self, addr: usize, state: BreakpointState)
        requires
            old(self)@.dom().contains(addr as int),
        ensures
            final(self)@ == old(self)@.insert(addr as int, state),
    {
        proof {
            use_type_invariant(&*self);
            lemma_entries_map_dom(self.entries@);
        }
        match self.find_index(addr) {
            Some(i) => {
                let b = Breakpoint { addr, state };
                proof {
                    lemma_entries_map_update(self.entries@, i as int, b);
                }
                let mut entries: Vec<Breakpoint> = Vec::new();
                core::mem::swap(&mut entries, &mut self.entries);
                entries[i] = b;
                core::mem::swap(&mut entries, &mut self.entries);
            },
            None => {
                proof {
                    // contradicts the precondition: addr is in the domain
                    self.lemma_not_found(addr);
                }
            },
        }
    }

    /// Every registered address, each exactly once.
    pub fn addresses(&self) -> (r: Vec<usize>)
        ensures
            forall|i: int| 0 <= i < r@.len() ==> self@.dom().contains(#[trigger] r@[i] as int),
            forall|a: int|
                self@.dom().contains(a) ==> exists|i: int| 0 <= i < r@.len() && #[trigger] r@[i] as int == a,
            forall|i: int, j: int| 0 <= i < j < r@.len() ==> r@[i] != r@[j],
    {
        proof {
            use_type_invariant(&*self);
            lemma_entries_map_dom(self.entries@);
        }
        let n = self.entries.len();
        let mut r: Vec<usize> = Vec::new();
        let mut i: usize = 0;
        while i < n
            invariant
                i <= n,
                n == self.entries@.len(),
                r@.len() == i,
                entries_unique(self.entries@),
                forall|j: int| 0 <= j < i ==> r@[j] == self.entries@[j].addr,
            decreases n - i,
        {
            r.push(self.entries[i].addr);
            i += 1;
        }
        proof {
            assert forall|i: int| 0 <= i < r@.len() implies self@.dom().contains(
                #[trigger] r@[i] as int,
            ) by {
                assert(addr_at(self.entries@, i) == r@[i] as int);
            }
            assert forall|a: int| self@.dom().contains(a) implies exists|i: int|
                0 <= i < r@.len() && #[trigger] r@[i] as int == a by {
                let i = choose|i: int| 0 <= i < self.entries@.len() && #[trigger] addr_at(self.entries@, i) == a;
                assert(r@[i] as int == a);
            }
        }
        r
    }
}

} // verus!
