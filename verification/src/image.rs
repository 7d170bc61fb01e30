//! A word-granular image of target memory, and a simulated target.
//!
//! The image mirrors how the kernel exposes a traced child's memory: words
//! at aligned addresses, bytes synthesized by splicing.  It gives the
//! breakpoint protocol something it can be proved against in full: the
//! simulated target below carries an instruction pointer and a log of the
//! opcodes its single steps fetched, so "the displaced instruction runs
//! exactly once per pass, and the trap stays armed" is a theorem, not a
//! hope.

use vstd::prelude::*;
use crate::words;
use crate::words::{byte_of_word, word_with_byte, TRAP_OPCODE, WORD_BYTES};

verus! {

/// One mapped word of the image.
#[derive(Clone, Copy, Debug, PartialEq, Eq, Structural)]
pub struct ImageWord {
    pub addr: usize,
    pub word: u64,
}

/// Target memory as a finite map from aligned address to word.
pub struct MemoryImage {
    words: Vec<ImageWord>,
}

/// The map an image word sequence stands for.
pub open spec fn words_map(s: Seq<ImageWord>) -> Map<int, u64>
    decreases s.len(),
{
    if s.len() == 0 {
        Map::empty()
    } else {
        words_map(s.drop_last()).insert(s.last().addr as int, s.last().word)
    }
}

/// Every mapped address exactly once, and word-aligned.
pub open spec fn words_wf(s: Seq<ImageWord>) -> bool {
    (forall|i: int, j: int| 0 <= i < j < s.len() ==> s[i].addr != s[j].addr) && (forall|i: int|
        0 <= i < s.len() ==> #[trigger] s[i].addr as int % 8 == 0)
}

/// The mapped address of the entry at `i`, as a mathematical integer.
pub open spec fn waddr_at(s: Seq<ImageWord>, i: int) -> int {
    s[i].addr as int
}

proof fn lemma_words_map_dom(s: Seq<ImageWord>)
    ensures
        forall|a: int|
            #[trigger] words_map(s).dom().contains(a) <==> exists|i: int|
                0 <= i < s.len() && #[trigger] waddr_at(s, i) == a,
    decreases s.len(),
{
    if s.len() > 0 {
        let d = s.drop_last();
        lemma_words_map_dom(d);
        assert forall|a: int| #[trigger] words_map(s).dom().contains(a) implies exists|i: int|
            0 <= i < s.len() && #[trigger] waddr_at(s, i) == a by {
            if a == s.last().addr as int {
                assert(waddr_at(s, s.len() - 1) == a);
            } else {
                assert(words_map(d).dom().contains(a));
                let i = choose|i: int| 0 <= i < d.len() && #[trigger] waddr_at(d, i) == a;
                assert(waddr_at(s, i) == a);
            }
        }
        assert forall|a: int|
            (exists|i: int| 0 <= i < s.len() && #[trigger] waddr_at(s, i) == a) implies words_map(
            s,
        ).dom().contains(a) by {
            let i = choose|i: int| 0 <= i < s.len() && #[trigger] waddr_at(s, i) == a;
            if i < s.len() - 1 {
                assert(waddr_at(d, i) == a);
                assert(words_map(d).dom().contains(a));
            }
        }
    }
}

proof fn lemma_words_map_index(s: Seq<ImageWord>, i: int)
    requires
        words_wf(s),
        0 <= i < s.len(),
    ensures
        words_map(s).dom().contains(s[i].addr as int),
        words_map(s)[s[i].addr as int] == s[i].word,
    decreases s.len(),
{
    if i < s.len() - 1 {
        assert(s.drop_last()[i] == s[i]);
        lemma_words_map_index(s.drop_last(), i);
    }
}

proof fn lemma_words_map_update(s: Seq<ImageWord>, i: int, w: ImageWord)
    requires
        words_wf(s),
        0 <= i < s.len(),
        w.addr == s[i].addr,
    ensures
        words_map(s.update(i, w)) =~= words_map(s).insert(w.addr as int, w.word),
    decreases s.len(),
{
    let t = s.update(i, w);
    if i == s.len() - 1 {
        assert(t.drop_last() =~= s.drop_last());
        assert(t.last() == w);
    } else {
        assert(t.drop_last() =~= s.drop_last().update(i, w));
        assert(s.drop_last()[i] == s[i]);
        lemma_words_map_update(s.drop_last(), i, w);
        assert(t.last() == s.last());
        assert(s.last().addr != w.addr);
    }
}

impl View for MemoryImage {
    type V = Map<int, u64>;

    closed spec fn view(&self) -> Map<int, u64> {
        words_map(self.words@)
    }
}

impl MemoryImage {
    #[verifier::type_invariant]
    closed spec fn wf(self) -> bool {
        words_wf(self.words@)
    }

    /// The word at the aligned address `addr`, if mapped.
    pub open spec fn word_at(self, addr: int) -> Option<u64> {
        if self@.dom().contains(addr) {
            Some(self@[addr])
        } else {
            None
        }
    }

    /// The byte at `addr`: the matching slice of its containing word.
    pub open spec fn byte_at(self, addr: int) -> Option<u8> {
        match self.word_at(addr - addr % 8) {
            Some(w) => Some(byte_of_word(w, (addr % 8) as u64)),
            None => None,
        }
    }

    /// An image with nothing mapped.
    pub fn new() -> (r: MemoryImage)
        ensures
            r@ == Map::<int, u64>::empty(),
    {
        MemoryImage { words: Vec::new() }
    }

    /// The index of the entry holding `addr`, if that word is mapped.
    fn find_index(&self, addr: usize) -> (r: Option<usize>)
        ensures
            match r {
                Some(i) => i < self.words@.len() && self.words@[i as int].addr == addr,
                None => forall|i: int| 0 <= i < self.words@.len() ==> self.words@[i].addr != addr,
            },
    {
        let n = self.words.len();
        let mut i: usize = 0;
        while i < n
            invariant
                i <= n,
                n == self.words@.len(),
                forall|j: int| 0 <= j < i ==> self.words@[j].addr != addr,
            decreases n - i,
        {
            if self.words[i].addr == addr {
                return Some(i);
            }
            i += 1;
        }
        None
    }

    /// When no entry holds `addr`, the map has no key for it either.
    proof fn lemma_not_found(&self, addr: usize)
        requires
            forall|i: int| 0 <= i < self.words@.len() ==> self.words@[i].addr != addr,
        ensures
            !self@.dom().contains(addr as int),
    {
        lemma_words_map_dom(self.words@);
        if self@.dom().contains(addr as int) {
            let i = choose|i: int|
                0 <= i < self.words@.len() && #[trigger] waddr_at(self.words@, i) == addr as int;
            assert(self.words@[i].addr != addr);
        }
    }

    /// Maps the word at the aligned address `addr`, or overwrites it.
    pub fn set_word(&mut self, addr: usize, word: u64)
        requires
            addr as int % 8 == 0,
        ensures
            final(self)@ == old(self)@.insert(addr as int, word),
    {
        proof {
            use_type_invariant(&*self);
        }
        match self.find_index(addr) {
            Some(i) => {
                let w = ImageWord { addr, word };
                proof {
                    lemma_words_map_update(self.words@, i as int, w);
                }
                let mut words: Vec<ImageWord> = Vec::new();
                core::mem::swap(&mut words, &mut self.words);
                words[i] = w;
                core::mem::swap(&mut words, &mut self.words);
            },
            None => {
                let mut words: Vec<ImageWord> = Vec::new();
                core::mem::swap(&mut words, &mut self.words);
                words.push(ImageWord { addr, word });
                core::mem::swap(&mut words, &mut self.words);
                proof {
                    assert(self.words@.drop_last() =~= old(self).words@);
                }
            },
        }
    }

    /// Reads the word at the aligned address `addr`.
    pub fn read_word(&self, addr: usize) -> (r: Option<u64>)
        ensures
            r == self.word_at(addr as int),
    {
        proof {
            use_type_invariant(&*self);
        }
        match self.find_index(addr) {
            Some(i) => {
                proof {
                    lemma_words_map_index(self.words@, i as int);
                }
                Some(self.words[i].word)
            },
            None => {
                proof {
                    self.lemma_not_found(addr);
                }
                None
            },
        }
    }

    /// Writes the word at the aligned address `addr`, failing like the
    /// kernel does when the address is not mapped.
    pub fn write_word(&mut self, addr: usize, word: u64) -> (ok: bool)
        ensures
            ok == old(self)@.dom().contains(addr as int),
            final(self)@ == if old(self)@.dom().contains(addr as int) {
                old(self)@.insert(addr as int, word)
            } else {
                old(self)@
            },
    {
        proof {
            use_type_invariant(&*self);
        }
        match self.find_index(addr) {
            Some(i) => {
                let w = ImageWord { addr, word };
                proof {
                    lemma_words_map_index(self.words@, i as int);
                    lemma_words_map_update(self.words@, i as int, w);
                }
                let mut words: Vec<ImageWord> = Vec::new();
                core::mem::swap(&mut words, &mut self.words);
                words[i] = w;
                core::mem::swap(&mut words, &mut self.words);
                true
            },
            None => {
                proof {
                    self.lemma_not_found(addr);
                }
                false
            },
        }
    }

    /// Reads the byte at `addr`, synthesized from its containing word.
    pub fn read_byte(&self, addr: usize) -> (r: Option<u8>)
        ensures
            r == self.byte_at(addr as int),
    {
        let aligned = words::align_addr_to_word(addr);
        let off = (addr - aligned) as u64;
        match self.read_word(aligned) {
            Some(w) => Some(words::extract_byte(w, off)),
            None => None,
        }
    }

    /// Writes the byte at `addr` by splicing it into its containing word,
    /// and returns the byte it displaced.  Exactly one byte of the image
    /// changes; an unmapped address changes nothing.
    pub fn write_byte(&mut self, addr: usize, val: u8) -> (r: Option<u8>)
        ensures
            match r {
                Some(orig) => old(self).byte_at(addr as int) == Some(orig) && final(self).byte_at(
                    addr as int,
                ) == Some(val) && forall|a: int|
                    a != addr as int ==> final(self).byte_at(a) == old(self).byte_at(a),
                None => *final(self) == *old(self) && old(self).byte_at(addr as int) is None,
            },
    {
        let aligned = words::align_addr_to_word(addr);
        let off = (addr - aligned) as u64;
        match self.read_word(aligned) {
            Some(w) => {
                let orig = words::extract_byte(w, off);
                let updated = words::replace_byte(w, off, val);
                let ok = self.write_word(aligned, updated);
                proof {
                    self.lemma_byte_patch(*old(self), addr as int, w, updated, val);
                }
                Some(orig)
            },
            None => None,
        }
    }

    /// After splicing one byte, every other byte of the image reads as
    /// before.
    proof fn lemma_byte_patch(&self, prev: MemoryImage, addr: int, w: u64, updated: u64, val: u8)
        requires
            0 <= addr <= usize::MAX,
            prev.word_at(addr - addr % 8) == Some(w),
            updated == word_with_byte(w, (addr % 8) as u64, val),
            self@ == prev@.insert(addr - addr % 8, updated),
        ensures
            self.byte_at(addr) == Some(val),
            forall|a: int| a != addr ==> self.byte_at(a) == prev.byte_at(a),
    {
        let aligned = addr - addr % 8;
        let off = (addr % 8) as u64;
        words::lemma_replace_then_extract(w, off, val);
        assert forall|a: int| a != addr implies self.byte_at(a) == prev.byte_at(a) by {
            let a_aligned = a - a % 8;
            if a_aligned == aligned {
                assert(a % 8 != addr % 8);
                assert(byte_of_word(updated, (a % 8) as u64) == byte_of_word(w, (a % 8) as u64));
            } else {
                assert(self.word_at(a_aligned) == prev.word_at(a_aligned));
            }
        }
    }
}

/// A simulated stopped target: an image, an instruction pointer, and the
/// log of opcodes its single steps fetched.
pub struct TargetSim {
    pub mem: MemoryImage,
    pub rip: usize,
    pub executed: Vec<u8>,
}

impl TargetSim {
    /// A target over the given image, about to execute at `rip`.
    pub fn new(mem: MemoryImage, rip: usize) -> (r: TargetSim)
        ensures
            r.mem == mem,
            r.rip == rip,
            r.executed@ == Seq::<u8>::empty(),
    {
        TargetSim { mem, rip, executed: Vec::new() }
    }

    /// Arms a breakpoint: plants the trap opcode at `addr` and hands back
    /// the displaced byte.  After it, the byte at `addr` reads as the trap
    /// opcode and nothing else moved.
    pub fn install_breakpoint(&mut self, addr: usize) -> (r: Option<u8>)
        ensures
            match r {
                Some(orig) => {
                    &&& old(self).mem.byte_at(addr as int) == Some(orig)
                    &&& final(self).mem.byte_at(addr as int) == Some(TRAP_OPCODE)
                    &&& forall|a: int|
                        a != addr as int ==> final(self).mem.byte_at(a) == old(self).mem.byte_at(a)
                    &&& final(self).rip == old(self).rip
                    &&& final(self).executed@ == old(self).executed@
                },
                None => *final(self) == *old(self) && old(self).mem.byte_at(addr as int) is None,
            },
    {
        self.mem.write_byte(addr, TRAP_OPCODE)
    }

    /// Executes the one instruction under the instruction pointer: its
    /// opcode is fetched, logged, and the pointer moves past it.
    pub fn single_step(&mut self) -> (r: Option<u8>)
        requires
            old(self).rip < usize::MAX,
        ensures
            match r {
                Some(op) => {
                    &&& old(self).mem.byte_at(old(self).rip as int) == Some(op)
                    &&& final(self).executed@ == old(self).executed@.push(op)
                    &&& final(self).rip == old(self).rip + 1
                    &&& final(self).mem == old(self).mem
                },
                None => *final(self) == *old(self) && old(self).mem.byte_at(old(self).rip as int) is None,
            },
    {
        match self.mem.read_byte(self.rip) {
            Some(op) => {
                self.executed.push(op);
                self.rip = self.rip + 1;
                Some(op)
            },
            None => None,
        }
    }

    /// The full pass over an armed breakpoint whose trap just fired:
    /// restore the displaced byte, rewind the instruction pointer onto it,
    /// single-step so the original instruction executes, and re-arm the
    /// trap.  One pass executes the displaced instruction exactly once and
    /// leaves the trap armed, with every other byte as it was.
    pub fn step_over_breakpoint(&mut self, addr: usize, orig: u8) -> (r: bool)
        requires
            old(self).rip == addr + 1,
        ensures
            r == (old(self).mem.byte_at(addr as int) is Some),
            r ==> {
                &&& final(self).mem.byte_at(addr as int) == Some(TRAP_OPCODE)
                &&& forall|a: int|
                    a != addr as int ==> final(self).mem.byte_at(a) == old(self).mem.byte_at(a)
                &&& final(self).executed@ == old(self).executed@.push(orig)
                &&& final(self).rip == addr + 1
            },
            !r ==> *final(self) == *old(self),
    {
        match self.mem.read_byte(addr) {
            Some(_) => {
                let _ = self.mem.write_byte(addr, orig);
                self.rip = addr;
                let _ = self.single_step();
                let _ = self.mem.write_byte(addr, words::TRAP_OPCODE);
                true
            },
            None => {
                false
            },
        }
    }
}

} // verus!
