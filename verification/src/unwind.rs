//! Walking the frame-pointer chain.
//!
//! A backtrace starts from the stopped child's instruction and frame
//! pointers and follows the saved frame pointers upward: the word at
//! `fp + 8` is the return address, the word at `fp` the caller's frame
//! pointer.  The walk is bounded, demands that each frame pointer be
//! aligned and strictly increasing, and stops at the entry function; a
//! chain that is corrupt, absent, or endless yields an error, never an
//! unbounded walk.

use vstd::prelude::*;
use crate::image::MemoryImage;
use crate::symbols::{best_line_for_addr, first_function_covering, SymbolTable};

verus! {

/// The walk gives up after this many frames.
pub const MAX_FRAMES: usize = 64;

/// The name of the entry function, where every healthy chain ends.
pub open spec fn spec_entry_name() -> Seq<char> {
    "main"@
}

/// One call frame, callee side first.
#[derive(Debug, PartialEq, Eq)]
pub struct Frame {
    pub function: String,
    pub file: String,
    pub line: usize,
    pub addr: usize,
}

/// Why a walk stopped without a full backtrace.
#[derive(Clone, Copy, Debug, PartialEq, Eq, Structural)]
pub enum UnwindError {
    /// An instruction pointer that no known function or line covers.
    UnknownLocation,
    /// A frame pointer that is unaligned, not increasing, or out of
    /// range.
    BadFramePointer,
    /// A word of the chain could not be read.
    MemoryRead,
    /// The registers of the stopped child could not be read.
    Registers,
    /// The chain went on past the bound without reaching the entry
    /// function.
    TooDeep,
}

/// The frame describing the instruction at `ip`, if the symbol table
/// covers it.
pub open spec fn frame_for(syms: SymbolTable, ip: int) -> Option<Frame> {
    match (first_function_covering(syms.functions@, ip), best_line_for_addr(syms.lines@, ip)) {
        (Some(f), Some(e)) => Some(
            Frame { function: f.name, file: e.file, line: e.line, addr: ip as usize },
        ),
        _ => None,
    }
}

/// Whether a produced frame is exactly what the symbol table says about
/// its own address.
pub open spec fn frame_matches(syms: SymbolTable, fr: Frame) -> bool {
    frame_for(syms, fr.addr as int) == Some(fr)
}

/// The complete walk over an in-memory image, defined step by step: emit
/// the frame at `ip`; stop at the entry function; otherwise check the
/// frame pointer, read the return address and the saved frame pointer,
/// and continue through them.
pub open spec fn spec_unwind(
    syms: SymbolTable,
    mem: MemoryImage,
    ip: int,
    fp: int,
    fuel: nat,
) -> Result<Seq<Frame>, UnwindError>
    decreases fuel,
{
    if fuel == 0 {
        Err(UnwindError::TooDeep)
    } else {
        match frame_for(syms, ip) {
            None => Err(UnwindError::UnknownLocation),
            Some(fr) => {
                if fr.function@ == spec_entry_name() {
                    Ok(seq![fr])
                } else if !(fp % 8 == 0 && 0 < fp && fp + 8 <= usize::MAX) {
                    Err(UnwindError::BadFramePointer)
                } else {
                    match (mem.word_at(fp + 8), mem.word_at(fp)) {
                        (Some(ret), Some(saved)) => {
                            if ret > usize::MAX || saved > usize::MAX || saved <= fp {
                                Err(UnwindError::BadFramePointer)
                            } else {
                                match spec_unwind(
                                    syms,
                                    mem,
                                    ret as int,
                                    saved as int,
                                    (fuel - 1) as nat,
                                ) {
                                    Ok(rest) => Ok(seq![fr] + rest),
                                    Err(e) => Err(e),
                                }
                            }
                        },
                        _ => Err(UnwindError::MemoryRead),
                    }
                }
            },
        }
    }
}

/// What any completed walk looks like: at least one frame and no more
/// than the fuel allowed; every frame says of its own address exactly
/// what the symbol table says; the walk ends at the entry function and
/// reaches it only in its last frame, so the frames stand in
/// callee-to-caller order along the chain.  A walk that never reaches
/// the entry function is not Ok at all: it ends in an error instead of
/// going on without bound.
pub proof fn lemma_spec_unwind_frames(
    syms: SymbolTable,
    mem: MemoryImage,
    ip: int,
    fp: int,
    fuel: nat,
)
    requires
        0 <= ip <= usize::MAX,
        spec_unwind(syms, mem, ip, fp, fuel) is Ok,
    ensures
        ({
            let frames = spec_unwind(syms, mem, ip, fp, fuel)->Ok_0;
            &&& 1 <= frames.len() <= fuel
            &&& forall|i: int| 0 <= i < frames.len() ==> frame_matches(syms, #[trigger] frames[i])
            &&& frames[frames.len() - 1].function@ == spec_entry_name()
            &&& forall|i: int|
                0 <= i < frames.len() - 1 ==> (#[trigger] frames[i].function)@
                    != spec_entry_name()
        }),
    decreases fuel,
{
    let frames = spec_unwind(syms, mem, ip, fp, fuel)->Ok_0;
    let fr = frame_for(syms, ip)->Some_0;
    assert(fr.addr as int == ip);
    if fr.function@ == spec_entry_name() {
        assert(frames =~= seq![fr]);
    } else {
        let ret = mem.word_at(fp + 8)->Some_0;
        let saved = mem.word_at(fp)->Some_0;
        let rest = spec_unwind(syms, mem, ret as int, saved as int, (fuel - 1) as nat)->Ok_0;
        lemma_spec_unwind_frames(syms, mem, ret as int, saved as int, (fuel - 1) as nat);
        assert(frames =~= seq![fr] + rest);
        assert(frames[0] == fr);
        assert forall|i: int| 0 <= i < frames.len() implies frame_matches(
            syms,
            #[trigger] frames[i],
        ) by {
            if i > 0 {
                assert(frames[i] == rest[i - 1]);
            }
        }
        assert(frames[frames.len() - 1] == rest[rest.len() - 1]);
        assert forall|i: int| 0 <= i < frames.len() - 1 implies (#[trigger] frames[i].function)@
            != spec_entry_name() by {
            if i > 0 {
                assert(frames[i] == rest[i - 1]);
            }
        }
    }
}

/// A prefix of frames already produced, glued onto what the rest of the
/// walk gives.
pub open spec fn compose_unwind(
    prefix: Seq<Frame>,
    rest: Result<Seq<Frame>, UnwindError>,
) -> Result<Seq<Frame>, UnwindError> {
    match rest {
        Ok(s) => Ok(prefix + s),
        Err(e) => Err(e),
    }
}

/// Walks a frame chain held in an in-memory image.  The result is the
/// walk of `spec_unwind`, exactly: as many frames as the chain holds up
/// to the entry function, callee to caller, or the first failure.
pub fn unwind_from_image(
    syms: &SymbolTable,
    mem: &MemoryImage,
    start_ip: usize,
    start_fp: usize,
) -> (r: Result<Vec<Frame>, UnwindError>)
    ensures
        match (r, spec_unwind(*syms, *mem, start_ip as int, start_fp as int, MAX_FRAMES as nat)) {
            (Ok(v), Ok(s)) => v@ == s,
            (Err(e1), Err(e2)) => e1 == e2,
            _ => false,
        },
{
    let mut frames: Vec<Frame> = Vec::new();
    let mut ip: usize = start_ip;
    let mut fp: usize = start_fp;
    let mut fuel: usize = MAX_FRAMES;
    let entry = String::from_str("main");
    loop
        invariant
            entry@ == spec_entry_name(),
            spec_unwind(*syms, *mem, start_ip as int, start_fp as int, MAX_FRAMES as nat)
                == compose_unwind(
                frames@,
                spec_unwind(*syms, *mem, ip as int, fp as int, fuel as nat),
            ),
        decreases fuel,
    {
        if fuel == 0 {
            return Err(UnwindError::TooDeep);
        }
        let func = syms.get_function_from_addr(ip);
        let line = syms.get_line_from_addr(ip);
        let (fname, floc) = match (func, line) {
            (Some(n), Some(l)) => (n, l),
            _ => {
                return Err(UnwindError::UnknownLocation);
            },
        };
        let is_entry = fname == entry;
        let fr = Frame { function: fname, file: floc.0, line: floc.1, addr: ip };
        let ghost prev_frames = frames@;
        let ghost cur = spec_unwind(*syms, *mem, ip as int, fp as int, fuel as nat);
        frames.push(fr);
        if is_entry {
            proof {
                assert(frames@ =~= prev_frames + seq![fr]);
            }
            return Ok(frames);
        }
        if !(fp % 8 == 0 && fp > 0 && fp <= usize::MAX - 8) {
            return Err(UnwindError::BadFramePointer);
        }
        let ret_word = match mem.read_word(fp + 8) {
            Some(w) => w,
            None => {
                return Err(UnwindError::MemoryRead);
            },
        };
        let saved_word = match mem.read_word(fp) {
            Some(w) => w,
            None => {
                return Err(UnwindError::MemoryRead);
            },
        };
        if ret_word > usize::MAX as u64 || saved_word > usize::MAX as u64 || saved_word
            <= fp as u64 {
            return Err(UnwindError::BadFramePointer);
        }
        proof {
            let next = spec_unwind(
                *syms,
                *mem,
                ret_word as int,
                saved_word as int,
                (fuel - 1) as nat,
            );
            if next is Ok {
                assert(prev_frames + (seq![fr] + next->Ok_0) =~= frames@ + next->Ok_0);
            }
        }
        ip = ret_word as usize;
        fp = saved_word as usize;
        fuel = fuel - 1;
    }
}

} // verus!
