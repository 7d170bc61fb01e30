//! The debugger's view of the target's debug information.
//!
//! Reading DWARF sections is a separate concern; what the core needs from
//! it is a plain table: which address range belongs to which function, and
//! which source line starts at which address.  Both directions of lookup
//! are defined here, exactly, so the unwinder and the location grammar can
//! be specified against them.

use vstd::prelude::*;

verus! {

/// One function of the target: its name and its address range
/// `low..high`.
pub struct FunctionEntry {
    pub name: String,
    pub low: usize,
    pub high: usize,
}

/// One row of the line table: source position and the address its code
/// starts at.
pub struct LineEntry {
    pub file: String,
    pub line: usize,
    pub addr: usize,
}

/// The symbol information of one target binary.
pub struct SymbolTable {
    pub functions: Vec<FunctionEntry>,
    pub lines: Vec<LineEntry>,
}

/// Whether `addr` lies in the range of `f`.
pub open spec fn covers(f: FunctionEntry, addr: int) -> bool {
    f.low <= addr < f.high
}

/// The first function whose range holds `addr`.
pub open spec fn first_function_covering(fns: Seq<FunctionEntry>, addr: int) -> Option<
    FunctionEntry,
>
    decreases fns.len(),
{
    if fns.len() == 0 {
        None
    } else if covers(fns[0], addr) {
        Some(fns[0])
    } else {
        first_function_covering(fns.drop_first(), addr)
    }
}

/// The first function with the given name.
pub open spec fn first_function_named(fns: Seq<FunctionEntry>, name: Seq<char>) -> Option<
    FunctionEntry,
>
    decreases fns.len(),
{
    if fns.len() == 0 {
        None
    } else if fns[0].name@ == name {
        Some(fns[0])
    } else {
        first_function_named(fns.drop_first(), name)
    }
}

/// The first line-table row for the given source line number.
pub open spec fn first_line_numbered(lines: Seq<LineEntry>, line: int) -> Option<LineEntry>
    decreases lines.len(),
{
    if lines.len() == 0 {
        None
    } else if lines[0].line == line {
        Some(lines[0])
    } else {
        first_line_numbered(lines.drop_first(), line)
    }
}

/// The row whose start address is largest without passing `addr`: the
/// source position the instruction at `addr` belongs to.  Among rows with
/// the same start address the earliest wins.
pub open spec fn best_line_for_addr(lines: Seq<LineEntry>, addr: int) -> Option<LineEntry>
    decreases lines.len(),
{
    if lines.len() == 0 {
        None
    } else {
        let prev = best_line_for_addr(lines.drop_last(), addr);
        let last = lines.last();
        match prev {
            Some(p) => if last.addr <= addr && p.addr < last.addr {
                Some(last)
            } else {
                prev
            },
            None => if last.addr <= addr {
                Some(last)
            } else {
                None
            },
        }
    }
}

impl SymbolTable {
    /// A table with no entries.
    pub fn new() -> (r: SymbolTable)
        ensures
            r.functions@.len() == 0,
            r.lines@.len() == 0,
    {
        SymbolTable { functions: Vec::new(), lines: Vec::new() }
    }

    /// The name of the function whose range holds `addr`.
    pub fn get_function_from_addr(&self, addr: usize) -> (r: Option<String>)
        ensures
            match (r, first_function_covering(self.functions@, addr as int)) {
                (Some(n), Some(f)) => n == f.name,
                (None, None) => true,
                _ => false,
            },
    {
        let fns = &self.functions;
        let n = fns.len();
        let mut i: usize = 0;
        proof {
            assert(fns@.skip(0) =~= fns@);
        }
        while i < n
            invariant
                i <= n,
                n == fns@.len(),
                fns == self.functions,
                first_function_covering(fns@, addr as int) == first_function_covering(
                    fns@.skip(i as int),
                    addr as int,
                ),
            decreases n - i,
        {
            let f = &fns[i];
            if f.low <= addr && addr < f.high {
                proof {
                    assert(fns@.skip(i as int)[0] == fns@[i as int]);
                }
                return Some(f.name.clone());
            }
            proof {
                assert(fns@.skip(i as int).drop_first() =~= fns@.skip(i as int + 1));
            }
            i += 1;
        }
        None
    }

    /// The entry address of the first function with the given name.
    pub fn get_addr_for_function(&self, name: &String) -> (r: Option<usize>)
        ensures
            r == match first_function_named(self.functions@, name@) {
                Some(f) => Some(f.low),
                None => None::<usize>,
            },
    {
        let fns = &self.functions;
        let n = fns.len();
        let mut i: usize = 0;
        proof {
            assert(fns@.skip(0) =~= fns@);
        }
        while i < n
            invariant
                i <= n,
                n == fns@.len(),
                fns == self.functions,
                first_function_named(fns@, name@) == first_function_named(
                    fns@.skip(i as int),
                    name@,
                ),
            decreases n - i,
        {
            let f = &fns[i];
            if f.name == *name {
                proof {
                    assert(fns@.skip(i as int)[0] == fns@[i as int]);
                }
                return Some(f.low);
            }
            proof {
                assert(fns@.skip(i as int).drop_first() =~= fns@.skip(i as int + 1));
            }
            i += 1;
        }
        None
    }

    /// The start address of the first line-table row for source line
    /// `line`.
    pub fn get_addr_for_line(&self, line: usize) -> (r: Option<usize>)
        ensures
            r == match first_line_numbered(self.lines@, line as int) {
                Some(e) => Some(e.addr),
                None => None::<usize>,
            },
    {
        let lines = &self.lines;
        let n = lines.len();
        let mut i: usize = 0;
        proof {
            assert(lines@.skip(0) =~= lines@);
        }
        while i < n
            invariant
                i <= n,
                n == lines@.len(),
                lines == self.lines,
                first_line_numbered(lines@, line as int) == first_line_numbered(
                    lines@.skip(i as int),
                    line as int,
                ),
            decreases n - i,
        {
            let e = &lines[i];
            if e.line == line {
                proof {
                    assert(lines@.skip(i as int)[0] == lines@[i as int]);
                }
                return Some(e.addr);
            }
            proof {
                assert(lines@.skip(i as int).drop_first() =~= lines@.skip(i as int + 1));
            }
            i += 1;
        }
        None
    }

    /// The source position of the instruction at `addr`: file and line of
    /// the best line-table row.
    pub fn get_line_from_addr(&self, addr: usize) -> (r: Option<(String, usize)>)
        ensures
            match (r, best_line_for_addr(self.lines@, addr as int)) {
                (Some(p), Some(e)) => p.0 == e.file && p.1 == e.line,
                (None, None) => true,
                _ => false,
            },
    {
        let lines = &self.lines;
        let n = lines.len();
        let mut best: Option<usize> = None;
        let mut i: usize = 0;
        while i < n
            invariant
                i <= n,
                n == lines@.len(),
                lines == self.lines,
                match best {
                    Some(j) => j < i && best_line_for_addr(lines@.take(i as int), addr as int)
                        == Some(lines@[j as int]) && lines@[j as int].addr <= addr,
                    None => best_line_for_addr(lines@.take(i as int), addr as int) is None,
                },
            decreases n - i,
        {
            proof {
                assert(lines@.take(i as int + 1).drop_last() =~= lines@.take(i as int));
                assert(lines@.take(i as int + 1).last() == lines@[i as int]);
            }
            let e = &lines[i];
            if e.addr <= addr {
                match best {
                    Some(j) => {
                        if lines[j].addr < e.addr {
                            best = Some(i);
                        }
                    },
                    None => {
                        best = Some(i);
                    },
                }
            }
            i += 1;
        }
        proof {
            assert(lines@.take(n as int) =~= lines@);
        }
        match best {
            Some(j) => Some((lines[j].file.clone(), lines[j].line)),
            None => None,
        }
    }
}

} // verus!
