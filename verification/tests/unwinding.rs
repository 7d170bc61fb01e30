use deet::image::MemoryImage;
use deet::symbols::{FunctionEntry, LineEntry, SymbolTable};
use deet::unwind::{unwind_from_image, UnwindError, MAX_FRAMES};

fn demo_symbols() -> SymbolTable {
    let mut t = SymbolTable::new();
    t.functions.push(FunctionEntry { name: String::from("main"), low: 0x1000, high: 0x1100 });
    t.functions.push(FunctionEntry { name: String::from("helper"), low: 0x2000, high: 0x2100 });
    t.functions.push(FunctionEntry { name: String::from("leaf"), low: 0x3000, high: 0x3100 });
    t.lines.push(LineEntry { file: String::from("demo.c"), line: 10, addr: 0x1000 });
    t.lines.push(LineEntry { file: String::from("demo.c"), line: 20, addr: 0x2000 });
    t.lines.push(LineEntry { file: String::from("demo.c"), line: 30, addr: 0x3000 });
    t
}

#[test]
fn chain_reaching_entry_gives_each_frame_once() {
    let t = demo_symbols();
    let mut mem = MemoryImage::new();
    // leaf's frame at 0x7000: return address into helper, caller frame above
    mem.set_word(0x7008, 0x2010);
    mem.set_word(0x7000, 0x7100);
    // helper's frame at 0x7100: return address into main
    mem.set_word(0x7108, 0x1020);
    mem.set_word(0x7100, 0x7200);
    let frames = unwind_from_image(&t, &mem, 0x3010, 0x7000).unwrap();
    // exactly three frames, callee to caller
    assert_eq!(frames.len(), 3);
    assert_eq!(frames[0].function, "leaf");
    assert_eq!(frames[0].addr, 0x3010);
    assert_eq!(frames[0].line, 30);
    assert_eq!(frames[1].function, "helper");
    assert_eq!(frames[1].addr, 0x2010);
    assert_eq!(frames[2].function, "main");
    assert_eq!(frames[2].addr, 0x1020);
    assert_eq!(frames[2].file, "demo.c");
}

#[test]
fn entry_function_alone_is_one_frame() {
    let t = demo_symbols();
    let mem = MemoryImage::new();
    // stopped inside main: no memory read is even needed
    let frames = unwind_from_image(&t, &mem, 0x1010, 0x7000).unwrap();
    assert_eq!(frames.len(), 1);
    assert_eq!(frames[0].function, "main");
}

#[test]
fn unaligned_frame_pointer_is_an_error() {
    let t = demo_symbols();
    let mem = MemoryImage::new();
    assert_eq!(unwind_from_image(&t, &mem, 0x3010, 0x7001), Err(UnwindError::BadFramePointer));
}

#[test]
fn non_increasing_frame_pointer_is_an_error() {
    let t = demo_symbols();
    let mut mem = MemoryImage::new();
    mem.set_word(0x7008, 0x2010);
    mem.set_word(0x7000, 0x7000);  // chain does not climb
    assert_eq!(unwind_from_image(&t, &mem, 0x3010, 0x7000), Err(UnwindError::BadFramePointer));
}

#[test]
fn unmapped_frame_is_an_error_not_a_loop() {
    let t = demo_symbols();
    let mem = MemoryImage::new();
    assert_eq!(unwind_from_image(&t, &mem, 0x3010, 0x7000), Err(UnwindError::MemoryRead));
}

#[test]
fn unknown_instruction_pointer_is_an_error() {
    let t = demo_symbols();
    let mem = MemoryImage::new();
    assert_eq!(unwind_from_image(&t, &mem, 0x9999, 0x7000), Err(UnwindError::UnknownLocation));
}

#[test]
fn endless_chain_stops_at_the_bound() {
    let t = demo_symbols();
    let mut mem = MemoryImage::new();
    // a chain of plausible frames that never reaches the entry function
    let mut fp: usize = 0x10000;
    for _ in 0..(MAX_FRAMES + 4) {
        mem.set_word(fp + 8, 0x3010);  // always back into leaf
        mem.set_word(fp, (fp + 16) as u64);
        fp += 16;
    }
    assert_eq!(unwind_from_image(&t, &mem, 0x3010, 0x10000), Err(UnwindError::TooDeep));
}
