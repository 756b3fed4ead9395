use qmerge::error::Error;
use qmerge::xref::{
    get_root, required_roots, trace_root_address, trace_start, trace_steps, Il2CppRoot, Insn, RootTable, SymbolTrace,
    TraceStart, TraceWalk, WalkAction, XRefData,
};

fn trace(symbol: &str, start: &str, t: &str) -> SymbolTrace {
    SymbolTrace { symbol: symbol.to_string(), start: start.to_string(), trace: t.to_string() }
}

#[test]
fn required_roots_are_the_method_starts() {
    let data = XRefData {
        traces: vec![
            trace("a", "il2cpp:NS:Cls:M", "L0"),
            trace("b", "invoker:NS:Cls:M", "B1"),
            trace("c", "il2cpp::Other:N", "L0"),
            trace("d", "il2cpp_init", "P0"),
        ],
    };
    let roots = required_roots(&data);
    assert_eq!(roots, vec![("NS", "Cls", "M"), ("", "Other", "N")]);
}

#[test]
fn trace_starts() {
    assert!(matches!(trace_start("il2cpp:NS:Cls:M"), TraceStart::MethodPointer("NS", "Cls", "M")));
    assert!(matches!(trace_start("invoker:NS:Cls:M"), TraceStart::Invoker("NS", "Cls", "M")));
    assert!(matches!(trace_start("il2cpp_init"), TraceStart::Symbol("il2cpp_init")));
}

#[test]
fn trace_steps_pair_letters_with_counts() {
    assert_eq!(trace_steps("L2B10P0"), vec![('L', Some(2)), ('B', Some(10)), ('P', Some(0))]);
    assert_eq!(trace_steps(""), vec![]);
    assert_eq!(trace_steps("L"), vec![]);
    assert_eq!(trace_steps("Lx"), vec![('L', None)]);
    assert_eq!(trace_steps("L1B"), vec![('L', Some(1))]);
}

#[test]
fn roots_are_found_by_name() {
    let table = RootTable {
        entries: vec![
            ("NS".to_string(), "Cls".to_string(), "M".to_string(), Il2CppRoot { method_pointer: Some(0x1000), invoker: None }),
            ("NS".to_string(), "Cls".to_string(), "N".to_string(), Il2CppRoot { method_pointer: None, invoker: Some(0x2000) }),
        ],
    };
    assert_eq!(get_root(Some(&table), "NS", "Cls", "N").unwrap().invoker, Some(0x2000));
    assert_eq!(get_root(Some(&table), "NS", "Cls", "M").unwrap().method_pointer, Some(0x1000));
    assert_eq!(get_root(Some(&table), "NS", "Cls", "X").err(), Some(Error::RootNotFound));
    assert_eq!(get_root(None, "NS", "Cls", "M").err(), Some(Error::RootsNotInitialized));
}

fn table() -> RootTable {
    RootTable {
        entries: vec![
            ("NS".to_string(), "Cls".to_string(), "M".to_string(), Il2CppRoot { method_pointer: Some(0x1000), invoker: None }),
        ],
    }
}

#[test]
fn trace_starts_are_found_in_the_roots() {
    let t = table();
    assert_eq!(trace_root_address(Some(&t), "il2cpp:NS:Cls:M"), Ok(Some(0x1000)));
    assert_eq!(
        trace_root_address(Some(&t), "invoker:NS:Cls:M"),
        Err(Error::MissingRootPointer("invoker".to_string()))
    );
    assert_eq!(trace_root_address(Some(&t), "il2cpp:NS:Cls:X"), Err(Error::RootNotFound));
    assert_eq!(trace_root_address(None, "il2cpp:NS:Cls:M"), Err(Error::RootsNotInitialized));
    assert_eq!(trace_root_address(None, "il2cpp_init"), Ok(None));
}

/// Runs a walk over the instructions at the given addresses (anything else
/// reads as some other instruction).
fn walk(trace: &str, start: u64, code: &[(u64, Insn)]) -> Result<u64, Error> {
    let (mut w, mut action) = TraceWalk::start(trace, start)?;
    loop {
        match action {
            WalkAction::Found(a) => return Ok(a),
            WalkAction::Read(a) => {
                let insn = code.iter().find(|(at, _)| *at == a).map(|(_, i)| *i).unwrap_or(Insn::Other);
                action = w.advance(insn)?;
            }
        }
    }
}

#[test]
fn a_walk_follows_the_numbered_calls() {
    let code = [
        (0x1004, Insn::Bl(Some(0x5000))),
        (0x1008, Insn::B(Some(0x6000))),
        (0x100c, Insn::Bl(Some(0x2000))),
        (0x2000, Insn::B(Some(0x3000))),
    ];
    assert_eq!(walk("L1B0", 0x1000, &code), Ok(0x3000));
    assert_eq!(walk("L0", 0x1000, &code), Ok(0x5000));
    assert_eq!(walk("B0", 0x1000, &code), Ok(0x6000));
    assert_eq!(walk("", 0x1234, &code), Ok(0x1234));
}

#[test]
fn a_walk_resolves_a_page_and_offset() {
    let code = [
        (0x1000, Insn::Adrp(Some((3, 0x40000)))),
        (0x1004, Insn::AddImm(5, 0x10)),
        (0x1008, Insn::LdrOffset(3, 0x28)),
    ];
    assert_eq!(walk("P0", 0x1000, &code), Ok(0x40028));
    let code = [(0x1000, Insn::Adrp(Some((3, 0x40000)))), (0x1004, Insn::AddImm(3, 0x10))];
    assert_eq!(walk("P0", 0x1000, &code), Ok(0x40010));
}

#[test]
fn a_walk_stops_on_bad_operands_and_counts() {
    let code = [(0x1000, Insn::Bl(None))];
    assert_eq!(walk("L0", 0x1000, &code), Err(Error::WrongOperands("bl".to_string())));
    let code = [(0x1000, Insn::Adrp(None))];
    assert_eq!(walk("P0", 0x1000, &code), Err(Error::WrongOperands("adrp".to_string())));
    assert_eq!(walk("Lx", 0x1000, &[]).err(), Some(Error::InvalidTraceCount));
    let code = [(0x1000, Insn::B(Some(0x2000)))];
    assert_eq!(walk("B0Lq", 0x1000, &code).err(), Some(Error::InvalidTraceCount));
}
