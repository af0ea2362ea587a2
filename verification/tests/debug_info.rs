use gimli::write::{
    Address, AttributeValue, DwarfUnit, EndianVec, LineProgram, LineString, Sections,
};
use rrstat::aggregator::{Aggregator, ProcessStep};
use rrstat::symbols::{
    Fetched, FrameLookup, Loaded, ResolveError, ResolveStep, SymbolInfo, SymbolResolver,
};
use rrstat::types::Sample;
use std::collections::HashMap;

/// A function of the binary under test: name, first address, size in bytes,
/// and the line it stands on.
struct Function {
    name: &'static str,
    address: u64,
    size: u64,
    line: u64,
}

/// The debug-information sections of a compilation unit `source` that holds
/// `functions`, each with its name.
fn debug_sections(source: &str, functions: &[Function]) -> Vec<(&'static str, Vec<u8>)> {
    debug_sections_of(source, functions, false)
}

/// The same; with `split`, the unit says that its debug information lies in
/// another file.
fn debug_sections_of(
    source: &str,
    functions: &[Function],
    split: bool,
) -> Vec<(&'static str, Vec<u8>)> {
    let encoding = gimli::Encoding { format: gimli::Format::Dwarf32, version: 4, address_size: 8 };
    let mut dwarf = DwarfUnit::new(encoding);

    let directory = LineString::String(b"/src".to_vec());
    let file = LineString::String(source.as_bytes().to_vec());
    let mut program = LineProgram::new(
        encoding,
        gimli::LineEncoding::default(),
        directory,
        file.clone(),
        None,
    );
    let directory_id = program.default_directory();
    let file_id = program.add_file(file, directory_id, None);
    let first = functions.iter().map(|function| function.address).min().unwrap();
    let end = functions.iter().map(|function| function.address + function.size).max().unwrap();
    program.begin_sequence(Some(Address::Constant(first)));
    let mut ordered: Vec<&Function> = functions.iter().collect();
    ordered.sort_by_key(|function| function.address);
    for function in ordered {
        program.row().file = file_id;
        program.row().line = function.line;
        program.row().address_offset = function.address - first;
        program.generate_row();
    }
    program.end_sequence(end - first);
    dwarf.unit.line_program = program;

    let root = dwarf.unit.root();
    let unit = dwarf.unit.get_mut(root);
    unit.set(gimli::DW_AT_name, AttributeValue::String(source.as_bytes().to_vec()));
    unit.set(gimli::DW_AT_comp_dir, AttributeValue::String(b"/src".to_vec()));
    unit.set(gimli::DW_AT_language, AttributeValue::Language(gimli::DW_LANG_C99));
    unit.set(gimli::DW_AT_low_pc, AttributeValue::Address(Address::Constant(first)));
    unit.set(gimli::DW_AT_high_pc, AttributeValue::Udata(end - first));
    if split {
        unit.set(gimli::DW_AT_GNU_dwo_name, AttributeValue::String(b"dummy_target.dwo".to_vec()));
        unit.set(gimli::DW_AT_GNU_dwo_id, AttributeValue::Data8(0x1122_3344_5566_7788));
    }
    for function in functions {
        let entry = dwarf.unit.add(root, gimli::DW_TAG_subprogram);
        let entry = dwarf.unit.get_mut(entry);
        entry.set(gimli::DW_AT_name, AttributeValue::String(function.name.as_bytes().to_vec()));
        entry.set(
            gimli::DW_AT_low_pc,
            AttributeValue::Address(Address::Constant(function.address)),
        );
        entry.set(gimli::DW_AT_high_pc, AttributeValue::Udata(function.size));
    }

    let mut sections = Sections::new(EndianVec::new(gimli::LittleEndian));
    dwarf.write(&mut sections).unwrap();
    let mut written = Vec::new();
    sections
        .for_each(|id, data| {
            if !data.slice().is_empty() {
                written.push((id.name(), data.slice().to_vec()));
            }
            Ok::<(), gimli::write::Error>(())
        })
        .unwrap();
    written
}

/// A 64-bit little-endian ELF file that holds the given sections.
fn elf_image(sections: &[(&'static str, Vec<u8>)]) -> Vec<u8> {
    let mut names = vec![0u8];
    let mut name_offsets = Vec::new();
    for (name, _) in sections {
        name_offsets.push(names.len() as u32);
        names.extend_from_slice(name.as_bytes());
        names.push(0);
    }
    let names_offset = names.len() as u32;
    names.extend_from_slice(b".shstrtab\0");

    let mut body = Vec::new();
    let mut placed = Vec::new();
    for (_, data) in sections {
        placed.push((64 + body.len() as u64, data.len() as u64));
        body.extend_from_slice(data);
    }
    let names_at = 64 + body.len() as u64;
    body.extend_from_slice(&names);
    let headers_at = 64 + body.len() as u64;
    let count = sections.len() as u16 + 2;

    let mut image = vec![0x7f, b'E', b'L', b'F', 2, 1, 1, 0, 0, 0, 0, 0, 0, 0, 0, 0];
    image.extend_from_slice(&3u16.to_le_bytes());
    image.extend_from_slice(&62u16.to_le_bytes());
    image.extend_from_slice(&1u32.to_le_bytes());
    image.extend_from_slice(&0u64.to_le_bytes());
    image.extend_from_slice(&0u64.to_le_bytes());
    image.extend_from_slice(&headers_at.to_le_bytes());
    image.extend_from_slice(&0u32.to_le_bytes());
    image.extend_from_slice(&64u16.to_le_bytes());
    image.extend_from_slice(&56u16.to_le_bytes());
    image.extend_from_slice(&0u16.to_le_bytes());
    image.extend_from_slice(&64u16.to_le_bytes());
    image.extend_from_slice(&count.to_le_bytes());
    image.extend_from_slice(&(count - 1).to_le_bytes());
    assert_eq!(image.len(), 64);
    image.extend_from_slice(&body);

    let mut header = |name: u32, kind: u32, offset: u64, size: u64| {
        image.extend_from_slice(&name.to_le_bytes());
        image.extend_from_slice(&kind.to_le_bytes());
        image.extend_from_slice(&0u64.to_le_bytes());
        image.extend_from_slice(&0u64.to_le_bytes());
        image.extend_from_slice(&offset.to_le_bytes());
        image.extend_from_slice(&size.to_le_bytes());
        image.extend_from_slice(&0u32.to_le_bytes());
        image.extend_from_slice(&0u32.to_le_bytes());
        image.extend_from_slice(&1u64.to_le_bytes());
        image.extend_from_slice(&0u64.to_le_bytes());
    };
    header(0, 0, 0, 0);
    for (index, (offset, size)) in placed.iter().enumerate() {
        header(name_offsets[index], 1, *offset, *size);
    }
    header(names_offset, 3, names_at, names.len() as u64);
    image
}

/// Where the binary under test is loaded.
const LOAD_BASE: u64 = 0x5555_5555_4000;

fn listing_of(path: &str) -> Vec<String> {
    vec![
        format!("{:x}-{:x} r--p 00000000 08:01 42 {}", LOAD_BASE - 0x1000, LOAD_BASE, path),
        format!("{:x}-{:x} r-xp 00000000 08:01 42 {}", LOAD_BASE, LOAD_BASE + 0x4000, path),
        String::from("7ffd1000-7ffd3000 r-xp 00000000 00:00 0 [vdso]"),
    ]
}

type Context = addr2line::Context<gimli::EndianRcSlice<gimli::RunTimeEndian>>;

/// The binaries of a test, by path, and the debug information that was
/// loaded from them.
struct Binaries {
    images: HashMap<String, Vec<u8>>,
    contexts: HashMap<String, Context>,
    loads: usize,
    lookups: usize,
}

impl Binaries {
    fn new(path: &str, image: Vec<u8>) -> Self {
        let mut images = HashMap::new();
        images.insert(path.to_string(), image);
        Binaries { images, contexts: HashMap::new(), loads: 0, lookups: 0 }
    }

    fn load(&mut self, path: &str) -> Loaded {
        self.loads += 1;
        let Some(image) = self.images.get(path) else {
            return Loaded::Failed;
        };
        let Ok(file) = object::File::parse(&image[..]) else {
            return Loaded::Failed;
        };
        match Context::new(&file) {
            Ok(context) => {
                self.contexts.insert(path.to_string(), context);
                Loaded::Ready
            },
            Err(_) => Loaded::Failed,
        }
    }

    fn look_up(&mut self, path: &str, address: u64) -> FrameLookup {
        self.lookups += 1;
        let context = self.contexts.get(path).expect("the binary was not loaded");
        let mut frames = match context.find_frames(address) {
            addr2line::LookupResult::Output(Ok(frames)) => frames,
            addr2line::LookupResult::Output(Err(error)) => return FrameLookup::Failed(error),
            addr2line::LookupResult::Load { .. } => return FrameLookup::Deferred,
        };
        match frames.next() {
            Ok(Some(frame)) => FrameLookup::Frame(SymbolInfo {
                function: frame
                    .function
                    .as_ref()
                    .and_then(|name| name.demangle().ok().map(|name| name.to_string())),
                file: frame.location.as_ref().and_then(|at| at.file).map(|file| file.to_string()),
                line: frame.location.as_ref().and_then(|at| at.line),
            }),
            Ok(None) => FrameLookup::NoFrame,
            Err(error) => FrameLookup::Failed(error),
        }
    }
}

/// Resolves an address, doing what the resolver asks for.
fn resolve(
    resolver: &mut SymbolResolver,
    binaries: &mut Binaries,
    pid: u32,
    address: u64,
    lines: &Vec<String>,
) -> Result<SymbolInfo, ResolveError> {
    let mut read = false;
    let mut binary = Loaded::Pending;
    let mut lookup = None;
    for _ in 0..8 {
        let listing = if read { Fetched::Ready(lines) } else { Fetched::Pending };
        match resolver.resolve(pid, address, listing, binary, lookup.take()) {
            ResolveStep::Done(result) => return result,
            ResolveStep::ReadListing => read = true,
            ResolveStep::LoadImage(path) => binary = binaries.load(&path),
            ResolveStep::LookUp { path, address } => {
                lookup = Some(binaries.look_up(&path, address))
            },
        }
    }
    panic!("the resolution does not end");
}

fn target_binary() -> Vec<u8> {
    let functions = [
        Function { name: "target_function", address: 0x1139, size: 0x20, line: 4 },
        Function { name: "main", address: 0x1159, size: 0x15, line: 8 },
    ];
    elf_image(&debug_sections("dummy_target.c", &functions))
}

#[test]
fn test_resolve_symbol() {
    let mut binaries = Binaries::new("/tmp/dummy_target", target_binary());
    let lines = listing_of("/tmp/dummy_target");
    let addr = 0x1139;
    let absolute_addr = LOAD_BASE + addr;

    let mut resolver = SymbolResolver::new();
    let info = resolve(&mut resolver, &mut binaries, 16, absolute_addr, &lines);
    match info {
        Ok(sym) => {
            println!("Resolved: {:?}", sym);
            assert!(sym.function.unwrap().contains("target_function"));
        },
        Err(e) => {
            println!("Resolution failed: {:?}", e);
            panic!("Resolution failed");
        },
    }
}

#[test]
fn a_frame_gives_function_file_and_line() {
    let mut binaries = Binaries::new("/tmp/dummy_target", target_binary());
    let lines = listing_of("/tmp/dummy_target");
    let mut resolver = SymbolResolver::new();

    let inside = resolve(&mut resolver, &mut binaries, 16, LOAD_BASE + 0x1140, &lines).unwrap();
    assert_eq!(inside.function.as_deref(), Some("target_function"));
    assert!(inside.file.as_deref().unwrap().ends_with("dummy_target.c"));
    assert_eq!(inside.line, Some(4));

    let next = resolve(&mut resolver, &mut binaries, 16, LOAD_BASE + 0x1160, &lines).unwrap();
    assert_eq!(next.function.as_deref(), Some("main"));
    assert_eq!(next.line, Some(8));

    // An address of the mapping that no function holds.
    let outside = resolve(&mut resolver, &mut binaries, 16, LOAD_BASE + 0x3000, &lines).unwrap();
    assert_eq!(outside.function.as_deref(), Some("/tmp/dummy_target+0x3000"));
    assert_eq!(outside.file.as_deref(), Some("/tmp/dummy_target"));
    assert_eq!(outside.line, None);
    assert_eq!(resolver.cache_len(), 3);
    // The binary was loaded once, and each address looked up once.
    assert_eq!((binaries.loads, binaries.lookups), (1, 3));

    // All three are answered from the cache now, without reading anything.
    for (address, name) in
        [(0x1140, "target_function"), (0x1160, "main"), (0x3000, "/tmp/dummy_target+0x3000")]
    {
        let again = resolve(&mut resolver, &mut binaries, 16, LOAD_BASE + address, &lines).unwrap();
        assert_eq!(again.function.as_deref(), Some(name));
    }
    assert_eq!((binaries.loads, binaries.lookups), (1, 3));
}

#[test]
fn a_binary_that_is_no_object_file_gives_the_fallback_symbol() {
    let mut binaries = Binaries::new("/tmp/dummy_target", vec![1u8, 2, 3, 4, 5, 6, 7, 8, 9, 10]);
    let lines = listing_of("/tmp/dummy_target");
    let mut resolver = SymbolResolver::new();
    let info = resolve(&mut resolver, &mut binaries, 16, LOAD_BASE + 0x1140, &lines).unwrap();
    assert_eq!(info.function.as_deref(), Some("unknown_offset_0x1140"));
    assert_eq!(info.file.as_deref(), Some("/tmp/dummy_target"));
    assert_eq!(resolver.cache_len(), 0);
    let vdso = resolve(&mut resolver, &mut binaries, 16, 0x7ffd1abc, &lines).unwrap();
    assert_eq!(vdso.function.as_deref(), Some("unknown_offset_0xabc"));
    assert_eq!(binaries.lookups, 0);
}

#[test]
fn test_end_to_end_report_generation() {
    let functions = [
        Function { name: "func_a", address: 0x1149, size: 0x10, line: 3 },
        Function { name: "func_b", address: 0x1159, size: 0x10, line: 4 },
        Function { name: "main", address: 0x1169, size: 0x20, line: 5 },
    ];
    let image = elf_image(&debug_sections("dummy_agg.c", &functions));
    let mut binaries = Binaries::new("/tmp/dummy_agg", image);
    let lines = listing_of("/tmp/dummy_agg");
    let pid = 150;
    let addr_a = 0x1149;
    let addr_b = 0x1159;
    let load_base = LOAD_BASE;

    // Create fake samples
    let s1 = Sample { pid, instruction_pointer: load_base + addr_a, value: 1, timestamp: 100 };
    let s2 = Sample { pid, instruction_pointer: load_base + addr_b, value: 1, timestamp: 200 };
    let s3 = Sample { pid, instruction_pointer: load_base + addr_a, value: 1, timestamp: 300 };
    let samples = vec![s1, s2, s3];

    let mut agg = Aggregator::new();
    let mut at = 0;
    let mut read = false;
    let mut binary = Loaded::Pending;
    let mut lookup = None;
    let mut rounds = 0;
    loop {
        rounds += 1;
        assert!(rounds < 20);
        let listing = if read { Fetched::Ready(&lines) } else { Fetched::Pending };
        let step = agg.process_samples(&samples, at, listing, binary, lookup.take());
        let next = match &step {
            ProcessStep::Finished => break,
            ProcessStep::ReadListing { at, .. } => *at,
            ProcessStep::LoadImage { at, .. } => *at,
            ProcessStep::LookUp { at, .. } => *at,
        };
        if next != at {
            at = next;
            read = false;
            binary = Loaded::Pending;
        }
        match step {
            ProcessStep::Finished => break,
            ProcessStep::ReadListing { pid: asked, .. } => {
                assert_eq!(asked, 150);
                read = true;
            },
            ProcessStep::LoadImage { path, .. } => binary = binaries.load(&path),
            ProcessStep::LookUp { path, address, .. } => {
                lookup = Some(binaries.look_up(&path, address))
            },
        }
    }

    let report = agg.generate_report();
    println!("Report: {:?}", report);

    // Verification
    assert_eq!(report.total_samples, 3);
    let has_func_a = report.stats.iter().any(|s| s.name.contains("func_a") && s.count == 2);
    let has_func_b = report.stats.iter().any(|s| s.name.contains("func_b") && s.count == 1);

    assert!(has_func_a, "Report missing func_a with count 2");
    assert!(has_func_b, "Report missing func_b with count 1");
    assert_eq!(report.stats[0].name, "func_a");
    assert_eq!(report.stats[1].name, "func_b");
    // One load, and one lookup for each address: the third sample was cached.
    assert_eq!((binaries.loads, binaries.lookups), (1, 2));
}

#[test]
fn debug_information_in_another_file_is_not_followed() {
    let functions = [Function { name: "target_function", address: 0x1139, size: 0x20, line: 4 }];
    let image = elf_image(&debug_sections_of("dummy_target.c", &functions, true));
    let mut binaries = Binaries::new("/tmp/dummy_target", image);
    let lines = listing_of("/tmp/dummy_target");
    let mut resolver = SymbolResolver::new();
    let error =
        resolve(&mut resolver, &mut binaries, 16, LOAD_BASE + 0x1140, &lines).unwrap_err();
    assert!(matches!(error, ResolveError::DeferredLoading), "{:?}", error);
    assert_eq!(error.message(), "Deferred loading not supported");
    // An error is not cached, but the binary stays loaded: the address is
    // looked up again.
    assert_eq!(resolver.cache_len(), 0);
    let again = resolve(&mut resolver, &mut binaries, 16, LOAD_BASE + 0x1140, &lines).unwrap_err();
    assert!(matches!(again, ResolveError::DeferredLoading));
    assert_eq!((binaries.loads, binaries.lookups), (1, 2));
}

#[test]
fn a_broken_line_table_fails_the_lookup() {
    let functions = [Function { name: "target_function", address: 0x1139, size: 0x20, line: 4 }];
    let mut sections = debug_sections("dummy_target.c", &functions);
    for (name, data) in sections.iter_mut() {
        if *name == ".debug_line" {
            let header_length = u32::from_le_bytes([data[6], data[7], data[8], data[9]]) as usize;
            let program = 10 + header_length;
            assert!(program + 2 <= data.len());
            // An extended instruction that claims to be longer than the table.
            data[program] = 0;
            data[program + 1] = 0x7f;
        }
    }
    let mut binaries = Binaries::new("/tmp/dummy_target", elf_image(&sections));
    let lines = listing_of("/tmp/dummy_target");
    let mut resolver = SymbolResolver::new();
    let error =
        resolve(&mut resolver, &mut binaries, 16, LOAD_BASE + 0x1140, &lines).unwrap_err();
    assert!(matches!(error, ResolveError::Parse(_)), "{:?}", error);
    assert_eq!(error.message(), "Failed to read debug information");
    assert_eq!(resolver.cache_len(), 0);
}
