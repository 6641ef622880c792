use toast::arena::{ConstAllocation, ConstAllocationArena};
use toast::const_defs::{char_comment, emit_consts};
use toast::convert::{bin_int, char_int, char_int_single, dec_int, hex_int, string_int_arr};
use toast::dep_graph::DependencyGraph;
use toast::display::{Diagnostics, Report, Vga};
use toast::image::{parse_program, ImageError};
use toast::keyboard::{Key, KeyAction, KeyPress};
use toast::labels::{
    const_label, function_label, generate_label, generate_label_with_context, global_label,
};
use toast::options::{is_verbose, ArgParseError, Options};
use toast::preprocess::{find_includes, splice, Include};
use toast::render::render_types;
use toast::state::GlobalState;
use toast::tasm::{Allocation, InvalidNumber, ParseWithPrefix, Register};
use toast::text::{decimal, parse_int};
use toast::types::{FunctionType, Type};

fn words(s: &str) -> Vec<u16> {
    s.bytes().map(u16::from).collect()
}

fn markers(alloc: &ConstAllocation) -> Vec<(String, usize)> {
    alloc.markers.iter().map(|m| (m.id.clone(), m.offset)).collect()
}

#[test]
fn a_tail_shares_the_words_of_the_whole() {
    let mut arena = ConstAllocationArena::new();
    assert_eq!(arena.allocate(&words("abcd")), Some("1".to_string()));
    assert_eq!(arena.allocate(&words("bcd")), Some("2".to_string()));
    assert_eq!(arena.allocs.len(), 1);
    assert_eq!(arena.allocs[0].seq, words("abcd"));
    assert_eq!(markers(&arena.allocs[0]), vec![("1".to_string(), 0), ("2".to_string(), 1)]);
}

#[test]
fn the_whole_takes_in_the_tail_that_came_first() {
    let mut arena = ConstAllocationArena::new();
    arena.allocate(&words("bcd"));
    arena.allocate(&words("abcd"));
    assert_eq!(arena.allocs.len(), 1);
    assert_eq!(arena.allocs[0].seq, words("abcd"));
    assert_eq!(markers(&arena.allocs[0]), vec![("1".to_string(), 1), ("2".to_string(), 0)]);
}

#[test]
fn sequences_that_overlap_grow_at_either_end() {
    let mut alloc = ConstAllocation { markers: vec![], seq: words("bcdef") };
    assert!(alloc.try_insert(&words("efg"), "tail"));
    assert_eq!(alloc.seq, words("bcdefg"));
    assert!(alloc.try_insert(&words("abc"), "head"));
    assert_eq!(alloc.seq, words("abcdefg"));
    assert!(alloc.try_insert(&words("cde"), "mid"));
    assert_eq!(alloc.seq, words("abcdefg"));
    assert_eq!(
        markers(&alloc),
        vec![("tail".to_string(), 4), ("head".to_string(), 0), ("mid".to_string(), 2)]
    );
    assert!(!alloc.try_insert(&words("xyz"), "none"));
    assert_eq!(alloc.seq, words("abcdefg"));
    assert_eq!(alloc.markers.len(), 3);
    assert_eq!(ConstAllocation::overlap_start(&words("cdx"), &words("abcd")), Some(2));
    assert_eq!(ConstAllocation::overlap_start(&words("x"), &words("abcd")), None);
    assert_eq!(ConstAllocation::overlap_start(&words("x"), &words("")), None);
}

#[test]
fn sequences_without_overlap_get_allocations_of_their_own() {
    let mut arena = ConstAllocationArena::new();
    arena.allocate(&words("ab"));
    arena.allocate(&words("xy"));
    arena.allocate(&words("yz"));
    assert_eq!(arena.allocs.len(), 2);
    assert_eq!(arena.allocs[1].seq, words("xyz"));
    let mut global = GlobalState::new();
    global.const_allocs = arena;
    assert_eq!(
        emit_consts(&global),
        ".const_1\n    0x0061 # 'a '\n    0x0062 # 'b '\n.const_2\n    0x0078 # 'x '\n.const_3\n    0x0079 # 'y '\n    0x007A # 'z '\n"
    );
}

#[test]
fn comments_name_the_character() {
    assert_eq!(char_comment(0x41), " # 'A '");
    assert_eq!(char_comment(0x20), " # '  '");
    assert_eq!(char_comment(0x7E), " # '~ '");
    assert_eq!(char_comment(0x09), " # '\\t'");
    assert_eq!(char_comment(0x0A), " # '\\n'");
    assert_eq!(char_comment(0x0D), " # '\\r'");
    assert_eq!(char_comment(0x00), " # '\\0'");
    assert_eq!(char_comment(0x7F), "");
    assert_eq!(char_comment(0x1F), "");
}

#[test]
fn reachability_follows_edges_from_the_roots() {
    let mut g = DependencyGraph::new();
    g.add_dependency("main".to_string(), "a".to_string());
    g.add_dependency("a".to_string(), "b".to_string());
    g.add_dependency("b".to_string(), "a".to_string());
    g.add_dependency("x".to_string(), "y".to_string());
    g.add_dependency("y".to_string(), "main".to_string());
    g.add_dependency("main".to_string(), "a".to_string());
    assert_eq!(g.calculate_used().len(), 0);
    g.add_root("main".to_string());
    g.add_root("isr".to_string());
    let used = g.calculate_used();
    let mut names = used.names.clone();
    names.sort();
    assert_eq!(names, vec!["a", "b", "isr", "main"]);
    assert!(!used.contains(&"x".to_string()));
}

#[test]
fn labels() {
    let mut counter = 0;
    assert_eq!(generate_label("base", &mut counter), Some("base_1".to_string()));
    assert_eq!(generate_label("base", &mut counter), Some("base_2".to_string()));
    assert_eq!(
        generate_label_with_context("base", "if", &mut counter),
        Some("base_if_3".to_string())
    );
    assert_eq!(counter, 3);
    let mut counter = usize::MAX;
    assert_eq!(generate_label("base", &mut counter), None);
    assert_eq!(counter, usize::MAX);
    let mut counter = 9;
    assert_eq!(generate_label("", &mut counter), Some("_10".to_string()));
    assert_eq!(function_label("main"), "fn_main");
    assert_eq!(global_label("m::x"), "variable_alloc_m::x");
    assert_eq!(const_label("12"), "const_12");
}

#[test]
fn numbers_in_decimal() {
    assert_eq!(decimal(0), "0");
    assert_eq!(decimal(7), "7");
    assert_eq!(decimal(1030), "1030");
    assert_eq!(decimal(usize::MAX), usize::MAX.to_string());
    let chars = |s: &str| s.chars().collect::<Vec<char>>();
    assert_eq!(parse_int(&chars("-128"), 10, -128, 127), Some(-128));
    assert_eq!(parse_int(&chars("128"), 10, -128, 127), None);
    assert_eq!(parse_int(&chars("+7f"), 16, -128, 127), Some(127));
    assert_eq!(parse_int(&chars("0000000000000000000000000000001"), 2, 0, 1), Some(1));
    assert_eq!(parse_int(&chars(""), 10, -1, 1), None);
    assert_eq!(parse_int(&chars("-"), 10, -1, 1), None);
    assert_eq!(parse_int(&chars("1_0"), 10, -100, 100), None);
    assert_eq!(parse_int(&chars("12a"), 10, -1000, 1000), None);
    assert_eq!(parse_int(&chars("zz"), 36, 0, 2000), Some(35 * 36 + 35));
    assert_eq!(
        parse_int(&chars("-9223372036854775808"), 10, i64::MIN, i64::MAX),
        Some(i64::MIN)
    );
    assert_eq!(parse_int(&chars("9223372036854775808"), 10, i64::MIN, i64::MAX), None);
}

#[test]
fn literals_of_the_source_language() {
    assert_eq!(dec_int("42"), Ok(42));
    assert_eq!(dec_int("-1_000"), Ok(-1000));
    assert_eq!(dec_int("--5"), Ok(5));
    assert_eq!(dec_int(""), Err(()));
    assert_eq!(dec_int("4x"), Err(()));
    assert_eq!(hex_int("0xFF"), Ok(255));
    assert_eq!(hex_int("-0x10"), Ok(-16));
    assert_eq!(hex_int("0xbe_ef"), Ok(0xBEEF));
    assert_eq!(hex_int("0x"), Err(()));
    assert_eq!(hex_int("0"), Err(()));
    assert_eq!(bin_int("0b0100100100"), Ok(0b0100100100));
    assert_eq!(bin_int("-0b1"), Ok(-1));
    assert_eq!(bin_int("0b102"), Err(()));
    assert_eq!(char_int("'a'"), Ok(97));
    assert_eq!(char_int("'\\n'"), Ok(10));
    assert_eq!(char_int("'\\t'"), Ok(9));
    assert_eq!(char_int("'\\r'"), Ok(13));
    assert_eq!(char_int("'\\0'"), Ok(0));
    assert_eq!(char_int("'\\\\'"), Ok(92));
    assert_eq!(char_int("'\\\"'"), Ok(34));
    assert_eq!(char_int("'\\q'"), Ok(92));
    assert_eq!(char_int("''"), Err(()));
    assert_eq!(char_int("ab"), Ok(97));
    assert_eq!(char_int_single('n', true), Ok(10));
    assert_eq!(char_int_single('n', false), Ok(110));
    assert_eq!(char_int_single('0', true), Ok(0));
    assert_eq!(char_int_single('q', true), Ok(113));
    assert_eq!(char_int_single('\u{1F600}', false), Ok(0xF600));
    assert_eq!(string_int_arr("\"ab\\n\""), Ok(vec![97, 98, 10, 0]));
    assert_eq!(string_int_arr("\"\""), Ok(vec![0]));
    assert_eq!(string_int_arr("\"a\\\\b\\\""), Ok(vec![97, 92, 98, 0]));
    assert_eq!(string_int_arr("\""), Err(()));
}

#[test]
fn numbers_of_assembly_text() {
    assert_eq!(i32::parse_with_prefix("42"), Ok(42));
    assert_eq!(i32::parse_with_prefix("0x42BeeF"), Ok(0x42BEEF));
    assert_eq!(i32::parse_with_prefix("0b0100100100"), Ok(0b0100100100));
    assert_eq!(i32::parse_with_prefix("0x 42BeeF"), Err(InvalidNumber));
    assert_eq!(i32::parse_with_prefix("0b 0100100100"), Err(InvalidNumber));
    assert_eq!(i32::parse_with_prefix("-7"), Ok(-7));
    assert_eq!(i32::parse_with_prefix("2147483648"), Err(InvalidNumber));
    assert_eq!(i32::parse_with_prefix("-2147483648"), Ok(i32::MIN));
    assert_eq!(i32::parse_with_prefix("0x"), Err(InvalidNumber));
    assert_eq!(Register::new(7).register, 7);
    assert_eq!(Allocation::new(16).size, 16);
}

#[test]
fn memory_images() {
    let image = "DEPTH = 32768;\nCONTENT\nBEGIN\n0000 : 2C08; -- imov r12 .isr\n0001 : 7000;\n7fFf : AbCd;\n0002 : 12;\n0003 :1234;\n0004 : 123G;\n 0005 : 1234;\n0001 : 2005;\r\nEND;";
    let rom = parse_program(image).unwrap();
    assert_eq!(rom.len(), 0x8000);
    assert_eq!(rom[0], 0x2C08);
    assert_eq!(rom[1], 0x2005);
    assert_eq!(rom[0x7FFF], 0xABCD);
    assert_eq!(rom[2], 0x7000);
    assert_eq!(rom[3], 0x7000);
    assert_eq!(rom[4], 0x7000);
    assert_eq!(rom[5], 0x7000);
    assert_eq!(parse_program("").unwrap(), vec![0x7000; 0x8000]);
    assert_eq!(parse_program("0000 : 0001;").unwrap()[0], 1);
    assert_eq!(parse_program("\n\n0000 : 0001;\n").unwrap()[0], 1);
    assert_eq!(parse_program("8000 : 0001;"), Err(ImageError { addr: 0x8000 }));
}

#[test]
fn key_presses() {
    let mut key = Key::new();
    assert_eq!(key.handle(KeyPress::Char('A')), KeyAction::Continue);
    assert_eq!(key, Key { irq: false, key: 0 });
    assert_eq!(key.handle(KeyPress::Char('a')), KeyAction::Continue);
    assert_eq!(key, Key { irq: true, key: 0x001C });
    key.irq = false;
    assert_eq!(key.handle(KeyPress::Char('z')), KeyAction::Continue);
    assert_eq!(key, Key { irq: true, key: 0x001A });
    assert_eq!(key.handle(KeyPress::Enter), KeyAction::Continue);
    assert_eq!(key.key, 0x005A);
    assert_eq!(key.handle(KeyPress::Other), KeyAction::Continue);
    assert_eq!(key.handle(KeyPress::Interrupt), KeyAction::Exit);
    assert_eq!(key, Key { irq: true, key: 0x005A });
    assert_eq!(key.convert_to_scan_code(b'q'), 0x0015);
}

#[test]
fn display_cells_and_reports() {
    assert_eq!(Vga::char_of(0x41), 'A');
    assert_eq!(Vga::char_of(0x1F), ' ');
    assert_eq!(Vga::char_of(0x7F), ' ');
    let cell = Vga::cell_of(0b0010_1011_0100_0001);
    assert_eq!((cell.ch, cell.fg, cell.bg), ('A', 5, 3));
    let mut vga = Vga::new(100, 60, 1000, 50);
    assert_eq!(vga.frame_drawn(500), None);
    assert_eq!(vga.frame_drawn(1049), None);
    assert_eq!(vga.frame_drawn(1050), Some(Report { count: 3, elapsed: 1000 }));
    assert_eq!(vga.running_frame_count, 0);
    assert_eq!(vga.prev_time, 1050);
    assert_eq!(vga.frame_drawn(10), None);
    let mut d = Diagnostics::new(10, 0);
    assert_eq!(d.increment(9), None);
    assert_eq!(d.increment(25), Some(Report { count: 2, elapsed: 25 }));
    assert_eq!(d.halt(0x0A3F), "Halted at 0A3F");
}

#[test]
fn options() {
    let options = Options {
        input: "a.tl".to_string(),
        output: "a.tasm".to_string(),
        include_paths: vec![],
        verbose: true,
    };
    assert!(is_verbose(&options));
    assert_eq!(ArgParseError(2).message(), "Encountered error while parsing arguments: 2");
    assert_eq!(ArgParseError(-1).message(), "Encountered error while parsing arguments: -1");
}

#[test]
fn include_directives_are_found_from_the_left() {
    let chars = |s: &str| s.chars().collect::<Vec<char>>();
    let text = chars("a #include<lib/std-1> b#include<>#include<x y>#include<#include<z_>>");
    let found = find_includes(&text);
    assert_eq!(
        found,
        vec![
            Include { start: 2, end: 21, path: chars("lib/std-1") },
            Include { start: 55, end: 67, path: chars("z_") },
        ]
    );
    assert_eq!(find_includes(&chars("")), vec![]);
    assert_eq!(find_includes(&chars("#include<a")), vec![]);
    assert_eq!(find_includes(&chars("#include<a>")), vec![Include { start: 0, end: 11, path: chars("a") }]);
    assert_eq!(splice(&text, 2, 21, &chars("[text]")), chars("a [text] b#include<>#include<x y>#include<#include<z_>>"));
    assert_eq!(splice(&chars("abc"), 1, 1, &chars("--")), chars("a--bc"));
    assert_eq!(splice(&chars("abc"), 0, 3, &chars("")), chars(""));
}

#[test]
fn types_as_text() {
    let f = Type::Function(FunctionType {
        in_t: vec![Type::U16, Type::Pointer(2, Box::new(Type::Bool))],
        out_t: vec![],
    });
    assert_eq!(Type::U16.render(), "u16");
    assert_eq!(Type::Pointer(1, Box::new(f.clone())).render(), "([u16, bool**] -> [])*");
    assert_eq!(Type::Struct("m::P".to_string()).render(), "m::P");
    assert_eq!(Type::new_generic("a").render(), "$a");
    assert_eq!(Type::Pointer(0, Box::new(Type::U16)).render(), "u16");
    assert_eq!(render_types(&vec![]), "[]");
    assert_eq!(render_types(&vec![Type::Bool]), "[bool]");
    assert_eq!(render_types(&vec![Type::Bool, f]), "[bool, ([u16, bool**] -> [])]");
}

#[test]
fn a_full_memory_image() {
    let mut image = String::from("WIDTH = 16;\nCONTENT\nBEGIN\n");
    for addr in 0..0x8000u32 {
        image.push_str(&format!("{:04X} : {:04x}; -- word {}\n", addr, addr ^ 0x5A5A, addr));
    }
    image.push_str("END;\n");
    let rom = parse_program(&image).unwrap();
    assert_eq!(rom.len(), 0x8000);
    assert_eq!(rom[0], 0x5A5A);
    assert_eq!(rom[0x1234], 0x1234 ^ 0x5A5A);
    assert_eq!(rom[0x7FFF], 0x7FFF ^ 0x5A5A);
}
