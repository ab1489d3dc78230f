use clipboard_hack::interpreter::color::{build_result, parse_channel, parse_color, parse_functional, rgb_to_hsl, ColorInterpreter};
use clipboard_hack::interpreter::filepath::{format_size, FilePathInterpreter, PathFacts};
use clipboard_hack::interpreter::hex::{hex_dump_of, HexInterpreter};
use clipboard_hack::interpreter::uuid::{uuid_result, UuidInterpreter};
use clipboard_hack::interpreter::{get_interpreters, interpret_all, InterpretItem, InterpretResult, Interpreter};

fn value(res: &InterpretResult, label: &str) -> Option<String> {
    res.items.iter().find(|i| i.label == label).map(|i| i.value.clone())
}

fn labels(res: &InterpretResult) -> Vec<String> {
    res.items.iter().map(|i| i.label.clone()).collect()
}

#[test]
fn hex_of_two_bytes() {
    let res = HexInterpreter.interpret("AB").unwrap();
    assert_eq!(value(&res, "Bytes").unwrap(), "2");
    assert_eq!(value(&res, "Chars (UTF-8)").unwrap(), "2");
    assert_eq!(value(&res, "Compact hex").unwrap(), "4142");
    let dump = value(&res, "Hex dump").unwrap();
    assert_eq!(dump.lines().count(), 1);
    assert!(dump.starts_with("0000"));
    assert_eq!(dump, format!("0000  41 42{}  AB", " ".repeat(42)));
}

#[test]
fn hex_counts_bytes_and_chars_apart() {
    let res = HexInterpreter.interpret("é").unwrap();
    assert_eq!(value(&res, "Bytes").unwrap(), "2");
    assert_eq!(value(&res, "Chars (UTF-8)").unwrap(), "1");
    assert_eq!(value(&res, "Compact hex").unwrap(), "c3a9");
    assert_eq!(value(&res, "Hex dump").unwrap(), format!("0000  c3 a9{}  ..", " ".repeat(42)));
}

#[test]
fn hex_dump_of_seventeen_bytes() {
    let bytes: Vec<u8> = (0u8..17).map(|b| b + 0x41).collect();
    let dump = hex_dump_of(&bytes);
    let lines: Vec<&str> = dump.split('\n').collect();
    assert_eq!(lines.len(), 2);
    assert_eq!(
        lines[0],
        "0000  41 42 43 44 45 46 47 48 49 4a 4b 4c 4d 4e 4f 50  ABCDEFGHIJKLMNOP"
    );
    assert_eq!(lines[1], format!("0010  51{}  Q", " ".repeat(45)));
}

#[test]
fn hex_of_empty_text() {
    let res = HexInterpreter.interpret("").unwrap();
    assert_eq!(value(&res, "Bytes").unwrap(), "0");
    assert_eq!(value(&res, "Compact hex").unwrap(), "");
    assert_eq!(value(&res, "Hex dump").unwrap(), "");
}

#[test]
fn uuid_v4_renderings() {
    let res = UuidInterpreter.interpret("550e8400-e29b-41d4-a716-446655440000").unwrap();
    assert_eq!(value(&res, "Version").unwrap(), "Random");
    assert_eq!(value(&res, "Variant").unwrap(), "RFC4122");
    assert_eq!(value(&res, "Hyphenated").unwrap(), "550e8400-e29b-41d4-a716-446655440000");
    assert_eq!(value(&res, "Simple (no hyphens)").unwrap(), "550e8400e29b41d4a716446655440000");
    assert_eq!(value(&res, "URN").unwrap(), "urn:uuid:550e8400-e29b-41d4-a716-446655440000");
    assert_eq!(value(&res, "Braced").unwrap(), "{550e8400-e29b-41d4-a716-446655440000}");
    assert_eq!(value(&res, "Timestamp (Unix)"), None);
    assert_eq!(res.items.len(), 6);
}

#[test]
fn uuid_other_forms_parse_to_the_same_value() {
    for text in [
        "  550E8400E29B41D4A716446655440000 ",
        "{550e8400-e29b-41d4-a716-446655440000}",
        "urn:uuid:550e8400-e29b-41d4-a716-446655440000",
    ] {
        let res = UuidInterpreter.interpret(text).unwrap();
        assert_eq!(value(&res, "Hyphenated").unwrap(), "550e8400-e29b-41d4-a716-446655440000");
    }
}

#[test]
fn uuid_v1_reports_timestamp() {
    let res = UuidInterpreter.interpret("C232AB00-9414-11EC-B3C8-9F6BDECED846").unwrap();
    assert_eq!(value(&res, "Version").unwrap(), "Mac");
    assert_eq!(value(&res, "Timestamp (Unix)").unwrap(), "1645557742.000000000");
}

#[test]
fn uuid_rejects_other_text() {
    assert!(UuidInterpreter.interpret("not a uuid").is_none());
    assert!(UuidInterpreter.interpret("550e8400-e29b-41d4-a716-44665544000").is_none());
}

#[test]
fn uuid_nil_and_fraction_padding() {
    let res = uuid_result([0u8; 16], Some((12, 3400)));
    assert_eq!(value(&res, "Version").unwrap(), "Nil");
    assert_eq!(value(&res, "Variant").unwrap(), "NCS");
    assert_eq!(value(&res, "Timestamp (Unix)").unwrap(), "12.000003400");
    let res = uuid_result([0xffu8; 16], None);
    assert_eq!(value(&res, "Version").unwrap(), "Max");
    assert_eq!(value(&res, "Variant").unwrap(), "Future");
}

#[test]
fn color_red() {
    let res = ColorInterpreter.interpret("#ff0000").unwrap();
    assert_eq!(value(&res, "R").unwrap(), "255");
    assert_eq!(value(&res, "G").unwrap(), "0");
    assert_eq!(value(&res, "B").unwrap(), "0");
    assert_eq!(value(&res, "A").unwrap(), "255 (100.0%)");
    assert_eq!(value(&res, "HSL").unwrap(), "hsl(0°, 100.0%, 50.0%)");
    assert_eq!(value(&res, "Hex (RGB)").unwrap(), "#ff0000");
    assert_eq!(value(&res, "Hex (RGBA)").unwrap(), "#ff0000ff");
    assert_eq!(res.items[0].color, Some([255, 0, 0, 255]));
    assert_eq!(res.items[0].label, "Preview");
}

#[test]
fn color_rgba_half_alpha() {
    assert_eq!(parse_color("rgba(0,0,0,0.5)"), Some((0, 0, 0, 128)));
    let res = ColorInterpreter.interpret("rgba(0,0,0,0.5)").unwrap();
    assert_eq!(value(&res, "A").unwrap(), "128 (50.2%)");
}

#[test]
fn color_hex_forms() {
    assert_eq!(parse_color("#FFF"), Some((255, 255, 255, 255)));
    assert_eq!(parse_color("#1234"), Some((0x11, 0x22, 0x33, 0x44)));
    assert_eq!(parse_color("#a0B1c2"), Some((0xa0, 0xb1, 0xc2, 255)));
    assert_eq!(parse_color("#a0b1c2d3"), Some((0xa0, 0xb1, 0xc2, 0xd3)));
    assert_eq!(parse_color("#12"), None);
    assert_eq!(parse_color("#ggg"), None);
    assert_eq!(parse_color("#12345"), None);
    assert_eq!(parse_color("#é12"), None);
}

#[test]
fn color_functional_forms() {
    assert_eq!(parse_color("RGB( 1 , 2 , 3 )"), Some((1, 2, 3, 255)));
    assert_eq!(parse_color("rgb(+10,20,30)"), Some((10, 20, 30, 255)));
    assert_eq!(parse_color("rgb(300,0,0)"), None);
    assert_eq!(parse_color("rgb(1,2)"), None);
    assert_eq!(parse_color("rgb(1,2,3,4)"), None);
    assert_eq!(parse_color("rgba(1,2,3)"), None);
    assert_eq!(parse_color("rgba(1,2,3,1.5)"), None);
    assert_eq!(parse_color("rgba(1,2,3,-0.2)"), None);
    assert_eq!(parse_color("rgba(1,2,3,-0.0)"), Some((1, 2, 3, 0)));
    assert_eq!(parse_color("rgba(1,2,3,1.000)"), Some((1, 2, 3, 255)));
    assert_eq!(parse_color("rgba(1,2,3,01)"), Some((1, 2, 3, 255)));
    assert_eq!(parse_color("rgba(1,2,3,1.01)"), None);
    assert_eq!(parse_color("rgba(1,2,3,2)"), None);
    assert_eq!(parse_color("rgba(1,2,3,.25)"), Some((1, 2, 3, 64)));
    assert_eq!(parse_color("rgba(1,2,3,1)"), Some((1, 2, 3, 255)));
    assert_eq!(parse_color("rgba(1,2,3,0)"), Some((1, 2, 3, 0)));
    assert_eq!(parse_color("rgba(1,2,3,x)"), None);
    assert_eq!(parse_color("rgba(1,2,3,0.5.5)"), None);
    assert_eq!(parse_color("blue"), None);
    assert_eq!(parse_functional("rgb(9,8,7)"), Some((9, 8, 7, 255)));
    assert_eq!(parse_channel(" 42 "), Some(42));
    assert_eq!(parse_channel("256"), None);
    assert_eq!(parse_channel(""), None);
}

#[test]
fn color_hsl_branches() {
    assert_eq!(rgb_to_hsl(0, 255, 0), (120, 1000, 500));
    assert_eq!(rgb_to_hsl(0, 0, 255), (240, 1000, 500));
    assert_eq!(rgb_to_hsl(255, 0, 255), (300, 1000, 500));
    assert_eq!(rgb_to_hsl(128, 128, 128), (0, 0, 502));
    assert_eq!(rgb_to_hsl(255, 255, 255), (0, 0, 1000));
    let res = build_result(128, 128, 128, 0);
    assert_eq!(value(&res, "HSL").unwrap(), "hsl(0°, 0.0%, 50.2%)");
    assert_eq!(value(&res, "A").unwrap(), "0 (0.0%)");
}

#[test]
fn color_interpreter_trims_and_declines() {
    assert!(ColorInterpreter.interpret("  #00ff00\n").is_some());
    assert!(ColorInterpreter.interpret("hello").is_none());
}

#[test]
fn path_target_rules() {
    assert_eq!(FilePathInterpreter::target("  /no/such/file ", None), Some("/no/such/file".to_string()));
    assert_eq!(FilePathInterpreter::target("~/notes.txt", Some("/home/u")), Some("/home/u/notes.txt".to_string()));
    assert_eq!(FilePathInterpreter::target("~/notes.txt", None), Some("~/notes.txt".to_string()));
    assert_eq!(FilePathInterpreter::target("relative/path", Some("/home/u")), None);
    assert_eq!(FilePathInterpreter::target("   ", None), None);
}

fn missing() -> PathFacts {
    PathFacts {
        exists: false,
        is_symlink: false,
        is_file: false,
        is_dir: false,
        parent: Some("/no/such".to_string()),
        file_name: Some("file".to_string()),
        stem: Some("file".to_string()),
        extension: None,
        size: None,
        link_target: None,
    }
}

#[test]
fn path_missing_reports_only_existence() {
    let res = FilePathInterpreter::describe(&missing());
    assert_eq!(value(&res, "Exists").unwrap(), "false");
    assert_eq!(value(&res, "Type").unwrap(), "—");
    assert_eq!(value(&res, "Parent"), None);
    assert_eq!(value(&res, "Size"), None);
    assert_eq!(res.items.len(), 2);
}

#[test]
fn path_existing_file_reports_parts_and_size() {
    let facts = PathFacts {
        exists: true,
        is_symlink: false,
        is_file: true,
        is_dir: false,
        parent: Some("/tmp".to_string()),
        file_name: Some("a.tar.gz".to_string()),
        stem: Some("a.tar".to_string()),
        extension: Some("gz".to_string()),
        size: Some(Ok(2048)),
        link_target: None,
    };
    let res = FilePathInterpreter::describe(&facts);
    assert_eq!(labels(&res), vec!["Exists", "Type", "Parent", "Filename", "Stem", "Extension", "Size"]);
    assert_eq!(value(&res, "Type").unwrap(), "File");
    assert_eq!(value(&res, "Size").unwrap(), "2.00 KB (2048 bytes)");
}

#[test]
fn path_symlink_and_size_error() {
    let facts = PathFacts {
        exists: true,
        is_symlink: true,
        is_file: true,
        is_dir: false,
        parent: None,
        file_name: None,
        stem: None,
        extension: None,
        size: Some(Err("denied".to_string())),
        link_target: Some("../target".to_string()),
    };
    let res = FilePathInterpreter::describe(&facts);
    assert_eq!(value(&res, "Type").unwrap(), "Symlink");
    assert_eq!(value(&res, "Size").unwrap(), "(error: denied)");
    assert_eq!(value(&res, "Symlink target").unwrap(), "../target");
    let mut dir = missing();
    dir.exists = true;
    dir.is_dir = true;
    let res = FilePathInterpreter::describe(&dir);
    assert_eq!(value(&res, "Type").unwrap(), "Directory");
    let mut other = missing();
    other.exists = true;
    let res = FilePathInterpreter::describe(&other);
    assert_eq!(value(&res, "Type").unwrap(), "Other");
}

#[test]
fn size_units() {
    assert_eq!(format_size(0), "0 bytes");
    assert_eq!(format_size(1023), "1023 bytes");
    assert_eq!(format_size(1024), "1.00 KB (1024 bytes)");
    assert_eq!(format_size(1536), "1.50 KB (1536 bytes)");
    assert_eq!(format_size(1152), "1.12 KB (1152 bytes)");
    assert_eq!(format_size(5 * 1024 * 1024), "5.00 MB (5242880 bytes)");
    assert_eq!(format_size(1024 * 1024 * 1024), "1.00 GB (1073741824 bytes)");
    assert_eq!(format_size(3 * 1024 * 1024 * 1024 / 2), "1.50 GB (1610612736 bytes)");
}

#[test]
fn registry_order_and_names() {
    let names: Vec<&str> = get_interpreters().iter().map(|i| i.name()).collect();
    assert_eq!(names, vec!["Hex Dump", "UUID", "Color Code", "File Path"]);
    assert!(matches!(get_interpreters()[0], Interpreter::Hex(_)));
}

#[test]
fn interpret_all_lists_every_interpreter() {
    let all = interpret_all("#fff", None);
    assert_eq!(all.len(), 4);
    assert_eq!(all[0].0, "Hex Dump");
    assert!(all[0].1.is_some());
    assert!(all[1].1.is_none());
    assert!(all[2].1.is_some());
    assert!(all[3].1.is_none());
    let facts = missing();
    let all = interpret_all("/no/such/file", Some(&facts));
    assert_eq!(value(all[3].1.as_ref().unwrap(), "Exists").unwrap(), "false");
}

#[test]
fn item_builders() {
    let t = InterpretItem::text("L", "v".to_string());
    assert_eq!((t.label.as_str(), t.value.as_str(), t.color), ("L", "v", None));
    let c = InterpretItem::with_color("P", "#000".to_string(), [1, 2, 3, 4]);
    assert_eq!(c.color, Some([1, 2, 3, 4]));
    let r = InterpretResult::new(vec![t, c]);
    assert_eq!(r.items.len(), 2);
}

#[test]
fn path_interpreter_declines_text_without_path() {
    let facts = missing();
    let all = interpret_all("hello", Some(&facts));
    assert!(all[3].1.is_none());
    assert!(FilePathInterpreter::applies(" ~/x"));
    assert!(!FilePathInterpreter::applies("x/y"));
}

#[test]
fn uuid_grammar_edges() {
    let urn = UuidInterpreter.interpret("URN:UUID:550E8400-E29B-41D4-A716-446655440000").unwrap();
    assert_eq!(value(&urn, "Simple (no hyphens)").unwrap(), "550e8400e29b41d4a716446655440000");
    assert!(UuidInterpreter.interpret("550e8400-e29b-41d4-a716-4466554400é").is_none());
    assert!(UuidInterpreter.interpret("550e8400-e29b-41d4-a716_446655440000").is_none());
    assert!(UuidInterpreter.interpret("{550e8400-e29b-41d4-a716-446655440000)").is_none());
    assert!(UuidInterpreter.interpret("\u{3000}550e8400e29b41d4a716446655440000\u{2003}").is_some());
}
