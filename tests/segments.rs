use vm_translator::hack::{write_line, Instr};
use vm_translator::segment::Segment;

fn text_of(lines: &Vec<Instr<String>>) -> String {
    let mut out = String::new();
    for l in lines {
        write_line(&mut out, l);
    }
    out
}

#[test]
fn from_name_recognises_every_segment() {
    assert!(matches!(Segment::from_name("argument", "Main"), Ok(Segment::Argument)));
    assert!(matches!(Segment::from_name("constant", "Main"), Ok(Segment::Constant)));
    assert!(matches!(Segment::from_name("local", "Main"), Ok(Segment::Local)));
    assert!(matches!(Segment::from_name("pointer", "Main"), Ok(Segment::Pointer)));
    assert!(matches!(Segment::from_name("temp", "Main"), Ok(Segment::Temp)));
    assert!(matches!(Segment::from_name("this", "Main"), Ok(Segment::This)));
    assert!(matches!(Segment::from_name("that", "Main"), Ok(Segment::That)));
    match Segment::from_name("static", "Foo") {
        Ok(Segment::Static(unit)) => assert_eq!(unit, "Foo"),
        other => panic!("unexpected {:?}", other),
    }
}

#[test]
fn from_name_rejects_unknown_segment() {
    match Segment::from_name("heap", "Main") {
        Err(e) => assert_eq!(e, "Invalid segment heap"),
        Ok(s) => panic!("unexpected {:?}", s),
    }
}

#[test]
fn valid_names() {
    for n in ["argument", "constant", "local", "pointer", "static", "temp", "this", "that"] {
        assert!(Segment::is_valid_name(n));
    }
    assert!(!Segment::is_valid_name("Local"));
    assert!(!Segment::is_valid_name(""));
    assert!(!Segment::is_valid_name("locals"));
}

#[test]
fn only_constant_is_read_only() {
    assert!(!Segment::Constant.is_writable());
    assert!(Segment::Local.is_writable());
    assert!(Segment::Static(String::from("A")).is_writable());
    assert!(Segment::Temp.is_writable());
}

#[test]
fn indirect_segment_addresses() {
    assert_eq!(text_of(&Segment::Local.resolve_address(0)), "  @LCL\n  A=M\n");
    assert_eq!(text_of(&Segment::Argument.resolve_address(3)), "  @3\n  D=A\n  @ARG\n  A=D+M\n");
    assert_eq!(text_of(&Segment::That.resolve_address(12)), "  @12\n  D=A\n  @THAT\n  A=D+M\n");
}

#[test]
fn direct_segment_addresses() {
    assert_eq!(text_of(&Segment::Pointer.resolve_address(0)), "  @THIS\n");
    assert_eq!(text_of(&Segment::Pointer.resolve_address(1)), "  @THIS\n  D=A\n  @1\n  A=D+A\n");
    assert_eq!(text_of(&Segment::Temp.resolve_address(0)), "  @5\n");
    assert_eq!(text_of(&Segment::Temp.resolve_address(7)), "  @5\n  D=A\n  @7\n  A=D+A\n");
}

#[test]
fn static_addresses_are_named_by_unit() {
    assert_eq!(text_of(&Segment::Static(String::from("Foo")).resolve_address(0)), "  @Foo.0\n");
    assert_eq!(text_of(&Segment::Static(String::from("Bar")).resolve_address(0)), "  @Bar.0\n");
    assert_eq!(text_of(&Segment::Static(String::from("Bar")).resolve_address(305)), "  @Bar.305\n");
}

#[test]
fn segment_text() {
    assert_eq!(Segment::Argument.to_string(), "ARG");
    assert_eq!(Segment::Constant.to_string(), "CONST");
    assert_eq!(Segment::Local.to_string(), "LCL");
    assert_eq!(Segment::Pointer.to_string(), "POINTER");
    assert_eq!(Segment::Temp.to_string(), "TEMP");
    assert_eq!(Segment::This.to_string(), "THIS");
    assert_eq!(Segment::That.to_string(), "THAT");
    assert_eq!(Segment::Static(String::from("Foo")).to_string(), "Foo");
}
