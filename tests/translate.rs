use std::collections::HashMap;
use vm_translator::assembly_builder::AssemblyBuilder;
use vm_translator::lexer::lex;
use vm_translator::parser::parse;
use vm_translator::translator::{new_error, Translator};
use vm_translator::token::{Token, TokenType};
use vm_translator::command::Command;

fn translate_units(units: &[(&str, &str)]) -> Result<String, String> {
    let mut t = Translator::new();
    for (name, src) in units {
        let source = String::from(*src);
        let tokens = lex(&source)?;
        let commands = parse(&tokens)?;
        t.translate_file(name, commands)?;
    }
    let mut out = String::new();
    t.write(&mut out);
    Ok(out)
}

fn translate(src: &str) -> Result<String, String> {
    translate_units(&[("Main", src)])
}

/// A small interpreter of the target machine's assembly text.
struct Cpu {
    ram: Vec<i16>,
    a: i16,
    d: i16,
    pc: usize,
    rom: Vec<String>,
    symbols: HashMap<String, i16>,
}

impl Cpu {
    fn load(text: &str) -> Cpu {
        let mut rom = Vec::new();
        let mut symbols: HashMap<String, i16> = HashMap::new();
        for (i, r) in ["SP", "LCL", "ARG", "THIS", "THAT"].iter().enumerate() {
            symbols.insert(r.to_string(), i as i16);
        }
        for i in 0..16 {
            symbols.insert(format!("R{}", i), i as i16);
        }
        for line in text.lines() {
            let l = line.trim();
            if l.is_empty() {
                continue;
            }
            if l.starts_with('(') {
                let name = l.trim_start_matches('(').trim_end_matches(')').to_string();
                assert!(!symbols.contains_key(&name), "label defined twice: {}", name);
                symbols.insert(name, rom.len() as i16);
            } else {
                rom.push(l.to_string());
            }
        }
        let mut next_var: i16 = 16;
        for l in &rom {
            if let Some(s) = l.strip_prefix('@') {
                if s.parse::<i16>().is_err() && !symbols.contains_key(s) {
                    symbols.insert(s.to_string(), next_var);
                    next_var += 1;
                }
            }
        }
        Cpu { ram: vec![0; 32768], a: 0, d: 0, pc: 0, rom, symbols }
    }

    fn comp(&self, c: &str) -> i16 {
        let m = self.ram[self.a as u16 as usize];
        match c {
            "0" => 0,
            "-1" => -1,
            "D" => self.d,
            "A" => self.a,
            "M" => m,
            "-M" => m.wrapping_neg(),
            "!M" => !m,
            "M+1" => m.wrapping_add(1),
            "M-1" => m.wrapping_sub(1),
            "D+M" => self.d.wrapping_add(m),
            "D-M" => self.d.wrapping_sub(m),
            "D&M" => self.d & m,
            "D|M" => self.d | m,
            "D+A" => self.d.wrapping_add(self.a),
            "D-A" => self.d.wrapping_sub(self.a),
            other => panic!("unknown computation {}", other),
        }
    }

    fn step(&mut self) {
        let l = self.rom[self.pc].clone();
        self.pc += 1;
        if let Some(s) = l.strip_prefix('@') {
            self.a = match s.parse::<i16>() {
                Ok(v) => v,
                Err(_) => self.symbols[s],
            };
            return;
        }
        let (rest, jump) = match l.split_once(';') {
            Some((r, j)) => (r, j),
            None => (l.as_str(), ""),
        };
        let (dest, comp) = match rest.split_once('=') {
            Some((d, c)) => (d, c),
            None => ("", rest),
        };
        let v = self.comp(comp);
        let addr = self.a as u16 as usize;
        if dest.contains('M') {
            self.ram[addr] = v;
        }
        if dest.contains('A') {
            self.a = v;
        }
        if dest.contains('D') {
            self.d = v;
        }
        let taken = match jump {
            "" => false,
            "JNE" => v != 0,
            "JLT" => v < 0,
            "JGT" => v > 0,
            "JMP" => true,
            other => panic!("unknown jump {}", other),
        };
        if taken {
            self.pc = self.a as u16 as usize;
        }
    }

    fn run(&mut self, steps: usize) {
        for _ in 0..steps {
            if self.pc >= self.rom.len() {
                return;
            }
            self.step();
        }
    }
}

fn run_program(src: &str) -> Cpu {
    let mut cpu = Cpu::load(&translate(src).unwrap());
    cpu.run(100_000);
    cpu
}

#[test]
fn empty_program_is_the_preamble() {
    let mut out = String::new();
    AssemblyBuilder::new().write(&mut out);
    assert_eq!(out, "  @256\n  D=A\n  @SP\n  M=D\n");
    assert_eq!(translate("").unwrap(), out);
}

#[test]
fn push_constant_text() {
    let out = translate("push constant 17").unwrap();
    assert!(out.ends_with("  @17\n  D=A\n  @SP\n  A=M\n  M=D\n  @SP\n  M=M+1\n"));
}

#[test]
fn label_counter_counts_up() {
    let mut b = AssemblyBuilder::new();
    assert_eq!(b.next_label_count(), 1);
    assert_eq!(b.next_label_count(), 2);
    assert_eq!(b.label_count, 2);
}

#[test]
fn push_then_pop_restores_cell_and_stack() {
    for seg in ["local", "argument", "this", "that", "pointer", "temp", "static"] {
        let setup = format!("push constant 400\npop pointer 0\npush constant 500\npop pointer 1\npush constant 1234\npop {seg} 2\n");
        let mut cpu = Cpu::load(&translate(&setup).unwrap());
        cpu.ram[1] = 300;
        cpu.ram[2] = 350;
        cpu.run(100_000);
        let before = cpu.ram.clone();
        let sp = cpu.ram[0];
        let pair = translate(&format!("{setup}push {seg} 2\npop {seg} 2\n")).unwrap();
        let mut cpu2 = Cpu::load(&pair);
        cpu2.ram[1] = 300;
        cpu2.ram[2] = 350;
        cpu2.run(100_000);
        assert_eq!(cpu2.ram[0], sp, "{seg}");
        let cell: usize = match seg {
            "local" => 302,
            "argument" => 352,
            "this" => 402,
            "that" => 502,
            "pointer" => 5,
            "temp" => 7,
            _ => 16,
        };
        if seg != "pointer" {
            assert_eq!(cpu2.ram[cell], 1234, "{seg}");
        }
        assert_eq!(cpu2.ram[cell], before[cell], "{seg}");
    }
}

#[test]
fn constant_through_local() {
    let mut cpu = Cpu::load(&translate("push constant 321\npop local 0\npush local 0\n").unwrap());
    cpu.ram[1] = 300;
    cpu.run(1000);
    assert_eq!(cpu.ram[0], 257);
    assert_eq!(cpu.ram[256], 321);
    assert_eq!(cpu.ram[300], 321);
}

fn compare(op: &str, a: i16, b: i16) -> i16 {
    let src = format!("push constant {a}\npush constant {b}\n{op}\n");
    let cpu = run_program(&src);
    assert_eq!(cpu.ram[0], 257);
    cpu.ram[256]
}

#[test]
fn comparisons_are_canonical_booleans() {
    for (a, b) in [(0, 0), (3, 5), (5, 3), (7, 7), (32767, 0), (0, 32767), (32767, 32767)] {
        assert_eq!(compare("eq", a, b), if a == b { -1 } else { 0 }, "eq {a} {b}");
        assert_eq!(compare("gt", a, b), if a > b { -1 } else { 0 }, "gt {a} {b}");
        assert_eq!(compare("lt", a, b), if a < b { -1 } else { 0 }, "lt {a} {b}");
    }
}

#[test]
fn sub_follows_stack_order() {
    let cpu = run_program("push constant 10\npush constant 3\nsub\n");
    assert_eq!(cpu.ram[0], 257);
    assert_eq!(cpu.ram[256], 7);
    let cpu = run_program("push constant 3\npush constant 10\nsub\n");
    assert_eq!(cpu.ram[256], -7);
}

#[test]
fn arithmetic_and_logic() {
    let cpu = run_program("push constant 12\npush constant 10\nadd\npush constant 12\npush constant 10\nand\npush constant 12\npush constant 10\nor\npush constant 5\nneg\npush constant 0\nnot\n");
    assert_eq!(cpu.ram[0], 261);
    assert_eq!(&cpu.ram[256..261], &[22, 8, 14, -5, -1]);
}

#[test]
fn repeated_comparisons_get_fresh_labels() {
    let out = translate("push constant 1\npush constant 1\neq\npush constant 1\npush constant 1\neq\n").unwrap();
    assert!(out.contains("(__VM_EQ_FALSE_1)"));
    assert!(out.contains("(__VM_EQ_FALSE_2)"));
    let cpu = run_program("push constant 1\npush constant 1\neq\npush constant 2\npush constant 1\neq\n");
    assert_eq!(&cpu.ram[256..258], &[-1, 0]);
}

#[test]
fn labels_are_scoped_by_function() {
    let out = translate("function A.f 0\nlabel L\ngoto L\nfunction B.g 0\nlabel L\nif-goto L\n").unwrap();
    assert!(out.contains("(A.f$L)\n"));
    assert!(out.contains("(B.g$L)\n"));
    assert!(out.contains("  @A.f$L\n  0;JMP\n"));
    assert!(out.contains("  @B.g$L\n  D;JNE\n"));
}

#[test]
fn scoped_goto_jumps_within_function() {
    let src = "function Sys.init 0\npush constant 0\nif-goto SKIP\npush constant 11\ngoto L\nlabel SKIP\npush constant 99\nlabel L\npush constant 5\nlabel END\ngoto END\nfunction Other.f 0\nlabel L\npush constant 77\n";
    let cpu = run_program(src);
    assert_eq!(cpu.ram[0], 258);
    assert_eq!(&cpu.ram[256..258], &[11, 5]);
}

#[test]
fn call_and_return_restore_the_caller() {
    let src = "function Sys.init 0\npush constant 10\npush constant 20\ncall Main.add 2\nlabel END\ngoto END\nfunction Main.add 2\npush argument 0\npush argument 1\nadd\npop local 1\npush constant 1000\npush local 1\nreturn\n";
    let mut cpu = Cpu::load(&translate(src).unwrap());
    cpu.ram[1] = 256;
    cpu.ram[2] = 250;
    cpu.ram[3] = 3000;
    cpu.ram[4] = 4000;
    cpu.run(10_000);
    assert_eq!(cpu.ram[0], 257);
    assert_eq!(cpu.ram[256], 30);
    assert_eq!(&cpu.ram[1..5], &[256, 250, 3000, 4000]);
}

#[test]
fn recursive_calls_keep_their_frames() {
    let src = "function Sys.init 0\npush constant 6\ncall Main.sum 1\nlabel END\ngoto END\nfunction Main.sum 0\npush argument 0\npush constant 0\neq\nif-goto BASE\npush argument 0\npush argument 0\npush constant 1\nsub\ncall Main.sum 1\nadd\nreturn\nlabel BASE\npush constant 0\nreturn\n";
    let mut cpu = Cpu::load(&translate(src).unwrap());
    cpu.ram[1] = 256;
    cpu.ram[2] = 256;
    cpu.run(100_000);
    assert_eq!(cpu.ram[0], 257);
    assert_eq!(cpu.ram[256], 21);
    assert_eq!(&cpu.ram[1..3], &[256, 256]);
}

#[test]
fn nested_calls_get_distinct_return_labels() {
    let out = translate("function Main.f 0\ncall Main.f 0\ncall Main.f 2\n").unwrap();
    assert!(out.contains("(__VM_RETURN_1)\n"));
    assert!(out.contains("(__VM_RETURN_2)\n"));
}

#[test]
fn statics_are_namespaced_by_unit() {
    let out = translate_units(&[("Foo", "push static 0\n"), ("Bar", "push static 0\n")]).unwrap();
    assert!(out.contains("  @Foo.0\n"));
    assert!(out.contains("  @Bar.0\n"));
    let mut cpu = Cpu::load(&out);
    cpu.run(1000);
    assert_ne!(cpu.symbols["Foo.0"], cpu.symbols["Bar.0"]);
}

#[test]
fn labels_count_across_units() {
    let out = translate_units(&[("A", "push constant 1\npush constant 2\nlt\n"), ("B", "push constant 1\npush constant 2\ngt\n")]).unwrap();
    assert!(out.contains("(__VM_LT_TRUE_1)"));
    assert!(out.contains("(__VM_GT_TRUE_2)"));
}

#[test]
fn function_zeroes_its_locals() {
    let out = translate("function Main.f 2\n").unwrap();
    assert!(out.contains("(Main.f)\n  @0\n  D=A\n"));
    assert_eq!(out.matches("  @0\n").count(), 2);
}

fn error_of(src: &str) -> String {
    translate(src).unwrap_err()
}

#[test]
fn error_arity() {
    assert_eq!(error_of("push constant\n"), "Expected 2 arguments for push at Main.vm line 1, column 1");
    assert_eq!(error_of("add 1\n"), "Expected no arguments for command add at Main.vm line 1, column 1");
    assert_eq!(error_of("function Main.f 0\nlabel\n"), "Expected 1 argument for label at Main.vm line 2, column 1");
    assert_eq!(error_of("call f\n"), "Expected 2 arguments for call at Main.vm line 1, column 1");
    assert_eq!(error_of("return 1\n"), "Expected no arguments for command return at Main.vm line 1, column 1");
}

#[test]
fn error_argument_kind() {
    assert_eq!(error_of("push 1 1\n"), "Expected first argument to be identifier at Main.vm line 1, column 1");
    assert_eq!(error_of("push local x\n"), "Expected second argument to be integer at Main.vm line 1, column 1");
    assert_eq!(error_of("function Main.f 0\ngoto 3\n"), "Expected argument to goto to be identifier at Main.vm line 2, column 1");
    assert_eq!(error_of("function 1 0\n"), "Expected first argument of function to be identifier at Main.vm line 1, column 1");
    assert_eq!(error_of("call f g\n"), "Expected second argument of call to be integer at Main.vm line 1, column 1");
}

#[test]
fn error_unknown_segment() {
    assert_eq!(error_of("  pop heap 1\n"), "Unknown segment 'heap' at Main.vm line 1, column 3");
}

#[test]
fn error_read_only_segment() {
    assert_eq!(error_of("add\npop constant 1\n"), "Can't pop into read-only segment CONST at Main.vm line 2, column 1");
}

#[test]
fn error_unscoped_control_flow() {
    assert_eq!(error_of("label L\n"), "Cannot use label in non-function context at Main.vm line 1, column 1");
    assert_eq!(error_of("if-goto L\n"), "Cannot use if-goto in non-function context at Main.vm line 1, column 1");
}

#[test]
fn error_unknown_command() {
    assert_eq!(error_of("push constant 1\nmul\n"), "Unknown command 'mul' at Main.vm line 2, column 1");
}

#[test]
fn error_stops_the_unit() {
    let mut t = Translator::new();
    let source = String::from("push constant 1\nmul\npush constant 2\n");
    let tokens = lex(&source).unwrap();
    let commands = parse(&tokens).unwrap();
    assert!(t.translate_file("Main", commands).is_err());
    let mut out = String::new();
    t.write(&mut out);
    assert!(out.contains("@1\n"));
    assert!(!out.contains("@2\n"));
}

#[test]
fn new_error_names_unit_and_position() {
    let name = Token::new(TokenType::Identifier, "foo", 12, 4);
    let c = Command::new(&name);
    assert_eq!(new_error(String::from("Bad"), "Prog", &c), "Bad at Prog.vm line 12, column 4");
}
