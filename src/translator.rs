//! Translates the commands of compilation units into one assembly program.
use vstd::prelude::*;
use crate::assembly_builder::{binary_code, call_code, compare_code, function_code, goto_code, if_goto_code, label_code, pop_code, preamble, push_code, return_code, sub_code, unary_code, AssemblyBuilder, Compare};
use crate::command::Command;
use crate::hack::{render, Comp, InstrV};
use crate::segment::{segment_text, is_segment_name, segment_named, Segment, SegmentV};
use crate::text::{dec, push_decimal, same_text};
use crate::token::{Token, TokenType, Value};

verus! {

/// What translation has produced so far: the code, the label counter and
/// the function whose body is being translated.
pub struct TState {
    pub code: Seq<InstrV>,
    pub count: nat,
    pub current: Option<Seq<char>>,
}

/// The text of an error, with the unit and position of the command.
pub open spec fn error_text(message: Seq<char>, unit: Seq<char>, line: usize, column: usize) -> Seq<char> {
    message + " at "@ + unit + ".vm line "@ + dec(line as nat) + ", column "@ + dec(column as nat)
}

pub open spec fn is_arith_name(n: Seq<char>) -> bool {
    n == "add"@ || n == "sub"@ || n == "neg"@ || n == "eq"@ || n == "gt"@ || n == "lt"@
        || n == "and"@ || n == "or"@ || n == "not"@
}

/// The effect of an arithmetic, logical or comparison command.
pub open spec fn arith_effect(st: TState, n: Seq<char>) -> TState {
    let next = (st.count + 1) as u64;
    if n == "add"@ {
        TState { code: st.code + binary_code(Comp::DPlusM), ..st }
    } else if n == "sub"@ {
        TState { code: st.code + sub_code(), ..st }
    } else if n == "neg"@ {
        TState { code: st.code + unary_code(Comp::NegM), ..st }
    } else if n == "eq"@ {
        TState { code: st.code + compare_code(Compare::Eq, next), count: st.count + 1, ..st }
    } else if n == "gt"@ {
        TState { code: st.code + compare_code(Compare::Gt, next), count: st.count + 1, ..st }
    } else if n == "lt"@ {
        TState { code: st.code + compare_code(Compare::Lt, next), count: st.count + 1, ..st }
    } else if n == "and"@ {
        TState { code: st.code + binary_code(Comp::DAndM), ..st }
    } else if n == "or"@ {
        TState { code: st.code + binary_code(Comp::DOrM), ..st }
    } else {
        TState { code: st.code + unary_code(Comp::NotM), ..st }
    }
}

pub open spec fn is_jump_name(n: Seq<char>) -> bool {
    n == "label"@ || n == "goto"@ || n == "if-goto"@
}

pub open spec fn jump_code(n: Seq<char>, f: Seq<char>, l: Seq<char>) -> Seq<InstrV> {
    if n == "label"@ {
        label_code(f, l)
    } else if n == "goto"@ {
        goto_code(f, l)
    } else {
        if_goto_code(f, l)
    }
}

/// The non-negative integer a token carries, if it carries one.
pub open spec fn index_of(t: &Token) -> Option<u16> {
    match t.value {
        Value::Integer(v) => if v >= 0 { Some(v as u16) } else { None },
        _ => None,
    }
}

/// The effect of one command, or the message of the error it raises.
pub open spec fn command_effect(st: TState, unit: Seq<char>, c: Command) -> Result<TState, Seq<char>> {
    let n = c.name.lexeme@;
    let args = c.args@;
    if n == "push"@ || n == "pop"@ {
        if args.len() != 2 {
            Err("Expected 2 arguments for "@ + n)
        } else if args[0].type_ != TokenType::Identifier {
            Err("Expected first argument to be identifier"@)
        } else if !is_segment_name(args[0].lexeme@) {
            Err("Unknown segment '"@ + args[0].lexeme@ + "'"@)
        } else if index_of(args[1]) is None {
            Err("Expected second argument to be integer"@)
        } else {
            let seg = segment_named(args[0].lexeme@, unit)->Some_0;
            let i = index_of(args[1])->Some_0;
            if n == "pop"@ {
                if seg is Constant {
                    Err("Can't pop into read-only segment "@ + segment_text(seg))
                } else {
                    Ok(TState { code: st.code + pop_code(seg, i), ..st })
                }
            } else {
                Ok(TState { code: st.code + push_code(seg, i), ..st })
            }
        }
    } else if is_arith_name(n) {
        if args.len() > 0 {
            Err("Expected no arguments for command "@ + n)
        } else {
            Ok(arith_effect(st, n))
        }
    } else if is_jump_name(n) {
        if args.len() != 1 {
            Err("Expected 1 argument for "@ + n)
        } else if args[0].type_ != TokenType::Identifier {
            Err("Expected argument to "@ + n + " to be identifier"@)
        } else if st.current is None {
            Err("Cannot use "@ + n + " in non-function context"@)
        } else {
            Ok(TState { code: st.code + jump_code(n, st.current->Some_0, args[0].lexeme@), ..st })
        }
    } else if n == "function"@ || n == "call"@ {
        if args.len() != 2 {
            Err("Expected 2 arguments for "@ + n)
        } else if args[0].type_ != TokenType::Identifier {
            Err("Expected first argument of "@ + n + " to be identifier"@)
        } else if index_of(args[1]) is None {
            Err("Expected second argument of "@ + n + " to be integer"@)
        } else {
            let f = args[0].lexeme@;
            let k = index_of(args[1])->Some_0;
            if n == "function"@ {
                Ok(TState { code: st.code + function_code(f, k as nat), current: Some(f), ..st })
            } else {
                Ok(TState { code: st.code + call_code(f, k, (st.count + 1) as u64), count: st.count + 1, ..st })
            }
        }
    } else if n == "return"@ {
        if args.len() > 0 {
            Err("Expected no arguments for command "@ + n)
        } else {
            Ok(TState { code: st.code + return_code(), ..st })
        }
    } else {
        Err("Unknown command '"@ + n + "'"@)
    }
}

/// The effect of a sequence of commands: the state after all of them, or the
/// state before the first that fails, with its error text.
pub open spec fn commands_effect(st: TState, unit: Seq<char>, cs: Seq<Command>) -> Result<TState, (TState, Seq<char>)>
    decreases cs.len(),
{
    if cs.len() == 0 {
        Ok(st)
    } else {
        match command_effect(st, unit, cs[0]) {
            Ok(next) => commands_effect(next, unit, cs.drop_first()),
            Err(m) => Err((st, error_text(m, unit, cs[0].name.line, cs[0].name.column))),
        }
    }
}

/// The message of an error, followed by where the command stands.
pub fn new_error(message: String, filename: &str, command: &Command) -> (r: String)
    ensures
        r@ == error_text(message@, filename@, command.name.line, command.name.column),
{
    let mut r = message.concat(" at ");
    r.append(filename);
    r.append(".vm line ");
    push_decimal(&mut r, command.name.line as u64);
    r.append(", column ");
    push_decimal(&mut r, command.name.column as u64);
    r
}

fn fail(message: String, filename: &str, command: &Command) -> (r: Result<(), String>)
    ensures
        r matches Err(e) && e@ == error_text(message@, filename@, command.name.line, command.name.column),
{
    Err(new_error(message, filename, command))
}

fn text(s: &str) -> (r: String)
    ensures
        r@ == s@,
{
    String::from_str(s)
}

/// Translates compilation units one after another into one program.
pub struct Translator {
    pub assembly: AssemblyBuilder,
    pub current_function_name: Option<String>,
}

impl Translator {
    pub open spec fn state(&self) -> TState {
        TState {
            code: self.assembly.code(),
            count: self.assembly.label_count as nat,
            current: match self.current_function_name {
                Some(f) => Some(f@),
                None => None,
            },
        }
    }

    /// A translator whose program holds the preamble alone.
    pub fn new() -> (r: Translator)
        ensures
            r.state() == (TState { code: preamble(), count: 0, current: None }),
    {
        Translator { assembly: AssemblyBuilder::new(), current_function_name: None }
    }

    fn translate_command(&mut self, filename: &str, command: &Command) -> (r: Result<(), String>)
        requires
            old(self).assembly.label_count < u64::MAX,
        ensures
            match command_effect(old(self).state(), filename@, *command) {
                Ok(st) => r is Ok && final(self).state() == st,
                Err(m) => r matches Err(e) && final(self).state() == old(self).state()
                    && e@ == error_text(m, filename@, command.name.line, command.name.column),
            },
    {
        let n = command.name.lexeme;
        if same_text(n, "push") || same_text(n, "pop") {
            if command.num_args() != 2 {
                return fail(text("Expected 2 arguments for ").concat(n), filename, command);
            }
            let first = command.arg(0);
            let second = command.arg(1);
            if first.type_ != TokenType::Identifier {
                return fail(text("Expected first argument to be identifier"), filename, command);
            }
            if !Segment::is_valid_name(first.lexeme) {
                return fail(text("Unknown segment '").concat(first.lexeme).concat("'"), filename, command);
            }
            let mut index: i16 = 0;
            let mut ok = false;
            if let Value::Integer(v) = second.value {
                index = v;
                ok = v >= 0;
            }
            if !ok {
                return fail(text("Expected second argument to be integer"), filename, command);
            }
            let segment = match Segment::from_name(first.lexeme, filename) {
                Ok(s) => s,
                Err(e) => return fail(e, filename, command),
            };
            if same_text(n, "pop") {
                if !segment.is_writable() {
                    return fail(text("Can't pop into read-only segment ").concat(segment.to_string().as_str()), filename, command);
                }
                self.assembly.pop(&segment, index);
            } else {
                self.assembly.push(&segment, index);
            }
        } else if same_text(n, "add") || same_text(n, "sub") || same_text(n, "neg") || same_text(n, "eq")
            || same_text(n, "gt") || same_text(n, "lt") || same_text(n, "and") || same_text(n, "or")
            || same_text(n, "not") {
            if command.num_args() > 0 {
                return fail(text("Expected no arguments for command ").concat(n), filename, command);
            }
            if same_text(n, "add") {
                self.assembly.binary(Comp::DPlusM);
            } else if same_text(n, "sub") {
                self.assembly.sub();
            } else if same_text(n, "neg") {
                self.assembly.unary(Comp::NegM);
            } else if same_text(n, "eq") {
                self.assembly.compare(Compare::Eq);
            } else if same_text(n, "gt") {
                self.assembly.compare(Compare::Gt);
            } else if same_text(n, "lt") {
                self.assembly.compare(Compare::Lt);
            } else if same_text(n, "and") {
                self.assembly.binary(Comp::DAndM);
            } else if same_text(n, "or") {
                self.assembly.binary(Comp::DOrM);
            } else {
                self.assembly.unary(Comp::NotM);
            }
        } else if same_text(n, "label") || same_text(n, "goto") || same_text(n, "if-goto") {
            if command.num_args() != 1 {
                return fail(text("Expected 1 argument for ").concat(n), filename, command);
            }
            let first = command.arg(0);
            if first.type_ != TokenType::Identifier {
                return fail(text("Expected argument to ").concat(n).concat(" to be identifier"), filename, command);
            }
            match &self.current_function_name {
                None => {
                    return fail(text("Cannot use ").concat(n).concat(" in non-function context"), filename, command);
                },
                Some(f) => {
                    if same_text(n, "label") {
                        self.assembly.label(f.as_str(), first.lexeme);
                    } else if same_text(n, "goto") {
                        self.assembly.goto(f.as_str(), first.lexeme);
                    } else {
                        self.assembly.if_goto(f.as_str(), first.lexeme);
                    }
                },
            }
        } else if same_text(n, "function") || same_text(n, "call") {
            if command.num_args() != 2 {
                return fail(text("Expected 2 arguments for ").concat(n), filename, command);
            }
            let first = command.arg(0);
            let second = command.arg(1);
            if first.type_ != TokenType::Identifier {
                return fail(text("Expected first argument of ").concat(n).concat(" to be identifier"), filename, command);
            }
            let mut count: i16 = 0;
            let mut ok = false;
            if let Value::Integer(v) = second.value {
                count = v;
                ok = v >= 0;
            }
            if !ok {
                return fail(text("Expected second argument of ").concat(n).concat(" to be integer"), filename, command);
            }
            if same_text(n, "function") {
                self.assembly.function(first.lexeme, count as u16);
                self.current_function_name = Some(text(first.lexeme));
            } else {
                self.assembly.call(first.lexeme, count as u16);
            }
        } else if same_text(n, "return") {
            if command.num_args() > 0 {
                return fail(text("Expected no arguments for command ").concat(n), filename, command);
            }
            self.assembly.return_();
        } else {
            return fail(text("Unknown command '").concat(n).concat("'"), filename, command);
        }
        Ok(())
    }

    /// Translates the commands of compilation unit `filename`, in order,
    /// stopping at the first that fails.
    pub fn translate_file(&mut self, filename: &str, commands: Vec<Command>) -> (r: Result<(), String>)
        requires
            old(self).assembly.label_count + commands@.len() < u64::MAX,
        ensures
            match commands_effect(old(self).state(), filename@, commands@) {
                Ok(st) => r is Ok && final(self).state() == st,
                Err((st, m)) => r matches Err(e) && final(self).state() == st && e@ == m,
            },
    {
        let mut i: usize = 0;
        assert(commands@.skip(0) =~= commands@);
        while i < commands.len()
            invariant
                i <= commands@.len(),
                self.assembly.label_count <= old(self).assembly.label_count + i,
                old(self).assembly.label_count + commands@.len() < u64::MAX,
                commands_effect(old(self).state(), filename@, commands@)
                    == commands_effect(self.state(), filename@, commands@.skip(i as int)),
            decreases commands@.len() - i,
        {
            let ghost rest = commands@.skip(i as int);
            assert(rest[0] == commands@[i as int]);
            assert(rest.drop_first() =~= commands@.skip(i + 1));
            let r = self.translate_command(filename, &commands[i]);
            if r.is_err() {
                return r;
            }
            i = i + 1;
        }
        Ok(())
    }

    /// Appends the text of the program translated so far.
    pub fn write(&self, out: &mut String)
        ensures
            final(out)@ == old(out)@ + render(self.state().code),
    {
        self.assembly.write(out);
    }
}

} // verus!
