use vm_translator::command::Command;
use vm_translator::lexer::lex;
use vm_translator::parser::parse;
use vm_translator::token::{Token, TokenType, Value};

#[test]
fn lex_one_command() {
    let src = String::from("push constant 7\n");
    let ts = lex(&src).unwrap();
    assert_eq!(ts.len(), 5);
    assert_eq!(ts[0].type_, TokenType::Identifier);
    assert_eq!(ts[0].lexeme, "push");
    assert_eq!((ts[0].line, ts[0].column), (1, 1));
    assert_eq!(ts[1].lexeme, "constant");
    assert_eq!((ts[1].line, ts[1].column), (1, 6));
    assert_eq!(ts[2].type_, TokenType::Integer);
    assert_eq!(ts[2].value, Value::Integer(7));
    assert_eq!(ts[2].column, 15);
    assert_eq!(ts[3].type_, TokenType::Newline);
    assert_eq!(ts[4].type_, TokenType::Newline);
    assert_eq!(ts[4].line, 2);
}

#[test]
fn lex_skips_comments_and_blanks() {
    let src = String::from("// header\n\tadd // sum\r\n  if-goto LOOP_1\n");
    let ts = lex(&src).unwrap();
    let words: Vec<&str> = ts.iter().filter(|t| t.type_ != TokenType::Newline).map(|t| t.lexeme).collect();
    assert_eq!(words, vec!["add", "if-goto", "LOOP_1"]);
    let add = ts.iter().find(|t| t.lexeme == "add").unwrap();
    assert_eq!((add.line, add.column), (2, 2));
    let label = ts.iter().find(|t| t.lexeme == "LOOP_1").unwrap();
    assert_eq!((label.line, label.column), (3, 11));
}

#[test]
fn lex_ends_with_newline_without_final_newline() {
    let src = String::from("return");
    let ts = lex(&src).unwrap();
    assert_eq!(ts.len(), 2);
    assert_eq!(ts[1].type_, TokenType::Newline);
}

#[test]
fn lex_largest_integer() {
    let src = String::from("push constant 32767");
    let ts = lex(&src).unwrap();
    assert_eq!(ts[2].value, Value::Integer(32767));
}

#[test]
fn lex_rejects_integer_out_of_range() {
    let src = String::from("push constant 32768");
    assert_eq!(lex(&src).unwrap_err(), "Integer out of range at line 1, column 15");
}

#[test]
fn lex_rejects_unknown_character() {
    let src = String::from("add\npush # 1");
    assert_eq!(lex(&src).unwrap_err(), "Unexpected character at line 2, column 6");
}

#[test]
fn parse_groups_by_line() {
    let src = String::from("push local 2\n\nadd\nfunction Main.f 3\n");
    let ts = lex(&src).unwrap();
    let cs = parse(&ts).unwrap();
    assert_eq!(cs.len(), 3);
    assert_eq!(cs[0].name.lexeme, "push");
    assert_eq!(cs[0].num_args(), 2);
    assert_eq!(cs[0].arg(0).lexeme, "local");
    assert_eq!(cs[0].arg(1).value, Value::Integer(2));
    assert_eq!(cs[1].name.lexeme, "add");
    assert_eq!(cs[1].num_args(), 0);
    assert_eq!(cs[2].arg(0).lexeme, "Main.f");
}

#[test]
fn parse_rejects_leading_integer() {
    let src = String::from("add\n  12 push\n");
    let ts = lex(&src).unwrap();
    assert_eq!(parse(&ts).unwrap_err(), "Unexpected integer at line 2, column 3");
}

#[test]
fn command_building() {
    let name = Token::new(TokenType::Identifier, "pop", 4, 1);
    let seg = Token::new(TokenType::Identifier, "temp", 4, 5);
    let idx = Token::new(TokenType::Integer, "3", 4, 10).with_value(Value::Integer(3));
    assert_eq!(idx.value, Value::Integer(3));
    assert_eq!(idx.lexeme, "3");
    assert_eq!(seg.value, Value::Empty);
    let mut c = Command::new(&name);
    assert_eq!(c.num_args(), 0);
    c.push_arg(&seg);
    c.push_arg(&idx);
    assert_eq!(c.num_args(), 2);
    assert_eq!(c.arg(1).line, 4);
    assert_eq!(c.arg(0).lexeme, "temp");
}
