//! Splits VM source text into tokens.
use vstd::prelude::*;
use vstd::std_specs::iter::IteratorSpec;
use crate::text::{dec, push_decimal};
use crate::token::{Token, TokenType, Value};

verus! {

pub open spec fn is_digit(c: char) -> bool {
    '0' <= c <= '9'
}

/// A character that can start an identifier.
pub open spec fn is_ident_start(c: char) -> bool {
    ('a' <= c <= 'z') || ('A' <= c <= 'Z') || c == '_' || c == '-' || c == ':' || c == '.'
}

pub open spec fn is_ident_char(c: char) -> bool {
    is_ident_start(c) || is_digit(c)
}

/// The value of a string of decimal digits.
pub open spec fn digits_value(s: Seq<char>) -> int
    decreases s.len(),
{
    if s.len() == 0 {
        0
    } else {
        digits_value(s.drop_last()) * 10 + (s.last() as int - '0' as int)
    }
}

/// What every token that the lexer makes satisfies.
pub open spec fn token_wf(t: Token) -> bool {
    &&& t.line >= 1
    &&& t.column >= 1
    &&& match t.type_ {
        TokenType::Identifier => {
            &&& t.lexeme@.len() > 0
            &&& is_ident_start(t.lexeme@[0])
            &&& forall|k: int| 0 <= k < t.lexeme@.len() ==> is_ident_char(#[trigger] t.lexeme@[k])
            &&& t.value == Value::Empty
        },
        TokenType::Integer => {
            &&& t.lexeme@.len() > 0
            &&& forall|k: int| 0 <= k < t.lexeme@.len() ==> is_digit(#[trigger] t.lexeme@[k])
            &&& t.value == Value::Integer(digits_value(t.lexeme@) as i16)
            &&& digits_value(t.lexeme@) < 0x8000
        },
        TokenType::Newline => t.lexeme@ == "\n"@ && t.value == Value::Empty,
    }
}

/// The line of offset `o` of `cs`: one more than the newlines before it.
pub open spec fn line_of(cs: Seq<char>, o: int) -> int
    decreases o,
{
    if o <= 0 {
        1
    } else {
        line_of(cs, o - 1) + if cs[o - 1] == '\n' { 1int } else { 0 }
    }
}

/// The column of offset `o` of `cs`, counted from 1 after the last newline.
pub open spec fn column_of(cs: Seq<char>, o: int) -> int
    decreases o,
{
    if o <= 0 {
        1
    } else if cs[o - 1] == '\n' {
        1
    } else {
        column_of(cs, o - 1) + 1
    }
}

/// Token `t` stands at offset `o` of `cs`: its line and column are those of
/// `o`; a word token is the longest run of its kind of characters from `o`;
/// a newline token is a newline of the text, or its end, which a NUL
/// character also marks.
pub open spec fn token_at(cs: Seq<char>, t: Token, o: int) -> bool {
    let end = o + t.lexeme@.len();
    &&& 0 <= o <= cs.len()
    &&& t.line == line_of(cs, o)
    &&& t.column == column_of(cs, o)
    &&& match t.type_ {
        TokenType::Newline => o == cs.len() || cs[o] == '\n' || cs[o] == '\0',
        TokenType::Identifier => end <= cs.len() && cs.subrange(o, end) == t.lexeme@
            && (end == cs.len() || !is_ident_char(cs[end])),
        TokenType::Integer => end <= cs.len() && cs.subrange(o, end) == t.lexeme@
            && (end == cs.len() || !is_digit(cs[end])),
    }
}

/// A character that may stand outside a comment.
pub open spec fn is_lexical(c: char) -> bool {
    is_ident_char(c) || c == ' ' || c == '\t' || c == '\r' || c == '\n' || c == '/' || c == '\0'
}

/// Some character of `cs` is not lexical.
pub open spec fn has_stray_char(cs: Seq<char>) -> bool {
    exists|o: int| 0 <= o < cs.len() && !is_lexical(#[trigger] cs[o])
}

/// Some run of digits of `cs` is worth more than a word holds.
pub open spec fn has_big_number(cs: Seq<char>) -> bool {
    exists|o: int, e: int|
        0 <= o < e <= cs.len() && (forall|k: int| o <= k < e ==> is_digit(#[trigger] cs[k]))
            && #[trigger] digits_value(cs.subrange(o, e)) >= 0x8000
}

/// Token `t` stands somewhere in `cs`.
pub open spec fn placed(cs: Seq<char>, t: Token) -> bool {
    exists|o: int| token_at(cs, t, o)
}

fn source_chars(source: &str) -> (r: Vec<char>)
    ensures
        r@ == source@,
{
    let mut it = source.chars();
    let mut r: Vec<char> = Vec::new();
    loop
        invariant
            r@ + it.remaining() == source@,
            it.obeys_prophetic_iter_laws(),
        ensures
            r@ == source@,
        decreases source@.len() - r@.len(),
    {
        match it.next() {
            Some(c) => r.push(c),
            None => {
                assert(r@ + it.remaining() =~= r@);
                break;
            },
        }
    }
    r
}

fn located(message: &str, line: usize, column: usize) -> (r: String)
    ensures
        r@ == message@ + " at line "@ + dec(line as nat) + ", column "@ + dec(column as nat),
{
    let mut r = String::from_str(message);
    r.append(" at line ");
    push_decimal(&mut r, line as u64);
    r.append(", column ");
    push_decimal(&mut r, column as u64);
    r
}

/// Splits `source` into identifier, integer and newline tokens, each with
/// the line and column where it starts. Spaces, tabs, carriage returns and
/// `//` comments separate tokens; a lone `/` is skipped; a NUL character ends
/// the text. The tokens end with one more newline, for the end of the text.
/// Fails on any other character, and on an integer above 32767.
pub fn lex<'a>(source: &'a String) -> (r: Result<Vec<Token<'a>>, String>)
    requires
        source@.len() < usize::MAX,
    ensures
        r matches Ok(ts) ==> {
            &&& ts@.len() > 0
            &&& ts@.last().type_ == TokenType::Newline
            &&& forall|k: int| 0 <= k < ts@.len() ==> token_wf(#[trigger] ts@[k])
            &&& forall|k: int| 0 <= k < ts@.len() ==> placed(source@, #[trigger] ts@[k])
        },
        r is Err ==> has_stray_char(source@) || has_big_number(source@),
{
    let text: &'a str = source.as_str();
    let cs = source_chars(text);
    let n = cs.len();
    let mut tokens: Vec<Token<'a>> = Vec::new();
    let mut i: usize = 0;
    let mut line: usize = 1;
    let mut column: usize = 1;
    let ghost mut offsets: Seq<int> = Seq::empty();
    while i < n
        invariant
            n == cs@.len(),
            cs@ == text@,
            cs@ == source@,
            n < usize::MAX,
            i <= n,
            1 <= line <= i + 1,
            1 <= column <= i + 1,
            line == line_of(cs@, i as int),
            column == column_of(cs@, i as int),
            forall|k: int| 0 <= k < tokens@.len() ==> token_wf(#[trigger] tokens@[k]),
            offsets.len() == tokens@.len(),
            forall|k: int| 0 <= k < tokens@.len() ==> token_at(cs@, #[trigger] tokens@[k], offsets[k]),
        ensures
            i == n || cs@[i as int] == '\0',
            i <= n,
            1 <= line <= i + 1,
            1 <= column <= i + 1,
            line == line_of(cs@, i as int),
            column == column_of(cs@, i as int),
            forall|k: int| 0 <= k < tokens@.len() ==> token_wf(#[trigger] tokens@[k]),
            offsets.len() == tokens@.len(),
            forall|k: int| 0 <= k < tokens@.len() ==> token_at(cs@, #[trigger] tokens@[k], offsets[k]),
        decreases n - i,
    {
        let c = cs[i];
        if c == '\n' {
            tokens.push(Token::new(TokenType::Newline, "\n", line, column));
            proof {
                offsets = offsets.push(i as int);
            }
            line = line + 1;
            column = 1;
            i = i + 1;
        } else if c == ' ' || c == '\t' || c == '\r' {
            i = i + 1;
            column = column + 1;
        } else if c == '/' {
            if i + 1 < n && cs[i + 1] == '/' {
                let first = i;
                assert(line_of(cs@, i + 2) == line && column_of(cs@, i + 2) == column + 2) by {
                    assert(line_of(cs@, i + 1) == line && column_of(cs@, i + 1) == column + 1);
                }
                i = i + 2;
                column = column + 2;
                while i < n && cs[i] != '\n'
                    invariant
                        first + 2 <= i,
                        line == line_of(cs@, i as int),
                        column == column_of(cs@, i as int),
                        n == cs@.len(),
                        n < usize::MAX,
                        i <= n,
                        1 <= line <= i + 1,
                        1 <= column <= i + 1,
                    decreases n - i,
                {
                    i = i + 1;
                    column = column + 1;
                }
            } else {
                i = i + 1;
                column = column + 1;
            }
        } else if c == '\0' {
            break;
        } else if '0' <= c && c <= '9' {
            let start = i;
            let start_column = column;
            let mut value: i32 = 0;
            while i < n && '0' <= cs[i] && cs[i] <= '9'
                invariant
                    n == cs@.len(),
                    n < usize::MAX,
                    start < n,
                    start <= i <= n,
                    column == start_column + (i - start),
                    1 <= line <= start + 1,
                    1 <= start_column <= start + 1,
                    0 <= value < 0x8000,
                    cs@ == source@,
                    line == line_of(cs@, start as int),
                    start_column == column_of(cs@, start as int),
                    line_of(cs@, i as int) == line,
                    column == column_of(cs@, i as int),
                    is_digit(cs@[start as int]),
                    value == digits_value(cs@.subrange(start as int, i as int)),
                    forall|k: int| start <= k < i ==> is_digit(#[trigger] cs@[k]),
                decreases n - i,
            {
                let d = (cs[i] as u32 - '0' as u32) as i32;
                assert(cs@.subrange(start as int, i + 1).drop_last() =~= cs@.subrange(start as int, i as int));
                value = value * 10 + d;
                if value >= 0x8000 {
                    assert(digits_value(cs@.subrange(start as int, i + 1)) >= 0x8000);
                    assert(has_big_number(source@)) by {
                        assert(forall|k: int| start <= k < i + 1 ==> is_digit(#[trigger] cs@[k]));
                    }
                    return Err(located("Integer out of range", line, start_column));
                }
                i = i + 1;
                column = column + 1;
            }
            let lexeme = text.substring_char(start, i);
            let t = Token::new(TokenType::Integer, lexeme, line, start_column).with_value(Value::Integer(value as i16));
            assert(lexeme@ =~= cs@.subrange(start as int, i as int));
            tokens.push(t);
            proof {
                offsets = offsets.push(start as int);
            }
        } else if ('a' <= c && c <= 'z') || ('A' <= c && c <= 'Z') || c == '_' || c == '-' || c == ':' || c == '.' {
            let start = i;
            let start_column = column;
            while i < n && (('a' <= cs[i] && cs[i] <= 'z') || ('A' <= cs[i] && cs[i] <= 'Z') || ('0' <= cs[i] && cs[i] <= '9')
                || cs[i] == '_' || cs[i] == '-' || cs[i] == ':' || cs[i] == '.')
                invariant
                    n == cs@.len(),
                    n < usize::MAX,
                    start < n,
                    start <= i <= n,
                    column == start_column + (i - start),
                    1 <= line <= start + 1,
                    1 <= start_column <= start + 1,
                    forall|k: int| start <= k < i ==> is_ident_char(#[trigger] cs@[k]),
                    is_ident_start(cs@[start as int]),
                    line == line_of(cs@, start as int),
                    start_column == column_of(cs@, start as int),
                    line_of(cs@, i as int) == line,
                    column == column_of(cs@, i as int),
                decreases n - i,
            {
                i = i + 1;
                column = column + 1;
            }
            let lexeme = text.substring_char(start, i);
            assert(lexeme@ =~= cs@.subrange(start as int, i as int));
            tokens.push(Token::new(TokenType::Identifier, lexeme, line, start_column));
            proof {
                offsets = offsets.push(start as int);
            }
        } else {
            assert(!is_lexical(cs@[i as int]));
            assert(has_stray_char(source@));
            return Err(located("Unexpected character", line, column));
        }
    }
    let ghost before = tokens@;
    tokens.push(Token::new(TokenType::Newline, "\n", line, column));
    proof {
        offsets = offsets.push(i as int);
        assert(forall|k: int| 0 <= k < before.len() ==> tokens@[k] == before[k]);
        assert forall|k: int| 0 <= k < tokens@.len() implies placed(source@, #[trigger] tokens@[k]) by {
            assert(cs@ == source@);
            assert(token_at(source@, tokens@[k], offsets[k]));
        }
    }
    Ok(tokens)
}

} // verus!
