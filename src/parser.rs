//! Groups tokens into commands, one per line.
use vstd::prelude::*;
use crate::command::Command;
use crate::text::{dec, push_decimal};
use crate::token::{Token, TokenType};

verus! {

/// A command as a name token and its argument tokens.
pub type CommandV<'a> = (&'a Token<'a>, Seq<&'a Token<'a>>);

impl<'a> Command<'a> {
    pub open spec fn parts(&self) -> CommandV<'a> {
        (self.name, self.args@)
    }
}

/// Reads the tokens `ts` after the commands `done` and the unfinished command
/// `cur`: a newline ends the unfinished command; an identifier starts one, or
/// is its next argument; an integer is its next argument. An integer that
/// starts a line is an error, given by the token itself. A command that no
/// newline ends is dropped.
pub open spec fn parse_from<'a>(
    ts: Seq<&'a Token<'a>>,
    done: Seq<CommandV<'a>>,
    cur: Option<CommandV<'a>>,
) -> Result<Seq<CommandV<'a>>, &'a Token<'a>>
    decreases ts.len(),
{
    if ts.len() == 0 {
        Ok(done)
    } else {
        let t = ts[0];
        let rest = ts.drop_first();
        match t.type_ {
            TokenType::Newline => match cur {
                Some(c) => parse_from(rest, done.push(c), None),
                None => parse_from(rest, done, None),
            },
            TokenType::Identifier => match cur {
                Some(c) => parse_from(rest, done, Some((c.0, c.1.push(t)))),
                None => parse_from(rest, done, Some((t, Seq::empty()))),
            },
            TokenType::Integer => match cur {
                Some(c) => parse_from(rest, done, Some((c.0, c.1.push(t)))),
                None => Err(t),
            },
        }
    }
}

pub open spec fn token_refs<'a>(v: Seq<Token<'a>>) -> Seq<&'a Token<'a>> {
    Seq::new(v.len(), |k: int| &v[k])
}

/// Groups `tokens` into commands.
pub fn parse<'a>(tokens: &'a Vec<Token<'a>>) -> (r: Result<Vec<Command<'a>>, String>)
    ensures
        match parse_from(token_refs(tokens@), Seq::empty(), None) {
            Ok(cs) => r matches Ok(v) && v@.len() == cs.len()
                && forall|j: int| 0 <= j < cs.len() ==> (#[trigger] v@[j]).parts() == cs[j],
            Err(t) => r matches Err(e) && e@ == "Unexpected integer at line "@ + dec(t.line as nat)
                + ", column "@ + dec(t.column as nat),
        },
{
    let ghost all = token_refs(tokens@);
    let mut commands: Vec<Command<'a>> = Vec::new();
    let mut command: Option<Command<'a>> = None;
    let mut i: usize = 0;
    assert(all.skip(0) =~= all);
    assert(commands@.map_values(|c: Command<'a>| c.parts()) =~= Seq::<CommandV<'a>>::empty());
    while i < tokens.len()
        invariant
            all == token_refs(tokens@),
            i <= tokens@.len(),
            parse_from(all, Seq::empty(), None) == parse_from(
                all.skip(i as int),
                commands@.map_values(|c: Command<'a>| c.parts()),
                match command {
                    Some(c) => Some(c.parts()),
                    None => None,
                },
            ),
        decreases tokens@.len() - i,
    {
        let token: &'a Token<'a> = &tokens[i];
        let ghost done = commands@.map_values(|c: Command<'a>| c.parts());
        assert(all.skip(i as int)[0] == token);
        assert(all.skip(i as int).drop_first() =~= all.skip(i + 1));
        match token.type_ {
            TokenType::Newline => {
                match command {
                    Some(c) => {
                        commands.push(c);
                        assert(commands@.map_values(|c: Command<'a>| c.parts()) =~= done.push(c.parts()));
                    },
                    None => {},
                }
                command = None;
            },
            TokenType::Identifier => {
                match command {
                    Some(mut c) => {
                        c.push_arg(token);
                        command = Some(c);
                    },
                    None => {
                        let c = Command::new(token);
                        assert(c.parts().1 =~= Seq::empty());
                        command = Some(c);
                    },
                }
            },
            TokenType::Integer => {
                match command {
                    Some(mut c) => {
                        c.push_arg(token);
                        command = Some(c);
                    },
                    None => {
                        let mut e = String::from_str("Unexpected integer at line ");
                        push_decimal(&mut e, token.line as u64);
                        e.append(", column ");
                        push_decimal(&mut e, token.column as u64);
                        return Err(e);
                    },
                }
            },
        }
        i = i + 1;
    }
    assert(all.skip(i as int).len() == 0);
    Ok(commands)
}

} // verus!
