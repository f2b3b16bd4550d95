//! The parser's boundary: its error type, the location metadata it tags
//! nodes with, and token expectation over the scanner.

use crate::lexer::{lex_spec, Lexer, Token, UnrecognizedTokenError};
use vstd::prelude::*;

verus! {

/// Why a parse step failed.
#[derive(Debug, PartialEq, Eq)]
pub enum ParseError {
    /// The next token was not the expected one.
    ExpectFailed { expected: Token, found: Token },
    /// The token stream ended early.
    OutOfTokens,
    /// The scanner met unrecognizable input.
    UnrecognizedToken(UnrecognizedTokenError),
}

/// The source location tag parsed nodes carry as metadata.
#[derive(Clone, Copy, Debug, Default, PartialEq, Eq)]
pub struct Loc {}

impl<'source> Lexer<'source> {
    /// Consumes the next token, demanding that it be `expected`;
    /// returns its source text on success, and otherwise says whether
    /// the stream ended, scanning failed, or another token was found.
    pub fn expect(&mut self, expected: Token) -> (r: Result<&'source str, ParseError>)
        requires
            old(self).wf(),
        ensures
            final(self).wf(),
            final(self).spec_source() == old(self).spec_source(),
            ({
                let sp = lex_spec(old(self).spec_source());
                if old(self).spec_pos() < sp.0.len() {
                    let found = sp.0[old(self).spec_pos()].0;
                    &&& final(self).spec_pos() == old(self).spec_pos() + 1
                    &&& (if found == expected {
                        r matches Ok(sl) && sl@ == old(self).spec_source().subrange(
                            sp.0[old(self).spec_pos()].1,
                            sp.0[old(self).spec_pos()].2,
                        )
                    } else {
                        r == Err::<&'source str, ParseError>(
                            ParseError::ExpectFailed { expected, found },
                        )
                    })
                } else if !sp.1 && !old(self).spec_reported() {
                    r == Err::<&'source str, ParseError>(
                        ParseError::UnrecognizedToken(UnrecognizedTokenError),
                    )
                } else {
                    r == Err::<&'source str, ParseError>(ParseError::OutOfTokens)
                }
            }),
    {
        let found = self.next();
        let found = match found {
            None => {
                return Err(ParseError::OutOfTokens);
            },
            Some(Err(e)) => {
                return Err(ParseError::UnrecognizedToken(e));
            },
            Some(Ok(found)) => found,
        };
        if found != expected {
            return Err(ParseError::ExpectFailed { expected, found });
        }
        Ok(self.slice())
    }
}

} // verus!
