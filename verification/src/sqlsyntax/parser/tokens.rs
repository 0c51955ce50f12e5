//! The tokens that a rule of the grammar reads from.

use vstd::prelude::*;
use crate::sqlsyntax::lexer::{tokens_view, Token, TokenView};
use crate::sqlsyntax::parser::grammar::token_at;
use crate::sqlsyntax::parser::{RuleError, RuleResult};

verus! {

/// The tokens of a statement from some place on.
#[derive(Clone, Copy)]
pub struct Tokens<'a> {
    tokens: &'a [Token],
    pos: usize,
}

impl<'a> View for Tokens<'a> {
    type V = Seq<Token>;

    /// The tokens that are still to be read.
    closed spec fn view(&self) -> Seq<Token> {
        self.tokens@.skip(self.pos as int)
    }
}

impl<'a> Tokens<'a> {
    /// Whether no more tokens have been read than there are.
    pub closed spec fn wf(&self) -> bool {
        self.pos <= self.tokens@.len()
    }

    /// All tokens of the statement.
    pub closed spec fn all(&self) -> Seq<Token> {
        self.tokens@
    }

    /// The number of tokens that have been read.
    pub closed spec fn at(&self) -> nat {
        self.pos as nat
    }

    /// Whether these are the tokens of `before` after some of them have
    /// been read.
    pub open spec fn follows(&self, before: &Tokens<'a>) -> bool {
        &&& self.wf()
        &&& self.all() == before.all()
        &&& self.at() >= before.at()
        &&& self.at() <= self.all().len()
    }

    /// All tokens of the statement, as mathematics sees them.
    pub open spec fn views(&self) -> Seq<TokenView> {
        tokens_view(self.all())
    }

    /// The first token that is still to be read, if there is one.
    pub open spec fn first(&self) -> Option<TokenView> {
        token_at(self.views(), self.at() as int)
    }

    /// The tokens are what is left of all tokens.
    pub proof fn lemma_view(&self)
        requires
            self.wf(),
        ensures
            self@ == self.all().skip(self.at() as int),
            self.at() <= self.all().len(),
    {
    }

    /// All tokens of a statement, none of them read.
    pub fn new(tokens: &'a [Token]) -> (r: Tokens<'a>)
        ensures
            r.wf(),
            r@ == tokens@,
            r.all() == tokens@,
            r.at() == 0,
    {
        proof {
            assert(tokens@.skip(0) =~= tokens@);
        }
        Tokens { tokens, pos: 0 }
    }

    /// The number of tokens that are still to be read.
    pub fn len(&self) -> (r: usize)
        requires
            self.wf(),
        ensures
            r == self@.len(),
            self.at() + r == self.all().len(),
    {
        self.tokens.len() - self.pos
    }

    /// A copy of the first token.
    pub fn peek_clone(&self) -> (r: Option<Token>)
        requires
            self.wf(),
        ensures
            match r {
                Some(t) => self.first() == Some(t@),
                None => self.first().is_none(),
            },
    {
        if self.pos < self.tokens.len() {
            Some(self.tokens[self.pos].clone())
        } else {
            None
        }
    }

    /// The error of a rule that found something else than it starts
    /// with.
    pub fn expecting(&self, expecting_message: &'static str) -> (r: RuleError)
        requires
            self.wf(),
        ensures
            r@ == (true, expecting_message@, self.first()),
    {
        RuleError::ExpectingFirst(expecting_message, self.peek_clone())
    }

    /// Fails where a token is still to be read.
    pub fn expect_no_more_tokens(&self) -> (r: RuleResult<()>)
        requires
            self.wf(),
        ensures
            match r {
                Ok(_) => self.first().is_none(),
                Err(e) => self.first().is_some() && e@ == (true, "no more tokens"@, self.first()),
            },
    {
        if self.len() > 0 {
            Err(self.expecting("no more tokens"))
        } else {
            Ok(())
        }
    }

    /// Reads the given token, or fails where another token or none comes
    /// next.
    pub fn pop_token_expecting(&mut self, token: &Token, expecting_message: &'static str) -> (r:
        RuleResult<()>)
        requires
            old(self).wf(),
        ensures
            final(self).follows(old(self)),
            match r {
                Ok(_) => old(self).first() == Some(token@) && final(self)@ == old(self)@.skip(1)
                    && final(self).at() == old(self).at() + 1,
                Err(e) => old(self).first() != Some(token@) && *final(self) == *old(self) && e@ == (
                    true,
                    expecting_message@,
                    old(self).first(),
                ),
            },
    {
        if self.pop_if_token(token) {
            Ok(())
        } else {
            Err(self.expecting(expecting_message))
        }
    }

    /// Reads the given token where it comes next, and says whether it
    /// did.
    pub fn pop_if_token(&mut self, token: &Token) -> (r: bool)
        requires
            old(self).wf(),
        ensures
            final(self).follows(old(self)),
            r == (old(self).first() == Some(token@)),
            r ==> final(self)@ == old(self)@.skip(1) && final(self).at() == old(self).at() + 1,
            !r ==> *final(self) == *old(self),
    {
        if self.pos < self.tokens.len() {
            if self.tokens[self.pos] == *token {
                self.pos = self.pos + 1;
                proof {
                    assert(self@ =~= old(self)@.skip(1));
                }
                true
            } else {
                false
            }
        } else {
            false
        }
    }

    /// Reads a number where one comes next.
    #[must_use]
    pub fn pop_if_number(&mut self) -> (r: Option<String>)
        requires
            old(self).wf(),
        ensures
            final(self).follows(old(self)),
            match r {
                Some(s) => old(self).first()
                    == Some(TokenView::Number(s@)) && final(self)@
                        == old(self)@.skip(1) && final(self).at() == old(self).at() + 1,
                None => !(old(self).first() matches Some(TokenView::Number(_))) && *final(self)
                    == *old(self),
            },
    {
        if self.pos < self.tokens.len() {
            if let Token::Number(s) = &self.tokens[self.pos] {
                let ident = s.clone();
                self.pos = self.pos + 1;
                proof {
                    assert(self@ =~= old(self)@.skip(1));
                }
                Some(ident)
            } else {
                None
            }
        } else {
            None
        }
    }

    /// Reads a string where one comes next.
    #[must_use]
    pub fn pop_if_string_literal(&mut self) -> (r: Option<String>)
        requires
            old(self).wf(),
        ensures
            final(self).follows(old(self)),
            match r {
                Some(s) => old(self).first() == Some(TokenView::StringLiteral(s@)) && final(self)@
                    == old(self)@.skip(1) && final(self).at() == old(self).at() + 1,
                None => !(old(self).first() matches Some(TokenView::StringLiteral(_))) && *final(self)
                    == *old(self),
            },
    {
        if self.pos < self.tokens.len() {
            if let Token::StringLiteral(s) = &self.tokens[self.pos] {
                let ident = s.clone();
                self.pos = self.pos + 1;
                proof {
                    assert(self@ =~= old(self)@.skip(1));
                }
                Some(ident)
            } else {
                None
            }
        } else {
            None
        }
    }

    /// Reads an identifier where one comes next.
    pub fn pop_if_ident(&mut self) -> (r: Option<String>)
        requires
            old(self).wf(),
        ensures
            final(self).follows(old(self)),
            match r {
                Some(s) => old(self).first()
                    == Some(TokenView::Ident(s@)) && final(self)@
                        == old(self)@.skip(1) && final(self).at() == old(self).at() + 1,
                None => !(old(self).first() matches Some(TokenView::Ident(_))) && *final(self)
                    == *old(self),
            },
    {
        if self.pos < self.tokens.len() {
            if let Token::Ident(s) = &self.tokens[self.pos] {
                let ident = s.clone();
                self.pos = self.pos + 1;
                proof {
                    assert(self@ =~= old(self)@.skip(1));
                }
                Some(ident)
            } else {
                None
            }
        } else {
            None
        }
    }

    /// Reads an identifier, or fails where something else comes next.
    pub fn pop_ident_expecting(&mut self, expecting_message: &'static str) -> (r: RuleResult<
        String,
    >)
        requires
            old(self).wf(),
        ensures
            final(self).follows(old(self)),
            match r {
                Ok(s) => old(self).first()
                    == Some(TokenView::Ident(s@)) && final(self)@
                        == old(self)@.skip(1) && final(self).at() == old(self).at() + 1,
                Err(e) => !(old(self).first() matches Some(TokenView::Ident(_))) && *final(self)
                    == *old(self) && e@ == (true, expecting_message@, old(self).first()),
            },
    {
        match self.pop_if_ident() {
            Some(s) => Ok(s),
            None => Err(self.expecting(expecting_message)),
        }
    }

    /// Reads a number, or fails where something else comes next.
    pub fn pop_number_expecting(&mut self, expecting_message: &'static str) -> (r: RuleResult<
        String,
    >)
        requires
            old(self).wf(),
        ensures
            final(self).follows(old(self)),
            match r {
                Ok(s) => old(self).first()
                    == Some(TokenView::Number(s@)) && final(self)@
                        == old(self)@.skip(1) && final(self).at() == old(self).at() + 1,
                Err(e) => !(old(self).first() matches Some(TokenView::Number(_))) && *final(self)
                    == *old(self) && e@ == (true, expecting_message@, old(self).first()),
            },
    {
        match self.pop_if_number() {
            Some(s) => Ok(s),
            None => Err(self.expecting(expecting_message)),
        }
    }

    /// Reads the next token, or fails where there is none.
    pub fn pop_expecting(&mut self, expecting_message: &'static str) -> (r: RuleResult<&'a Token>)
        requires
            old(self).wf(),
        ensures
            final(self).follows(old(self)),
            match r {
                Ok(t) => old(self).first() == Some(t@) && final(self)@ == old(self)@.skip(1)
                    && final(self).at() == old(self).at() + 1,
                Err(e) => old(self).first().is_none() && *final(self) == *old(self) && e@ == (
                    true,
                    expecting_message@,
                    None::<TokenView>,
                ),
            },
    {
        if self.pos < self.tokens.len() {
            let token = &self.tokens[self.pos];
            self.pos = self.pos + 1;
            proof {
                assert(self@ =~= old(self)@.skip(1));
            }
            Ok(token)
        } else {
            Err(self.expecting(expecting_message))
        }
    }
}

} // verus!
