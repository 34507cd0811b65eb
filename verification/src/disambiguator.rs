//! A streaming one-token-lookahead pass that resolves ambiguous raw name
//! tokens, emits every other token unchanged, and halts at the first lexical
//! error.

use crate::token::{duplicate_token, is_node_test_str, resolve, Token, TokenError, TokenModel,
    TokenResult};
use vstd::prelude::*;

verus! {

/// The model of one step of the stream.
pub open spec fn result_model(r: TokenResult) -> Result<TokenModel, TokenError> {
    match r {
        Result::Ok(t) => Result::Ok(t@),
        Result::Err(e) => Result::Err(e),
    }
}

/// The lookahead the stream offers at position `i`: the next token, when
/// there is one and it is not an error.
pub open spec fn lookahead_at(s: Seq<TokenResult>, i: int) -> Option<TokenModel> {
    if i + 1 < s.len() {
        match s[i + 1] {
            Result::Ok(t) => Some(t@),
            Result::Err(_) => None,
        }
    } else {
        None
    }
}

/// The output owed at position `i`: an error is passed on as it is, and a
/// token is resolved against the lookahead.
pub open spec fn expected_at(s: Seq<TokenResult>, i: int) -> Result<TokenModel, TokenError> {
    match s[i] {
        Result::Ok(t) => Result::Ok(resolve(t@, lookahead_at(s, i))),
        Result::Err(e) => Result::Err(e),
    }
}

/// Pulls tokens from a tokenized stream and yields them disambiguated, one
/// output per input and in order, stopping after the first lexical error.
pub struct XPathTokenDisambiguator {
    source: Vec<TokenResult>,
    pos: usize,
    halted: bool,
}

impl XPathTokenDisambiguator {
    /// The underlying stream.
    pub closed spec fn source_seq(&self) -> Seq<TokenResult> {
        self.source@
    }

    /// How many tokens have been yielded.
    pub closed spec fn position(&self) -> int {
        self.pos as int
    }

    /// Whether a lexical error has ended the stream.
    pub closed spec fn halted(&self) -> bool {
        self.halted
    }

    pub fn new(source: Vec<TokenResult>) -> (r: XPathTokenDisambiguator)
        ensures
            r.source_seq() == source@,
            r.position() == 0,
            !r.halted(),
    {
        XPathTokenDisambiguator { source, pos: 0, halted: false }
    }

    /// The next disambiguated token: exactly `expected_at` for the current
    /// position, `None` once the input is exhausted or an error was yielded.
    pub fn next(&mut self) -> (r: Option<TokenResult>)
        ensures
            final(self).source_seq() == old(self).source_seq(),
            old(self).halted() || old(self).position() >= old(self).source_seq().len() ==> {
                &&& r is None
                &&& final(self).position() == old(self).position()
                &&& final(self).halted() == old(self).halted()
            },
            !old(self).halted() && old(self).position() < old(self).source_seq().len() ==> {
                &&& final(self).position() == old(self).position() + 1
                &&& match r {
                    Some(out) => result_model(out) == expected_at(
                        old(self).source_seq(),
                        old(self).position(),
                    ),
                    None => false,
                }
                &&& (final(self).halted() <==> old(self).source_seq()[old(self).position()] is Err)
            },
    {
        if self.halted || self.pos >= self.source.len() {
            return None;
        }
        let i = self.pos;
        self.pos = i + 1;
        match &self.source[i] {
            Result::Err(e) => {
                self.halted = true;
                Some(Result::Err(*e))
            },
            Result::Ok(t) => {
                let tok = duplicate_token(t);
                let out = match tok {
                    Token::String(name) => {
                        let next_is_left_paren = i + 1 < self.source.len() && (match &self.source[i
                            + 1] {
                            Result::Ok(Token::LeftParen) => true,
                            _ => false,
                        });
                        let next_is_double_colon = i + 1 < self.source.len() && (match &self
                            .source[i + 1] {
                            Result::Ok(Token::DoubleColon) => true,
                            _ => false,
                        });
                        if next_is_left_paren {
                            if is_node_test_str(name.as_str()) {
                                Token::NodeTest(name)
                            } else {
                                Token::Function(name)
                            }
                        } else if next_is_double_colon {
                            Token::Axis(name)
                        } else {
                            Token::String(name)
                        }
                    },
                    other => other,
                };
                Some(Result::Ok(out))
            },
        }
    }
}

/// How many tokens the stream yields from position `i` on: everything up to
/// and including the first error.
pub open spec fn emitted_len(s: Seq<TokenResult>, i: int) -> int
    decreases s.len() - i,
{
    if i < 0 || i >= s.len() {
        0
    } else if s[i] is Err {
        1
    } else {
        1 + emitted_len(s, i + 1)
    }
}

proof fn lemma_emitted_prefix(s: Seq<TokenResult>, i: int)
    requires
        0 <= i <= s.len(),
        forall|j: int| 0 <= j < i ==> !(#[trigger] s[j] is Err),
    ensures
        emitted_len(s, 0) == i + emitted_len(s, i),
    decreases i,
{
    if i > 0 {
        lemma_emitted_prefix(s, i - 1);
    }
}

/// Disambiguates a whole stream: one output per input, in order, each
/// resolved against its lookahead, stopping after the first lexical error.
#[verifier::loop_isolation(false)]
pub fn disambiguate(tokens: Vec<TokenResult>) -> (r: Vec<TokenResult>)
    ensures
        r@.len() == emitted_len(tokens@, 0),
        forall|i: int|
            0 <= i < r@.len() ==> result_model(#[trigger] r@[i]) == expected_at(tokens@, i),
{
    let ghost src = tokens@;
    let n: usize = tokens.len();
    let mut disambig = XPathTokenDisambiguator::new(tokens);
    let mut out: Vec<TokenResult> = Vec::new();
    let mut going: bool = true;
    while going
        invariant
            disambig.source_seq() == src,
            n == src.len(),
            0 <= disambig.position() <= n,
            forall|i: int|
                0 <= i < out@.len() ==> result_model(#[trigger] out@[i]) == expected_at(src, i),
            !disambig.halted() ==> {
                &&& out@.len() == disambig.position()
                &&& forall|j: int| 0 <= j < disambig.position() ==> !(#[trigger] src[j] is Err)
            },
            disambig.halted() ==> out@.len() == emitted_len(src, 0),
            !going ==> out@.len() == emitted_len(src, 0),
        decreases n - disambig.position() + (if going {
            1int
        } else {
            0int
        }),
    {
        let ghost pos = disambig.position();
        let ghost was_halted = disambig.halted();
        match disambig.next() {
            Some(t) => {
                proof {
                    lemma_emitted_prefix(src, pos);
                }
                out.push(t);
            },
            None => {
                proof {
                    if !was_halted {
                        lemma_emitted_prefix(src, pos);
                    }
                }
                going = false;
            },
        }
    }
    out
}

} // verus!
