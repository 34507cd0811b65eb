//! The lexical token model, and what each token means in front of its
//! successor.

use vstd::prelude::*;
use vstd::string::StrSliceExecFns;

verus! {

/// A lexical token of the expression language.  A `String` token is an
/// ambiguous raw name; the disambiguator resolves it into `Function`,
/// `NodeTest` or `Axis` when the token after it calls for that.
#[derive(Clone, Debug)]
pub enum Token {
    String(String),
    LeftParen,
    RightParen,
    DoubleColon,
    NodeTest(String),
    Function(String),
    Axis(String),
    Number(u64),
    Literal(String),
    Slash,
    DoubleSlash,
    LeftBracket,
    RightBracket,
    At,
    PlusSign,
    MinusSign,
}

/// The mathematical content of a `Token`.
pub enum TokenModel {
    String(Seq<char>),
    LeftParen,
    RightParen,
    DoubleColon,
    NodeTest(Seq<char>),
    Function(Seq<char>),
    Axis(Seq<char>),
    Number(u64),
    Literal(Seq<char>),
    Slash,
    DoubleSlash,
    LeftBracket,
    RightBracket,
    At,
    PlusSign,
    MinusSign,
}

impl View for Token {
    type V = TokenModel;

    open spec fn view(&self) -> TokenModel {
        match *self {
            Token::String(ref s) => TokenModel::String(s@),
            Token::LeftParen => TokenModel::LeftParen,
            Token::RightParen => TokenModel::RightParen,
            Token::DoubleColon => TokenModel::DoubleColon,
            Token::NodeTest(ref s) => TokenModel::NodeTest(s@),
            Token::Function(ref s) => TokenModel::Function(s@),
            Token::Axis(ref s) => TokenModel::Axis(s@),
            Token::Number(n) => TokenModel::Number(n),
            Token::Literal(ref s) => TokenModel::Literal(s@),
            Token::Slash => TokenModel::Slash,
            Token::DoubleSlash => TokenModel::DoubleSlash,
            Token::LeftBracket => TokenModel::LeftBracket,
            Token::RightBracket => TokenModel::RightBracket,
            Token::At => TokenModel::At,
            Token::PlusSign => TokenModel::PlusSign,
            Token::MinusSign => TokenModel::MinusSign,
        }
    }
}

/// A lexical error in the underlying token stream.
#[derive(Clone, Copy, Debug, PartialEq, Eq, Structural)]
pub enum TokenError {
    UnterminatedLiteral,
    UnrecognizedCharacter,
}

/// One step of tokenization: a token, or the lexical error that ended it.
pub type TokenResult = Result<Token, TokenError>;

impl PartialEq for Token {
    fn eq(&self, other: &Self) -> (r: bool) {
        match (self, other) {
            (Token::String(a), Token::String(b)) => <String as PartialEq>::eq(a, b),
            (Token::LeftParen, Token::LeftParen) => true,
            (Token::RightParen, Token::RightParen) => true,
            (Token::DoubleColon, Token::DoubleColon) => true,
            (Token::NodeTest(a), Token::NodeTest(b)) => <String as PartialEq>::eq(a, b),
            (Token::Function(a), Token::Function(b)) => <String as PartialEq>::eq(a, b),
            (Token::Axis(a), Token::Axis(b)) => <String as PartialEq>::eq(a, b),
            (Token::Number(a), Token::Number(b)) => *a == *b,
            (Token::Literal(a), Token::Literal(b)) => <String as PartialEq>::eq(a, b),
            (Token::Slash, Token::Slash) => true,
            (Token::DoubleSlash, Token::DoubleSlash) => true,
            (Token::LeftBracket, Token::LeftBracket) => true,
            (Token::RightBracket, Token::RightBracket) => true,
            (Token::At, Token::At) => true,
            (Token::PlusSign, Token::PlusSign) => true,
            (Token::MinusSign, Token::MinusSign) => true,
            _ => false,
        }
    }
}

impl Eq for Token {

}

impl vstd::std_specs::cmp::PartialEqSpecImpl for Token {
    open spec fn obeys_eq_spec() -> bool {
        true
    }

    open spec fn eq_spec(&self, other: &Self) -> bool {
        self@ == other@
    }
}

/// An element-for-element copy of a token.
pub fn duplicate_token(t: &Token) -> (r: Token)
    ensures
        r@ == t@,
{
    match t {
        Token::String(s) => Token::String(s.clone()),
        Token::LeftParen => Token::LeftParen,
        Token::RightParen => Token::RightParen,
        Token::DoubleColon => Token::DoubleColon,
        Token::NodeTest(s) => Token::NodeTest(s.clone()),
        Token::Function(s) => Token::Function(s.clone()),
        Token::Axis(s) => Token::Axis(s.clone()),
        Token::Number(n) => Token::Number(*n),
        Token::Literal(s) => Token::Literal(s.clone()),
        Token::Slash => Token::Slash,
        Token::DoubleSlash => Token::DoubleSlash,
        Token::LeftBracket => Token::LeftBracket,
        Token::RightBracket => Token::RightBracket,
        Token::At => Token::At,
        Token::PlusSign => Token::PlusSign,
        Token::MinusSign => Token::MinusSign,
    }
}

/// Character-for-character string equality.
pub fn str_eq(a: &str, b: &str) -> (r: bool)
    ensures
        r == (a@ == b@),
{
    let la: usize = a.unicode_len();
    let lb: usize = b.unicode_len();
    if la != lb {
        proof {
            assert(a@.len() != b@.len());
        }
        return false;
    }
    let mut i: usize = 0;
    while i < la
        invariant
            i <= la,
            la == a@.len() && la == b@.len(),
            forall|k: int| 0 <= k < i ==> a@[k] == b@[k],
        decreases la - i,
    {
        if a.get_char(i) != b.get_char(i) {
            return false;
        }
        i = i + 1;
    }
    proof {
        assert(a@ =~= b@);
    }
    true
}

/// The four reserved node-type-test names.
pub open spec fn is_node_test_name(s: Seq<char>) -> bool {
    s == "comment"@ || s == "text"@ || s == "processing-instruction"@ || s == "node"@
}

pub fn is_node_test_str(s: &str) -> (r: bool)
    ensures
        r == is_node_test_name(s@),
{
    str_eq(s, "comment") || str_eq(s, "text") || str_eq(s, "processing-instruction") || str_eq(
        s,
        "node",
    )
}

/// What a raw token stands for in front of the given following token: a name
/// before a left parenthesis is a node-type test when reserved and a function
/// name otherwise, a name before a double colon is an axis name, and every
/// other token stands for itself.
pub open spec fn resolve(t: TokenModel, next: Option<TokenModel>) -> TokenModel {
    match t {
        TokenModel::String(name) => match next {
            Some(TokenModel::LeftParen) => if is_node_test_name(name) {
                TokenModel::NodeTest(name)
            } else {
                TokenModel::Function(name)
            },
            Some(TokenModel::DoubleColon) => TokenModel::Axis(name),
            _ => t,
        },
        _ => t,
    }
}

/// A token whose successor is neither a left parenthesis nor a double colon
/// passes through disambiguation unchanged.
pub proof fn lemma_disambiguation_identity(t: TokenModel, next: Option<TokenModel>)
    requires
        next != Some(TokenModel::LeftParen),
        next != Some(TokenModel::DoubleColon),
    ensures
        resolve(t, next) == t,
{
}

/// A token that is not a raw name passes through disambiguation unchanged,
/// whatever follows it.
pub proof fn lemma_non_name_unchanged(t: TokenModel, next: Option<TokenModel>)
    requires
        !(t is String),
    ensures
        resolve(t, next) == t,
{
}

} // verus!
