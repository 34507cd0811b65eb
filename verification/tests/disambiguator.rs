use xpath::disambiguator::XPathTokenDisambiguator;
use xpath::token::{Token, TokenError, TokenResult};

fn all_tokens_raw(mut disambig: XPathTokenDisambiguator) -> Result<Vec<Token>, TokenError> {
    let mut tokens = Vec::new();
    while let Some(r) = disambig.next() {
        match r {
            Ok(token) => tokens.push(token),
            Err(e) => return Err(e),
        }
    }
    Ok(tokens)
}

fn all_tokens(disambig: XPathTokenDisambiguator) -> Vec<Token> {
    match all_tokens_raw(disambig) {
        Ok(toks) => toks,
        Err(e) => panic!("{:?}", e),
    }
}

#[test]
fn disambiguates_node_test_functions() {
    for name in ["comment", "text", "processing-instruction", "node"].iter() {
        let input_tokens: Vec<TokenResult> = vec![
            Ok(Token::String(name.to_string())),
            Ok(Token::LeftParen),
        ];

        let disambig = XPathTokenDisambiguator::new(input_tokens);

        assert_eq!(all_tokens(disambig), vec![Token::NodeTest(name.to_string()), Token::LeftParen]);
    }
}

#[test]
fn name_followed_by_left_paren_becomes_function_name() {
    let input_tokens: Vec<TokenResult> = vec![
        Ok(Token::String("test".to_string())),
        Ok(Token::LeftParen),
    ];

    let disambig = XPathTokenDisambiguator::new(input_tokens);

    assert_eq!(all_tokens(disambig), vec![Token::Function("test".to_string()), Token::LeftParen]);
}

#[test]
fn name_followed_by_double_colon_becomes_axis_name() {
    let input_tokens: Vec<TokenResult> = vec![
        Ok(Token::String("test".to_string())),
        Ok(Token::DoubleColon),
    ];

    let disambig = XPathTokenDisambiguator::new(input_tokens);

    assert_eq!(all_tokens(disambig), vec![Token::Axis("test".to_string()), Token::DoubleColon]);
}

#[test]
fn tokens_without_the_trigger_lookahead_pass_through_unchanged() {
    let input_tokens: Vec<TokenResult> = vec![
        Ok(Token::String("test".to_string())),
        Ok(Token::String("other".to_string())),
        Ok(Token::Number(4.0f64.to_bits())),
        Ok(Token::RightParen),
        Ok(Token::String("tail".to_string())),
    ];

    let disambig = XPathTokenDisambiguator::new(input_tokens);

    assert_eq!(
        all_tokens(disambig),
        vec![
            Token::String("test".to_string()),
            Token::String("other".to_string()),
            Token::Number(4.0f64.to_bits()),
            Token::RightParen,
            Token::String("tail".to_string()),
        ]
    );
}

#[test]
fn disambiguate_resolves_a_whole_stream_in_order() {
    let input_tokens: Vec<TokenResult> = vec![
        Ok(Token::Slash),
        Ok(Token::String("child".to_string())),
        Ok(Token::DoubleColon),
        Ok(Token::String("text".to_string())),
        Ok(Token::LeftParen),
        Ok(Token::RightParen),
    ];

    let out = xpath::disambiguator::disambiguate(input_tokens);

    assert_eq!(
        out,
        vec![
            Ok(Token::Slash),
            Ok(Token::Axis("child".to_string())),
            Ok(Token::DoubleColon),
            Ok(Token::NodeTest("text".to_string())),
            Ok(Token::LeftParen),
            Ok(Token::RightParen),
        ]
    );
}

#[test]
fn a_lexical_error_is_passed_on_and_halts_the_stream() {
    let input_tokens: Vec<TokenResult> = vec![
        Ok(Token::String("test".to_string())),
        Err(TokenError::UnterminatedLiteral),
        Ok(Token::LeftParen),
    ];

    let mut disambig = XPathTokenDisambiguator::new(input_tokens);

    assert_eq!(disambig.next(), Some(Ok(Token::String("test".to_string()))));
    assert_eq!(disambig.next(), Some(Err(TokenError::UnterminatedLiteral)));
    assert_eq!(disambig.next(), None);
    assert_eq!(disambig.next(), None);
}
