use rust_chess::code::lexer::{lex_classified, lexer, Lexer, LexerError};
use rust_chess::code::parser::{AbstractSyntaxTree, Parser};
use rust_chess::code::token::{Assign, Logical, Operator, Statement, Symbol, Token, TypeName, TypeValue};

fn id(s: &str) -> Token {
    Token::TypeValue(TypeValue::Identifier(s.to_string()))
}

#[test]
fn let_statement_tokens() {
    assert_eq!(
        lexer("let : i32 x = 5 ;"),
        Ok(vec![
            Token::Statement(Statement::Let),
            Token::Symbol(Symbol::Colon),
            Token::TypeName(TypeName::I32),
            id("x"),
            Token::Assign(Assign::Assign),
            Token::TypeValue(TypeValue::I32(5)),
            Token::Symbol(Symbol::Semicolon),
        ])
    );
}

#[test]
fn two_character_symbols() {
    assert_eq!(
        lexer("a -> b :: c == d != e;"),
        Ok(vec![
            id("a"),
            Token::Symbol(Symbol::Arrow),
            id("b"),
            Token::Symbol(Symbol::DoubleColon),
            id("c"),
            Token::Logical(Logical::Equals),
            id("d"),
            Token::Logical(Logical::NotEquals),
            id("e"),
            Token::Symbol(Symbol::Semicolon),
        ])
    );
    assert_eq!(lexer("x+=1"), Ok(vec![Token::Assign(Assign::AddAssign), Token::TypeValue(TypeValue::I32(1))]));
}

#[test]
fn single_symbols_and_whitespace() {
    assert_eq!(
        lexer("( ) { }\t[ ]\n+ - * / % < > ! . ,"),
        Ok(vec![
            Token::Symbol(Symbol::LeftParen),
            Token::Symbol(Symbol::RightParen),
            Token::Symbol(Symbol::LeftBrace),
            Token::Symbol(Symbol::RightBrace),
            Token::Symbol(Symbol::LeftBracket),
            Token::Symbol(Symbol::RightBracket),
            Token::Operator(Operator::Add),
            Token::Operator(Operator::Subtract),
            Token::Operator(Operator::Multiply),
            Token::Operator(Operator::Divide),
            Token::Operator(Operator::Remainder),
            Token::Logical(Logical::LessThan),
            Token::Logical(Logical::GreaterThan),
            Token::Logical(Logical::Not),
            Token::Symbol(Symbol::Dot),
            Token::Symbol(Symbol::Comma),
        ])
    );
}

#[test]
fn quoted_strings_keep_their_text() {
    assert_eq!(
        lexer("\"hi there\" ;"),
        Ok(vec![Token::TypeValue(TypeValue::QuotedString("hi there".to_string())), Token::Symbol(Symbol::Semicolon)])
    );
    assert_eq!(lexer("\"open"), Ok(vec![]));
}

#[test]
fn word_at_the_end_is_dropped() {
    assert_eq!(lexer("a -> b"), Ok(vec![id("a"), Token::Symbol(Symbol::Arrow)]));
    assert_eq!(lexer("12"), Ok(vec![Token::TypeValue(TypeValue::I32(12))]));
}

#[test]
fn keywords_and_names() {
    assert_eq!(
        lexer("fn start_1 if else while for return print println import none bool String i8 i16 ;"),
        Ok(vec![
            Token::Statement(Statement::Function),
            id("start_1"),
            Token::Statement(Statement::If),
            Token::Statement(Statement::Else),
            Token::Statement(Statement::While),
            Token::Statement(Statement::For),
            Token::Statement(Statement::Return),
            Token::Statement(Statement::Print),
            Token::Statement(Statement::Println),
            Token::Statement(Statement::Import),
            Token::TypeName(TypeName::Nothing),
            Token::TypeName(TypeName::Bool),
            Token::TypeName(TypeName::QuotedString),
            Token::TypeName(TypeName::I8),
            Token::TypeName(TypeName::I16),
            Token::Symbol(Symbol::Semicolon),
        ])
    );
}

#[test]
fn lexing_errors() {
    assert_eq!(lexer("1a;"), Err(LexerError::InvalidIdentifierNum("1a".to_string())));
    assert_eq!(lexer("a @"), Err(LexerError::UnknownCharacter("@".to_string())));
    assert_eq!(lexer("_x;"), Err(LexerError::UnknownCharacter("_".to_string())));
    assert_eq!(lexer("99999999999;"), Err(LexerError::InvalidNumber("99999999999".to_string())));
    assert!(Lexer::new("let").is_ok());
    assert!(Lexer::new("#").is_err());
}

#[test]
fn lexed_source_parses() {
    let tokens = lexer("let : i32 total = 0 ; total += 5 ; return total ;").unwrap();
    let parsed = Parser::new(tokens).parse_statements(Token::TypeName(TypeName::Nothing));
    assert_eq!(
        parsed,
        Ok(vec![
            AbstractSyntaxTree::Let {
                name: "total".to_string(),
                declared_type: Some("i32".to_string()),
                value: Token::TypeValue(TypeValue::I32(0)),
            },
            AbstractSyntaxTree::AddAssign { l_var: id("total"), r_var: Token::TypeValue(TypeValue::I32(5)) },
            AbstractSyntaxTree::Return { value: id("total") },
        ])
    );
}

#[test]
fn lexing_follows_the_given_classes() {
    let classes = vec![(true, false), (false, false), (false, false), (false, false), (false, true), (false, false)];
    assert_eq!(
        lex_classified("x = 5;", &classes),
        Ok(vec![id("x"), Token::Assign(Assign::Assign), Token::TypeValue(TypeValue::I32(5)), Token::Symbol(Symbol::Semicolon)])
    );
    let classes = vec![(true, false), (true, false), (true, false), (false, false)];
    assert_eq!(lex_classified("a@b;", &classes), Ok(vec![id("a@b"), Token::Symbol(Symbol::Semicolon)]));
}
