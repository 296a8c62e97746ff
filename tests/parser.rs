use rust_chess::code::parser::{AbstractSyntaxTree, AbstractSyntaxTreeParseError, Parser};
use rust_chess::code::token::{Assign, Logical, Statement, Symbol, Token, TypeName, TypeValue};

fn id(s: &str) -> Token {
    Token::TypeValue(TypeValue::Identifier(s.to_string()))
}

fn num(n: i32) -> Token {
    Token::TypeValue(TypeValue::I32(n))
}

fn sym(s: Symbol) -> Token {
    Token::Symbol(s)
}

fn parse(tokens: Vec<Token>) -> Result<Vec<AbstractSyntaxTree>, AbstractSyntaxTreeParseError> {
    Parser::new(tokens).parse_statements(Token::TypeName(TypeName::Nothing))
}

fn expected(what: &str) -> AbstractSyntaxTreeParseError {
    AbstractSyntaxTreeParseError::ExpectedOther { token: what.to_string() }
}

#[test]
fn let_statement_with_a_value() {
    let tokens = vec![
        Token::Statement(Statement::Let),
        sym(Symbol::Colon),
        Token::TypeName(TypeName::I32),
        id("x"),
        Token::Assign(Assign::Assign),
        num(5),
        sym(Symbol::Semicolon),
    ];
    assert_eq!(
        parse(tokens),
        Ok(vec![AbstractSyntaxTree::Let { name: "x".to_string(), declared_type: Some("i32".to_string()), value: num(5) }])
    );
}

#[test]
fn let_statement_with_a_call() {
    let tokens = vec![
        Token::Statement(Statement::Let),
        sym(Symbol::Colon),
        Token::TypeName(TypeName::I32),
        id("y"),
        Token::Assign(Assign::Assign),
        id("f"),
        sym(Symbol::LeftParen),
        id("a"),
        sym(Symbol::Comma),
        num(2),
        sym(Symbol::RightParen),
        sym(Symbol::Semicolon),
    ];
    assert_eq!(
        parse(tokens),
        Ok(vec![AbstractSyntaxTree::Let {
            name: "y".to_string(),
            declared_type: Some("i32".to_string()),
            value: Token::TypeValue(TypeValue::FunctionCall("f".to_string(), vec![id("a"), num(2)])),
        }])
    );
}

#[test]
fn let_without_colon_is_an_error() {
    let tokens = vec![Token::Statement(Statement::Let), id("x")];
    assert_eq!(parse(tokens), Err(expected(":")));
    let tokens = vec![Token::Statement(Statement::Let), sym(Symbol::Colon), Token::TypeName(TypeName::I32), num(1)];
    assert_eq!(parse(tokens), Err(expected("Variable Name")));
}

#[test]
fn call_argument_after_a_trailing_comma_is_an_error() {
    let tokens = vec![
        Token::Statement(Statement::Let),
        sym(Symbol::Colon),
        Token::TypeName(TypeName::I32),
        id("y"),
        Token::Assign(Assign::Assign),
        id("f"),
        sym(Symbol::LeftParen),
        id("a"),
        sym(Symbol::Comma),
        sym(Symbol::RightParen),
        sym(Symbol::Semicolon),
    ];
    assert_eq!(parse(tokens), Err(expected("Argument")));
}

#[test]
fn assignments_of_each_kind() {
    let tokens = vec![
        id("x"),
        Token::Assign(Assign::Assign),
        num(2),
        sym(Symbol::Semicolon),
        id("x"),
        Token::Assign(Assign::AddAssign),
        num(1),
        sym(Symbol::Semicolon),
        id("x"),
        Token::Assign(Assign::RemAssign),
        num(3),
        sym(Symbol::Semicolon),
    ];
    assert_eq!(
        parse(tokens),
        Ok(vec![
            AbstractSyntaxTree::Assign { l_var: id("x"), r_var: num(2) },
            AbstractSyntaxTree::AddAssign { l_var: id("x"), r_var: num(1) },
            AbstractSyntaxTree::RemAssign { l_var: id("x"), r_var: num(3) },
        ])
    );
}

#[test]
fn call_statement_closes_twice() {
    let tokens = vec![
        id("print"),
        sym(Symbol::LeftParen),
        id("a"),
        sym(Symbol::Comma),
        id("b"),
        sym(Symbol::RightParen),
        sym(Symbol::RightParen),
        sym(Symbol::Semicolon),
    ];
    assert_eq!(
        parse(tokens),
        Ok(vec![AbstractSyntaxTree::FunctionCall { name: id("print"), args: vec![id("a"), id("b")] }])
    );
    let tokens = vec![id("print"), sym(Symbol::LeftParen), id("a"), sym(Symbol::RightParen), sym(Symbol::Semicolon)];
    assert_eq!(parse(tokens), Err(expected(")")));
}

#[test]
fn variable_without_an_operator_is_unknown() {
    let tokens = vec![id("x"), num(1)];
    assert_eq!(parse(tokens), Err(AbstractSyntaxTreeParseError::Unknown));
}

#[test]
fn if_and_for_blocks_nest() {
    let tokens = vec![
        Token::Statement(Statement::For),
        sym(Symbol::LeftParen),
        id("i"),
        sym(Symbol::Arrow),
        id("n"),
        sym(Symbol::DoubleColon),
        num(1),
        sym(Symbol::RightParen),
        sym(Symbol::LeftBrace),
        Token::Statement(Statement::If),
        sym(Symbol::LeftParen),
        id("i"),
        Token::Logical(Logical::LessThan),
        num(3),
        sym(Symbol::RightParen),
        sym(Symbol::LeftBrace),
        Token::Statement(Statement::Return),
        id("i"),
        sym(Symbol::Semicolon),
        sym(Symbol::RightBrace),
        sym(Symbol::RightBrace),
    ];
    let inner = AbstractSyntaxTree::If {
        l_var: id("i"),
        logic: Token::Logical(Logical::LessThan),
        r_var: num(3),
        statements: vec![AbstractSyntaxTree::Return { value: id("i") }],
    };
    assert_eq!(
        parse(tokens),
        Ok(vec![AbstractSyntaxTree::For { start: id("i"), end: id("n"), value: num(1), statements: vec![inner] }])
    );
}

#[test]
fn empty_return_and_stop_at_other_tokens() {
    let tokens = vec![Token::Statement(Statement::Return), sym(Symbol::Semicolon), sym(Symbol::Dot), id("x")];
    assert_eq!(parse(tokens), Ok(vec![AbstractSyntaxTree::Return { value: Token::TypeValue(TypeValue::Nothing) }]));
    assert_eq!(parse(vec![]), Ok(vec![]));
    let tokens = vec![Token::Statement(Statement::If), sym(Symbol::LeftParen), id("a")];
    assert_eq!(parse(tokens), Err(expected("Logic")));
}

#[test]
fn token_text_as_shown() {
    assert_eq!(num(-42).text(), "-42");
    assert_eq!(Token::TypeValue(TypeValue::U64(18446744073709551615)).text(), "18446744073709551615");
    assert_eq!(Token::TypeValue(TypeValue::Bool(false)).text(), "false");
    assert_eq!(Token::TypeValue(TypeValue::Nothing).text(), "None");
    assert_eq!(Token::EndOfFile.text(), "EndOfFile");
    assert_eq!(Token::Logical(Logical::NotEquals).text(), "!=");
    let call = Token::TypeValue(TypeValue::FunctionCall("f".to_string(), vec![num(1), id("a"), num(7)]));
    assert_eq!(call.text(), "f(1, a, 7)");
    assert_eq!(Token::TypeValue(TypeValue::FunctionCall("g".to_string(), vec![])).text(), "g()");
}
