use rust_chess::code::interpreter::Interpreter;
use rust_chess::code::parser::AbstractSyntaxTree;
use rust_chess::code::token::{Assign, Logical, Operator, Statement, Symbol, Token, TypeName, TypeValue};
use rust_chess::file_scan::FileFormat;

fn function(name: &str) -> AbstractSyntaxTree {
    AbstractSyntaxTree::Function {
        name: name.to_string(),
        args: vec![(Token::TypeName(TypeName::I32), Token::TypeValue(TypeValue::Identifier("x".to_string())))],
        statements: vec![AbstractSyntaxTree::Return { value: Token::TypeValue(TypeValue::I32(1)) }],
        variables: vec![],
        return_type: Token::TypeName(TypeName::I32),
        return_value: Token::TypeValue(TypeValue::Nothing),
    }
}

#[test]
fn token_texts() {
    assert_eq!(Operator::ShiftLeft.as_str(), "<<");
    assert_eq!(Operator::Remainder.as_str(), "%");
    assert_eq!(Logical::GreaterThanEquals.as_str(), ">=");
    assert_eq!(Assign::BitXorAssign.as_str(), "^=");
    assert_eq!(Statement::ElseIf.as_str(), "else if");
    assert_eq!(Statement::Function.as_str(), "fn");
    assert_eq!(TypeName::QuotedString.as_str(), "string");
    assert_eq!(TypeName::Nothing.as_str(), "none");
    assert_eq!(Symbol::DoubleColon.as_str(), "::");
    assert_eq!(Symbol::Comment.as_str(), "//");
}

#[test]
fn identifiers_are_recognised() {
    assert!(Token::TypeValue(TypeValue::Identifier("a".to_string())).is_identifier());
    assert!(!Token::TypeValue(TypeValue::QuotedString("a".to_string())).is_identifier());
    assert!(!Token::Symbol(Symbol::Dot).is_identifier());
    assert!(!Token::EndOfFile.is_identifier());
}

#[test]
fn function_node_accessors() {
    let mut f = function("start");
    assert!(f.is_function());
    assert!(!AbstractSyntaxTree::Import { name: "m".to_string() }.is_function());
    assert_eq!(f.function_get_name(), "start");
    assert_eq!(f.function_get_statements().len(), 1);
    assert_eq!(f.function_get_args_format()[0].0, Token::TypeName(TypeName::I32));
    assert_eq!(f.function_get_return_value(), &Token::TypeValue(TypeValue::Nothing));
    f.function_set_return_value(Token::TypeValue(TypeValue::Bool(true)));
    assert_eq!(f.function_get_return_value(), &Token::TypeValue(TypeValue::Bool(true)));
    assert_eq!(f.function_get_name(), "start");
}

#[test]
fn function_variables_are_replaced_or_added() {
    let mut f = function("main");
    f.function_insert_variable("a".to_string(), Token::TypeValue(TypeValue::I32(1)));
    f.function_insert_variable("b".to_string(), Token::TypeValue(TypeValue::I32(2)));
    f.function_insert_variable("a".to_string(), Token::TypeValue(TypeValue::I32(3)));
    assert_eq!(f.function_get_variable("a".to_string()), &Token::TypeValue(TypeValue::I32(3)));
    assert_eq!(f.function_get_variable("b".to_string()), &Token::TypeValue(TypeValue::I32(2)));
    match &f {
        AbstractSyntaxTree::Function { variables, .. } => assert_eq!(variables.len(), 2),
        _ => panic!("expected a function"),
    }
}

#[test]
fn piece_file_fields() {
    let f = FileFormat::new("knight".to_string(), "N".to_string(), 3, "jump()".to_string());
    assert_eq!(f.get_name(), "knight");
    assert_eq!(f.get_short_name(), "N");
    assert_eq!(*f.get_point(), 3);
    assert_eq!(f.get_code(), "jump()");
}

#[test]
fn interpreter_registers_functions_in_order() {
    let mut interpreter = Interpreter::new();
    assert_eq!(interpreter.function_id(), 0);
    let program = vec![
        function("helper"),
        AbstractSyntaxTree::Import { name: "lib".to_string() },
        function("start"),
        function("other"),
    ];
    interpreter.pre_run(program);
    assert_eq!(interpreter.function_id(), 3);
    assert_eq!(interpreter.start_function_id(), 1);
}
