use vstd::prelude::*;

verus! {

/// A token of the scripting language.
#[derive(Debug, PartialEq, Eq, Hash)]
pub enum Token {
    Operator(Operator),
    Logical(Logical),
    Assign(Assign),
    Statement(Statement),
    TypeName(TypeName),
    TypeValue(TypeValue),
    Symbol(Symbol),
    EndOfFile,
}

/// An arithmetic or bitwise operator.
#[derive(Debug, Clone, Copy, PartialEq, Eq, Hash, Structural)]
pub enum Operator {
    Add,
    Subtract,
    Multiply,
    Divide,
    Remainder,
    ShiftLeft,
    ShiftRight,
    BitAnd,
    BitOr,
    BitXor,
}

/// A comparison or boolean operator.
#[derive(Debug, Clone, Copy, PartialEq, Eq, Hash, Structural)]
pub enum Logical {
    Equals,
    NotEquals,
    LessThan,
    LessThanEquals,
    GreaterThan,
    GreaterThanEquals,
    And,
    Or,
    Not,
}

/// An assignment, plain or combined with an operator.
#[derive(Debug, Clone, Copy, PartialEq, Eq, Hash, Structural)]
pub enum Assign {
    Assign,
    AddAssign,
    SubAssign,
    MulAssign,
    DivAssign,
    RemAssign,
    BitAndAssign,
    BitOrAssign,
    BitXorAssign,
}

/// A keyword that starts a statement.
#[derive(Debug, Clone, Copy, PartialEq, Eq, Hash, Structural)]
pub enum Statement {
    Let,
    Return,
    Print,
    Println,
    Break,
    If,
    Else,
    ElseIf,
    For,
    While,
    Function,
    Import,
}

/// The name of a value type.
#[derive(Debug, Clone, Copy, PartialEq, Eq, Hash, Structural)]
pub enum TypeName {
    Nothing,
    I8,
    I16,
    I32,
    I64,
    U8,
    U16,
    U32,
    U64,
    QuotedString,
    Bool,
    Float,
}

/// A value: a literal, an identifier or a function call.
#[derive(Debug, PartialEq, Eq, Hash)]
pub enum TypeValue {
    Nothing,
    I8(i8),
    I16(i16),
    I32(i32),
    I64(i64),
    U8(u8),
    U16(u16),
    U32(u32),
    U64(u64),
    QuotedString(String),
    Bool(bool),
    Identifier(String),
    FunctionCall(String, Vec<Token>),
}

/// A punctuation symbol.
#[derive(Debug, Clone, Copy, PartialEq, Eq, Hash, Structural)]
pub enum Symbol {
    Dot,
    Comment,
    Arrow,
    Comma,
    Colon,
    DoubleColon,
    Semicolon,
    LeftParen,
    RightParen,
    LeftBrace,
    RightBrace,
    LeftBracket,
    RightBracket,
    LeftAngleBracket,
    RightAngleBracket,
}

impl Token {
    /// Whether the token is an identifier.
    pub fn is_identifier(&self) -> (r: bool)
        ensures
            r == (self matches Token::TypeValue(TypeValue::Identifier(_))),
    {
        match self {
            Token::TypeValue(TypeValue::Identifier(_)) => true,
            _ => false,
        }
    }
}

/// The text of an operator token.
pub open spec fn operator_text(x: Operator) -> Seq<char> {
    match x {
        Operator::Add => "+"@,
        Operator::Subtract => "-"@,
        Operator::Multiply => "*"@,
        Operator::Divide => "/"@,
        Operator::Remainder => "%"@,
        Operator::ShiftLeft => "<<"@,
        Operator::ShiftRight => ">>"@,
        Operator::BitAnd => "&"@,
        Operator::BitOr => "|"@,
        Operator::BitXor => "^"@,
    }
}

impl Operator {
    /// Returns a string representation of the operator.
    pub fn as_str(&self) -> (r: &'static str)
        ensures
            r@ == operator_text(*self),
    {
        match self {
            Operator::Add => "+",
            Operator::Subtract => "-",
            Operator::Multiply => "*",
            Operator::Divide => "/",
            Operator::Remainder => "%",
            Operator::ShiftLeft => "<<",
            Operator::ShiftRight => ">>",
            Operator::BitAnd => "&",
            Operator::BitOr => "|",
            Operator::BitXor => "^",
        }
    }
}

/// The text of a logical token.
pub open spec fn logical_text(x: Logical) -> Seq<char> {
    match x {
        Logical::Equals => "=="@,
        Logical::NotEquals => "!="@,
        Logical::LessThan => "<"@,
        Logical::LessThanEquals => "<="@,
        Logical::GreaterThan => ">"@,
        Logical::GreaterThanEquals => ">="@,
        Logical::And => "&&"@,
        Logical::Or => "||"@,
        Logical::Not => "!"@,
    }
}

impl Logical {
    /// Returns a string representation of the operator.
    pub fn as_str(&self) -> (r: &'static str)
        ensures
            r@ == logical_text(*self),
    {
        match self {
            Logical::Equals => "==",
            Logical::NotEquals => "!=",
            Logical::LessThan => "<",
            Logical::LessThanEquals => "<=",
            Logical::GreaterThan => ">",
            Logical::GreaterThanEquals => ">=",
            Logical::And => "&&",
            Logical::Or => "||",
            Logical::Not => "!",
        }
    }
}

/// The text of an assign token.
pub open spec fn assign_text(x: Assign) -> Seq<char> {
    match x {
        Assign::Assign => "="@,
        Assign::AddAssign => "+="@,
        Assign::SubAssign => "-="@,
        Assign::MulAssign => "*="@,
        Assign::DivAssign => "/="@,
        Assign::RemAssign => "%="@,
        Assign::BitAndAssign => "&="@,
        Assign::BitOrAssign => "|="@,
        Assign::BitXorAssign => "^="@,
    }
}

impl Assign {
    /// Returns a string representation of the operator.
    pub fn as_str(&self) -> (r: &'static str)
        ensures
            r@ == assign_text(*self),
    {
        match self {
            Assign::Assign => "=",
            Assign::AddAssign => "+=",
            Assign::SubAssign => "-=",
            Assign::MulAssign => "*=",
            Assign::DivAssign => "/=",
            Assign::RemAssign => "%=",
            Assign::BitAndAssign => "&=",
            Assign::BitOrAssign => "|=",
            Assign::BitXorAssign => "^=",
        }
    }
}

/// The text of a statement token.
pub open spec fn statement_text(x: Statement) -> Seq<char> {
    match x {
        Statement::Let => "let"@,
        Statement::Return => "return"@,
        Statement::Print => "print"@,
        Statement::Println => "println"@,
        Statement::Break => "break"@,
        Statement::If => "if"@,
        Statement::Else => "else"@,
        Statement::ElseIf => "else if"@,
        Statement::For => "for"@,
        Statement::While => "while"@,
        Statement::Function => "fn"@,
        Statement::Import => "import"@,
    }
}

impl Statement {
    /// Returns a string representation of the statement.
    pub fn as_str(&self) -> (r: &'static str)
        ensures
            r@ == statement_text(*self),
    {
        match self {
            Statement::Let => "let",
            Statement::Return => "return",
            Statement::Print => "print",
            Statement::Println => "println",
            Statement::Break => "break",
            Statement::If => "if",
            Statement::Else => "else",
            Statement::ElseIf => "else if",
            Statement::For => "for",
            Statement::While => "while",
            Statement::Function => "fn",
            Statement::Import => "import",
        }
    }
}

/// The text of a type name token.
pub open spec fn type_name_text(x: TypeName) -> Seq<char> {
    match x {
        TypeName::Nothing => "none"@,
        TypeName::I8 => "i8"@,
        TypeName::I16 => "i16"@,
        TypeName::I32 => "i32"@,
        TypeName::I64 => "i64"@,
        TypeName::U8 => "u8"@,
        TypeName::U16 => "u16"@,
        TypeName::U32 => "u32"@,
        TypeName::U64 => "u64"@,
        TypeName::QuotedString => "string"@,
        TypeName::Bool => "bool"@,
        TypeName::Float => "float"@,
    }
}

impl TypeName {
    /// Returns a string representation of the type.
    pub fn as_str(&self) -> (r: &'static str)
        ensures
            r@ == type_name_text(*self),
    {
        match self {
            TypeName::Nothing => "none",
            TypeName::I8 => "i8",
            TypeName::I16 => "i16",
            TypeName::I32 => "i32",
            TypeName::I64 => "i64",
            TypeName::U8 => "u8",
            TypeName::U16 => "u16",
            TypeName::U32 => "u32",
            TypeName::U64 => "u64",
            TypeName::QuotedString => "string",
            TypeName::Bool => "bool",
            TypeName::Float => "float",
        }
    }
}

/// The text of a symbol token.
pub open spec fn symbol_text(x: Symbol) -> Seq<char> {
    match x {
        Symbol::Dot => "."@,
        Symbol::Comment => "//"@,
        Symbol::Arrow => "->"@,
        Symbol::Comma => ","@,
        Symbol::Colon => ":"@,
        Symbol::DoubleColon => "::"@,
        Symbol::Semicolon => ";"@,
        Symbol::LeftParen => "("@,
        Symbol::RightParen => ")"@,
        Symbol::LeftBrace => "{"@,
        Symbol::RightBrace => "}"@,
        Symbol::LeftBracket => "["@,
        Symbol::RightBracket => "]"@,
        Symbol::LeftAngleBracket => "<"@,
        Symbol::RightAngleBracket => ">"@,
    }
}

impl Symbol {
    /// Returns a string representation of the symbol.
    pub fn as_str(&self) -> (r: &'static str)
        ensures
            r@ == symbol_text(*self),
    {
        match self {
            Symbol::Dot => ".",
            Symbol::Comment => "//",
            Symbol::Arrow => "->",
            Symbol::Comma => ",",
            Symbol::Colon => ":",
            Symbol::DoubleColon => "::",
            Symbol::Semicolon => ";",
            Symbol::LeftParen => "(",
            Symbol::RightParen => ")",
            Symbol::LeftBrace => "{",
            Symbol::RightBrace => "}",
            Symbol::LeftBracket => "[",
            Symbol::RightBracket => "]",
            Symbol::LeftAngleBracket => "<",
            Symbol::RightAngleBracket => ">",
        }
    }
}


/// The character of a decimal digit.
pub open spec fn digit_char(d: int) -> char {
    if d == 0 {
        '0'
    } else if d == 1 {
        '1'
    } else if d == 2 {
        '2'
    } else if d == 3 {
        '3'
    } else if d == 4 {
        '4'
    } else if d == 5 {
        '5'
    } else if d == 6 {
        '6'
    } else if d == 7 {
        '7'
    } else if d == 8 {
        '8'
    } else {
        '9'
    }
}

/// The decimal digits of `n`, without leading zeros.
pub open spec fn digits_text(n: nat) -> Seq<char>
    decreases n,
{
    if n < 10 {
        seq![digit_char(n as int)]
    } else {
        digits_text(n / 10).push(digit_char((n % 10) as int))
    }
}

/// The decimal form of `n`: its digits, after a '-' when it is negative.
pub open spec fn decimal_text(n: int) -> Seq<char> {
    if n < 0 {
        seq!['-'] + digits_text((-n) as nat)
    } else {
        digits_text(n as nat)
    }
}

/// Relies on std's `Display` for `i128` (through `to_string`): the decimal
/// digits without leading zeros, after a '-' for a negative number.
#[verifier::external_body]
fn decimal(n: i128) -> (r: String)
    ensures
        r@ == decimal_text(n as int),
{
    n.to_string()
}

/// The text of a token, as it is shown.
pub open spec fn token_text(t: Token) -> Seq<char>
    decreases t,
{
    match t {
        Token::Operator(o) => operator_text(o),
        Token::Logical(l) => logical_text(l),
        Token::Assign(a) => assign_text(a),
        Token::Statement(s) => statement_text(s),
        Token::TypeName(n) => type_name_text(n),
        Token::TypeValue(v) => match v {
            TypeValue::Nothing => "None"@,
            TypeValue::I8(n) => decimal_text(n as int),
            TypeValue::I16(n) => decimal_text(n as int),
            TypeValue::I32(n) => decimal_text(n as int),
            TypeValue::I64(n) => decimal_text(n as int),
            TypeValue::U8(n) => decimal_text(n as int),
            TypeValue::U16(n) => decimal_text(n as int),
            TypeValue::U32(n) => decimal_text(n as int),
            TypeValue::U64(n) => decimal_text(n as int),
            TypeValue::QuotedString(s) => s@,
            TypeValue::Bool(b) => if b {
                "true"@
            } else {
                "false"@
            },
            TypeValue::Identifier(s) => s@,
            TypeValue::FunctionCall(s, args) => s@ + "("@ + args_text(args@) + ")"@,
        },
        Token::Symbol(s) => symbol_text(s),
        Token::EndOfFile => "EndOfFile"@,
    }
}

/// The texts of `args`, separated by ", ".
pub open spec fn args_text(args: Seq<Token>) -> Seq<char>
    decreases args,
{
    if args.len() == 0 {
        seq![]
    } else if args.len() == 1 {
        token_text(args[0])
    } else {
        args_text(args.subrange(0, args.len() - 1)) + ", "@ + token_text(args[args.len() - 1])
    }
}

impl Token {
    /// The token's text, as it is shown.
    pub fn text(&self) -> (r: String)
        ensures
            r@ == token_text(*self),
        decreases self,
    {
        match self {
            Token::Operator(o) => String::from_str(o.as_str()),
            Token::Logical(l) => String::from_str(l.as_str()),
            Token::Assign(a) => String::from_str(a.as_str()),
            Token::Statement(s) => String::from_str(s.as_str()),
            Token::TypeName(n) => String::from_str(n.as_str()),
            Token::TypeValue(v) => match v {
                TypeValue::Nothing => String::from_str("None"),
                TypeValue::I8(n) => decimal(*n as i128),
                TypeValue::I16(n) => decimal(*n as i128),
                TypeValue::I32(n) => decimal(*n as i128),
                TypeValue::I64(n) => decimal(*n as i128),
                TypeValue::U8(n) => decimal(*n as i128),
                TypeValue::U16(n) => decimal(*n as i128),
                TypeValue::U32(n) => decimal(*n as i128),
                TypeValue::U64(n) => decimal(*n as i128),
                TypeValue::QuotedString(s) => s.clone(),
                TypeValue::Bool(b) => if *b {
                    String::from_str("true")
                } else {
                    String::from_str("false")
                },
                TypeValue::Identifier(s) => s.clone(),
                TypeValue::FunctionCall(s, args) => {
                    let mut out = s.clone().concat("(");
                    let mut i: usize = 0;
                    while i < args.len()
                        invariant
                            *self == Token::TypeValue(*v),
                            *v == TypeValue::FunctionCall(*s, *args),
                            i <= args@.len(),
                            out@ == s@ + "("@ + args_text(args@.subrange(0, i as int)),
                        decreases args@.len() - i,
                    {
                        assert(args@.subrange(0, i + 1).subrange(0, i as int) =~= args@.subrange(0, i as int));
                        if i > 0 {
                            out.append(", ");
                        }
                        proof {
                            assert(decreases_to!(*self => (*self)->TypeValue_0));
                            assert(decreases_to!((*self)->TypeValue_0 => (*self)->TypeValue_0->FunctionCall_1));
                            assert(decreases_to!(*args => args@));
                            assert(decreases_to!(args@ => args@[i as int]));
                            assert(decreases_to!(*self => args@[i as int]));
                        }
                        let t = args[i].text();
                        out.append(t.as_str());
                        i = i + 1;
                    }
                    assert(args@.subrange(0, args@.len() as int) =~= args@);
                    out.concat(")")
                },
            },
            Token::Symbol(s) => String::from_str(s.as_str()),
            Token::EndOfFile => String::from_str("EndOfFile"),
        }
    }
}

} // verus!
