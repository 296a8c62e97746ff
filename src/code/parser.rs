use vstd::prelude::*;
use crate::code::token::{token_text, Assign, Statement, Symbol, Token, TypeName, TypeValue};

verus! {

/// A node of a parsed script.
#[derive(Debug, PartialEq, Eq)]
#[allow(inconsistent_fields)]
pub enum AbstractSyntaxTree {
    Token(Token),
    Import { name: String },
    Function {
        name: String,
        args: Vec<(Token, Token)>,
        statements: Vec<AbstractSyntaxTree>,
        variables: Vec<(String, Token)>,
        return_type: Token,
        return_value: Token,
    },
    Let { name: String, declared_type: Option<String>, value: Token },
    Assign { l_var: Token, r_var: Token },
    AddAssign { l_var: Token, r_var: Token },
    SubAssign { l_var: Token, r_var: Token },
    MulAssign { l_var: Token, r_var: Token },
    DivAssign { l_var: Token, r_var: Token },
    RemAssign { l_var: Token, r_var: Token },
    If { l_var: Token, logic: Token, r_var: Token, statements: Vec<AbstractSyntaxTree> },
    ElseIf { condition: Vec<Token>, statements: Vec<AbstractSyntaxTree> },
    Else { statements: Vec<AbstractSyntaxTree> },
    For { start: Token, end: Token, value: Token, statements: Vec<AbstractSyntaxTree> },
    FunctionCall { name: Token, args: Vec<Token> },
    Return { value: Token },
}

/// The index of the first variable named `key`, or -1.
pub open spec fn var_index(vars: Seq<(String, Token)>, key: Seq<char>) -> int
    decreases vars.len(),
{
    if vars.len() == 0 {
        -1
    } else {
        let i = var_index(vars.drop_last(), key);
        if i >= 0 {
            i
        } else if vars.last().0@ == key {
            vars.len() - 1
        } else {
            -1
        }
    }
}

/// The index of the first variable named `key` in `vars`.
fn find_variable(vars: &Vec<(String, Token)>, key: &String) -> (r: Option<usize>)
    ensures
        r matches Some(i) ==> i == var_index(vars@, key@) && i < vars@.len(),
        r is None <==> var_index(vars@, key@) == -1,
{
    let mut i: usize = 0;
    while i < vars.len()
        invariant
            i <= vars@.len(),
            var_index(vars@.subrange(0, i as int), key@) == -1,
        decreases vars@.len() - i,
    {
        assert(vars@.subrange(0, i + 1).drop_last() =~= vars@.subrange(0, i as int));
        if vars[i].0 == *key {
            proof {
                lemma_var_index_prefix(vars@, key@, i + 1);
            }
            return Some(i);
        }
        i = i + 1;
    }
    assert(vars@.subrange(0, vars@.len() as int) =~= vars@);
    None
}

/// Once a prefix holds a match, the first match stays where it is.
proof fn lemma_var_index_prefix(vars: Seq<(String, Token)>, key: Seq<char>, n: int)
    requires
        0 < n <= vars.len(),
        var_index(vars.subrange(0, n), key) >= 0,
    ensures
        var_index(vars, key) == var_index(vars.subrange(0, n), key),
    decreases vars.len() - n,
{
    if n < vars.len() {
        assert(vars.subrange(0, n + 1).drop_last() =~= vars.subrange(0, n));
        lemma_var_index_prefix(vars, key, n + 1);
    } else {
        assert(vars.subrange(0, n) =~= vars);
    }
}

/// What a parse error is.
pub enum ParseErrorView {
    UnknownToken(Seq<char>),
    ExpectedOther(Seq<char>),
    EndOfFile,
    Unknown,
}

/// An error met while parsing: what was expected, or an unknown form.
#[derive(Debug, PartialEq, Eq)]
pub enum AbstractSyntaxTreeParseError {
    UnknownToken { token: String },
    ExpectedOther { token: String },
    EndOfFile,
    Unknown,
}

impl View for AbstractSyntaxTreeParseError {
    type V = ParseErrorView;

    open spec fn view(&self) -> ParseErrorView {
        match self {
            AbstractSyntaxTreeParseError::UnknownToken { token } => ParseErrorView::UnknownToken(token@),
            AbstractSyntaxTreeParseError::ExpectedOther { token } => ParseErrorView::ExpectedOther(token@),
            AbstractSyntaxTreeParseError::EndOfFile => ParseErrorView::EndOfFile,
            AbstractSyntaxTreeParseError::Unknown => ParseErrorView::Unknown,
        }
    }
}

/// The value of a `let`: a token, or a call of a function (by its text) on
/// argument tokens.
pub enum LetValue {
    Plain(Token),
    Call(Seq<char>, Seq<Token>),
}

/// What a parsed statement is.
#[allow(inconsistent_fields)]
pub enum StatementView {
    Let { name: Seq<char>, declared_type: Seq<char>, value: LetValue },
    Assign { l_var: Token, r_var: Token },
    AddAssign { l_var: Token, r_var: Token },
    SubAssign { l_var: Token, r_var: Token },
    MulAssign { l_var: Token, r_var: Token },
    DivAssign { l_var: Token, r_var: Token },
    RemAssign { l_var: Token, r_var: Token },
    If { l_var: Token, logic: Token, r_var: Token, statements: Seq<StatementView> },
    For { start: Token, end: Token, value: Token, statements: Seq<StatementView> },
    FunctionCall { name: Token, args: Seq<Token> },
    Return { value: Token },
}

/// The node `a` is the statement `s`.
pub open spec fn node_is(a: AbstractSyntaxTree, s: StatementView) -> bool
    decreases s,
{
    match s {
        StatementView::Let { name, declared_type, value } => match a {
            AbstractSyntaxTree::Let { name: n, declared_type: Some(t), value: v } => {
                &&& n@ == name
                &&& t@ == declared_type
                &&& match value {
                    LetValue::Plain(tok) => v == tok,
                    LetValue::Call(f, args) => match v {
                        Token::TypeValue(TypeValue::FunctionCall(g, xs)) => g@ == f && xs@ == args,
                        _ => false,
                    },
                }
            },
            _ => false,
        },
        StatementView::Assign { l_var, r_var } => a == AbstractSyntaxTree::Assign { l_var, r_var },
        StatementView::AddAssign { l_var, r_var } => a == AbstractSyntaxTree::AddAssign { l_var, r_var },
        StatementView::SubAssign { l_var, r_var } => a == AbstractSyntaxTree::SubAssign { l_var, r_var },
        StatementView::MulAssign { l_var, r_var } => a == AbstractSyntaxTree::MulAssign { l_var, r_var },
        StatementView::DivAssign { l_var, r_var } => a == AbstractSyntaxTree::DivAssign { l_var, r_var },
        StatementView::RemAssign { l_var, r_var } => a == AbstractSyntaxTree::RemAssign { l_var, r_var },
        StatementView::If { l_var, logic, r_var, statements } => match a {
            AbstractSyntaxTree::If { l_var: l, logic: g, r_var: r, statements: st } => l == l_var && g == logic && r
                == r_var && nodes_are(st@, statements),
            _ => false,
        },
        StatementView::For { start, end, value, statements } => match a {
            AbstractSyntaxTree::For { start: b, end: e, value: v, statements: st } => b == start && e == end && v
                == value && nodes_are(st@, statements),
            _ => false,
        },
        StatementView::FunctionCall { name, args } => match a {
            AbstractSyntaxTree::FunctionCall { name: n, args: xs } => n == name && xs@ == args,
            _ => false,
        },
        StatementView::Return { value } => a == AbstractSyntaxTree::Return { value },
    }
}

/// The nodes `a` are the statements `s`, one for one.
pub open spec fn nodes_are(a: Seq<AbstractSyntaxTree>, s: Seq<StatementView>) -> bool
    decreases s,
{
    a.len() == s.len() && forall|i: int| 0 <= i < s.len() ==> node_is(a[i], #[trigger] s[i])
}

/// The tokens after the next one is consumed (none left stays none left).
pub open spec fn tail(ts: Seq<Token>) -> Seq<Token> {
    if ts.len() > 0 {
        ts.drop_first()
    } else {
        ts
    }
}

/// The next token is `t`.
pub open spec fn at(ts: Seq<Token>, t: Token) -> bool {
    ts.len() > 0 && ts[0] == t
}

/// The error for a missing token `t`.
pub open spec fn missing(t: Token) -> ParseErrorView {
    ParseErrorView::ExpectedOther(token_text(t))
}

/// The error for a missing part of a statement.
pub open spec fn expected(what: Seq<char>) -> ParseErrorView {
    ParseErrorView::ExpectedOther(what)
}

/// A parse of one statement and the tokens left after it.
pub type Parsed = (Result<StatementView, ParseErrorView>, Seq<Token>);

/// The arguments of a call in a `let`, after its "(": tokens separated by
/// commas up to ")", which is left in place.
pub open spec fn let_args(ts: Seq<Token>, acc: Seq<Token>, after_comma: bool, after_open: bool) -> (
    Result<Seq<Token>, ParseErrorView>,
    Seq<Token>,
)
    decreases ts.len(),
{
    if ts.len() == 0 {
        (Ok(acc), ts)
    } else if ts[0] == Token::Symbol(Symbol::RightParen) {
        if after_comma {
            (Err(expected("Argument"@)), ts)
        } else {
            (Ok(acc), ts)
        }
    } else if ts[0] == Token::Symbol(Symbol::Comma) {
        let_args(tail(ts), acc, true, after_open)
    } else if after_comma || after_open {
        let_args(tail(ts), acc.push(ts[0]), false, false)
    } else {
        (Err(expected("Argument"@)), ts)
    }
}

/// `let : <type> <name> = <value> ;`, or with `( <args> )` after the value
/// for a call.
pub open spec fn let_spec(ts: Seq<Token>) -> Parsed {
    let ts = tail(ts);
    if !at(ts, Token::Symbol(Symbol::Colon)) {
        (Err(missing(Token::Symbol(Symbol::Colon))), ts)
    } else {
        let ts = tail(ts);
        if ts.len() == 0 {
            (Err(expected("Type"@)), ts)
        } else {
            let ty = ts[0];
            let ts = tail(ts);
            if ts.len() == 0 || !(ts[0] matches Token::TypeValue(TypeValue::Identifier(_))) {
                (Err(expected("Variable Name"@)), ts)
            } else {
                let var = ts[0];
                let ts = tail(ts);
                if !at(ts, Token::Assign(Assign::Assign)) {
                    (Err(missing(Token::Assign(Assign::Assign))), ts)
                } else {
                    let ts = tail(ts);
                    if ts.len() == 0 {
                        (Err(expected("Value"@)), ts)
                    } else {
                        let value = ts[0];
                        let ts = tail(ts);
                        if at(ts, Token::Symbol(Symbol::LeftParen)) {
                            let (args, ts) = let_args(tail(ts), seq![], false, true);
                            match args {
                                Err(e) => (Err(e), ts),
                                Ok(args) => if !at(ts, Token::Symbol(Symbol::RightParen)) {
                                    (Err(missing(Token::Symbol(Symbol::RightParen))), ts)
                                } else if !at(tail(ts), Token::Symbol(Symbol::Semicolon)) {
                                    (Err(missing(Token::Symbol(Symbol::Semicolon))), tail(ts))
                                } else {
                                    (
                                        Ok(
                                            StatementView::Let {
                                                name: token_text(var),
                                                declared_type: token_text(ty),
                                                value: LetValue::Call(token_text(value), args),
                                            },
                                        ),
                                        tail(tail(ts)),
                                    )
                                },
                            }
                        } else if !at(ts, Token::Symbol(Symbol::Semicolon)) {
                            (Err(missing(Token::Symbol(Symbol::Semicolon))), ts)
                        } else {
                            (
                                Ok(
                                    StatementView::Let {
                                        name: token_text(var),
                                        declared_type: token_text(ty),
                                        value: LetValue::Plain(value),
                                    },
                                ),
                                tail(ts),
                            )
                        }
                    }
                }
            }
        }
    }
}

/// The statement that assignment `op` makes.
pub open spec fn assign_node(op: Assign, l_var: Token, r_var: Token) -> StatementView {
    match op {
        Assign::AddAssign => StatementView::AddAssign { l_var, r_var },
        Assign::SubAssign => StatementView::SubAssign { l_var, r_var },
        Assign::MulAssign => StatementView::MulAssign { l_var, r_var },
        Assign::DivAssign => StatementView::DivAssign { l_var, r_var },
        Assign::RemAssign => StatementView::RemAssign { l_var, r_var },
        _ => StatementView::Assign { l_var, r_var },
    }
}

/// `<op> <value> ;` after the variable of an assignment.
pub open spec fn assign_spec(ts: Seq<Token>, op: Assign, variable: Token) -> Parsed {
    if !at(ts, Token::Assign(op)) {
        (Err(missing(Token::Assign(op))), ts)
    } else {
        let ts = tail(ts);
        if ts.len() == 0 {
            (Err(expected("Value"@)), ts)
        } else {
            let value = ts[0];
            let ts = tail(ts);
            if !at(ts, Token::Symbol(Symbol::Semicolon)) {
                (Err(missing(Token::Symbol(Symbol::Semicolon))), ts)
            } else {
                (Ok(assign_node(op, variable, value)), tail(ts))
            }
        }
    }
}

/// The arguments of a call statement, after its "(": tokens up to and
/// including ")", commas dropped; a comma right before ")" is an error.
pub open spec fn call_args(ts: Seq<Token>, acc: Seq<Token>) -> (Result<Seq<Token>, ParseErrorView>, Seq<Token>)
    decreases ts.len(),
{
    if ts.len() == 0 {
        (Err(expected("Argument"@)), ts)
    } else if ts[0] == Token::Symbol(Symbol::RightParen) {
        (Ok(acc), tail(ts))
    } else if ts[0] == Token::Symbol(Symbol::Comma) {
        if at(tail(ts), Token::Symbol(Symbol::RightParen)) {
            (Err(expected("Argument"@)), tail(ts))
        } else {
            call_args(tail(ts), acc)
        }
    } else {
        call_args(tail(ts), acc.push(ts[0]))
    }
}

/// `( <args> ) ) ;` after the name of a called function: the closing
/// parenthesis is consumed with the arguments and then expected once more.
pub open spec fn call_spec(ts: Seq<Token>, name: Token) -> Parsed {
    if !at(ts, Token::Symbol(Symbol::LeftParen)) {
        (Err(missing(Token::Symbol(Symbol::LeftParen))), ts)
    } else {
        let (args, ts) = call_args(tail(ts), seq![]);
        match args {
            Err(e) => (Err(e), ts),
            Ok(args) => if !at(ts, Token::Symbol(Symbol::RightParen)) {
                (Err(missing(Token::Symbol(Symbol::RightParen))), ts)
            } else if !at(tail(ts), Token::Symbol(Symbol::Semicolon)) {
                (Err(missing(Token::Symbol(Symbol::Semicolon))), tail(ts))
            } else {
                (Ok(StatementView::FunctionCall { name, args }), tail(tail(ts)))
            },
        }
    }
}

/// A statement that starts with a variable: an assignment or a call.
pub open spec fn identifier_spec(ts: Seq<Token>) -> Parsed {
    if ts.len() == 0 {
        (Err(expected("Variable Name"@)), ts)
    } else {
        let variable = ts[0];
        let ts = tail(ts);
        if ts.len() == 0 {
            (Err(ParseErrorView::Unknown), ts)
        } else {
            match ts[0] {
                Token::Assign(Assign::Assign) => assign_spec(ts, Assign::Assign, variable),
                Token::Assign(Assign::AddAssign) => assign_spec(ts, Assign::AddAssign, variable),
                Token::Assign(Assign::SubAssign) => assign_spec(ts, Assign::SubAssign, variable),
                Token::Assign(Assign::MulAssign) => assign_spec(ts, Assign::MulAssign, variable),
                Token::Assign(Assign::DivAssign) => assign_spec(ts, Assign::DivAssign, variable),
                Token::Assign(Assign::RemAssign) => assign_spec(ts, Assign::RemAssign, variable),
                Token::Symbol(Symbol::LeftParen) => call_spec(ts, variable),
                _ => (Err(ParseErrorView::Unknown), ts),
            }
        }
    }
}

/// `return ;` (which returns nothing) or `return <value> ;`.
pub open spec fn return_spec(ts: Seq<Token>) -> Parsed {
    let ts = tail(ts);
    if at(ts, Token::Symbol(Symbol::Semicolon)) {
        (Ok(StatementView::Return { value: Token::TypeValue(TypeValue::Nothing) }), tail(ts))
    } else if ts.len() == 0 {
        (Err(expected("Value"@)), ts)
    } else {
        let value = ts[0];
        let ts = tail(ts);
        if !at(ts, Token::Symbol(Symbol::Semicolon)) {
            (Err(missing(Token::Symbol(Symbol::Semicolon))), ts)
        } else {
            (Ok(StatementView::Return { value }), tail(ts))
        }
    }
}

/// The token starts a statement.
pub open spec fn starts_statement(t: Token) -> bool {
    t == Token::Statement(Statement::Let) || t == Token::Statement(Statement::For) || t == Token::Statement(
        Statement::If,
    ) || t == Token::Statement(Statement::Return) || t matches Token::TypeValue(TypeValue::Identifier(_))
}

/// `if ( <value> <logic> <value> ) { <statements> }`.
pub open spec fn if_spec(ts: Seq<Token>) -> Parsed
    decreases ts.len(), 0nat,
{
    let ts = tail(ts);
    if !at(ts, Token::Symbol(Symbol::LeftParen)) {
        (Err(missing(Token::Symbol(Symbol::LeftParen))), ts)
    } else {
        let ts = tail(ts);
        if ts.len() == 0 {
            (Err(expected("Value"@)), ts)
        } else {
            let l_var = ts[0];
            let ts = tail(ts);
            if ts.len() == 0 {
                (Err(expected("Logic"@)), ts)
            } else {
                let logic = ts[0];
                let ts = tail(ts);
                if ts.len() == 0 {
                    (Err(expected("Value"@)), ts)
                } else {
                    let r_var = ts[0];
                    let ts = tail(ts);
                    if !at(ts, Token::Symbol(Symbol::RightParen)) {
                        (Err(missing(Token::Symbol(Symbol::RightParen))), ts)
                    } else if !at(tail(ts), Token::Symbol(Symbol::LeftBrace)) {
                        (Err(missing(Token::Symbol(Symbol::LeftBrace))), tail(ts))
                    } else {
                        let inner = tail(tail(ts));
                        let (body, ts) = statements_spec(inner, seq![]);
                        match body {
                            Err(e) => (Err(e), ts),
                            Ok(statements) => if !at(ts, Token::Symbol(Symbol::RightBrace)) {
                                (Err(missing(Token::Symbol(Symbol::RightBrace))), ts)
                            } else {
                                (Ok(StatementView::If { l_var, logic, r_var, statements }), tail(ts))
                            },
                        }
                    }
                }
            }
        }
    }
}

/// `for ( <start> -> <end> :: <value> ) { <statements> }`.
pub open spec fn for_spec(ts: Seq<Token>) -> Parsed
    decreases ts.len(), 0nat,
{
    let ts = tail(ts);
    if !at(ts, Token::Symbol(Symbol::LeftParen)) {
        (Err(missing(Token::Symbol(Symbol::LeftParen))), ts)
    } else {
        let ts = tail(ts);
        if ts.len() == 0 {
            (Err(expected("Variable"@)), ts)
        } else {
            let start = ts[0];
            let ts = tail(ts);
            if !at(ts, Token::Symbol(Symbol::Arrow)) {
                (Err(missing(Token::Symbol(Symbol::Arrow))), ts)
            } else {
                let ts = tail(ts);
                if ts.len() == 0 {
                    (Err(expected("Variable"@)), ts)
                } else {
                    let end = ts[0];
                    let ts = tail(ts);
                    if !at(ts, Token::Symbol(Symbol::DoubleColon)) {
                        (Err(missing(Token::Symbol(Symbol::DoubleColon))), ts)
                    } else {
                        let ts = tail(ts);
                        if ts.len() == 0 {
                            (Err(expected("Value"@)), ts)
                        } else {
                            let value = ts[0];
                            let ts = tail(ts);
                            if !at(ts, Token::Symbol(Symbol::RightParen)) {
                                (Err(missing(Token::Symbol(Symbol::RightParen))), ts)
                            } else if !at(tail(ts), Token::Symbol(Symbol::LeftBrace)) {
                                (Err(missing(Token::Symbol(Symbol::LeftBrace))), tail(ts))
                            } else {
                                let inner = tail(tail(ts));
                                let (body, ts) = statements_spec(inner, seq![]);
                                match body {
                                    Err(e) => (Err(e), ts),
                                    Ok(statements) => if !at(ts, Token::Symbol(Symbol::RightBrace)) {
                                        (Err(missing(Token::Symbol(Symbol::RightBrace))), ts)
                                    } else {
                                        (Ok(StatementView::For { start, end, value, statements }), tail(ts))
                                    },
                                }
                            }
                        }
                    }
                }
            }
        }
    }
}

/// One statement, chosen by its first token.
pub open spec fn statement_spec(ts: Seq<Token>) -> Parsed
    decreases ts.len(), 1nat,
{
    if ts.len() == 0 {
        (Err(ParseErrorView::Unknown), ts)
    } else if ts[0] == Token::Statement(Statement::Let) {
        let_spec(ts)
    } else if ts[0] == Token::Statement(Statement::For) {
        for_spec(ts)
    } else if ts[0] == Token::Statement(Statement::If) {
        if_spec(ts)
    } else if ts[0] == Token::Statement(Statement::Return) {
        return_spec(ts)
    } else {
        identifier_spec(ts)
    }
}

/// Statements one after another, after those in `acc`, for as long as the
/// next token starts one; the first error ends the parse.
pub open spec fn statements_spec(ts: Seq<Token>, acc: Seq<StatementView>) -> (
    Result<Seq<StatementView>, ParseErrorView>,
    Seq<Token>,
)
    decreases ts.len(), 2nat,
{
    if ts.len() > 0 && starts_statement(ts[0]) {
        let (r, rest) = statement_spec(ts);
        match r {
            Err(e) => (Err(e), rest),
            Ok(st) => if rest.len() < ts.len() {
                statements_spec(rest, acc.push(st))
            } else {
                (Ok(acc.push(st)), rest)
            },
        }
    } else {
        (Ok(acc), ts)
    }
}

/// A parse result is the expected one: the same node, or the same error.
pub open spec fn parsed_as(
    r: Result<AbstractSyntaxTree, AbstractSyntaxTreeParseError>,
    p: Result<StatementView, ParseErrorView>,
) -> bool {
    match (r, p) {
        (Ok(a), Ok(s)) => node_is(a, s),
        (Err(e), Err(v)) => e@ == v,
        _ => false,
    }
}

/// A list parse result is the expected one.
pub open spec fn listed_as(
    r: Result<Vec<AbstractSyntaxTree>, AbstractSyntaxTreeParseError>,
    p: Result<Seq<StatementView>, ParseErrorView>,
) -> bool {
    match (r, p) {
        (Ok(a), Ok(s)) => nodes_are(a@, s),
        (Err(e), Err(v)) => e@ == v,
        _ => false,
    }
}

/// The error for a missing part of a statement.
fn expected_error(what: &str) -> (r: AbstractSyntaxTreeParseError)
    ensures
        r@ == expected(what@),
{
    AbstractSyntaxTreeParseError::ExpectedOther { token: String::from_str(what) }
}

/// A parser over a list of tokens, consumed from the front.
pub struct Parser {
    tokens: Vec<Token>,
}

impl Parser {
    /// The tokens not yet consumed, next first.
    pub closed spec fn rest(&self) -> Seq<Token> {
        Seq::new(self.tokens@.len(), |i: int| self.tokens@[self.tokens@.len() - 1 - i])
    }

    /// A parser over `tokens`.
    pub fn new(tokens: Vec<Token>) -> (r: Parser)
        ensures
            r.rest() == tokens@,
    {
        let ghost all = tokens@;
        let mut input = tokens;
        let mut stack: Vec<Token> = Vec::new();
        while input.len() > 0
            invariant
                input@ + (Parser { tokens: stack }).rest() == all,
            decreases input@.len(),
        {
            let ghost before = (Parser { tokens: stack }).rest();
            let ghost inp = input@;
            let t = input.pop().unwrap();
            stack.push(t);
            assert((Parser { tokens: stack }).rest() =~= seq![t] + before);
            assert(input@ + (Parser { tokens: stack }).rest() =~= inp + before);
        }
        assert(input@ + (Parser { tokens: stack }).rest() =~= (Parser { tokens: stack }).rest());
        Parser { tokens: stack }
    }

    /// The next token, if any.
    fn peek(&self) -> (r: Option<&Token>)
        ensures
            r matches Some(t) ==> self.rest().len() > 0 && *t == self.rest()[0],
            r is None <==> self.rest().len() == 0,
    {
        let n = self.tokens.len();
        if n == 0 {
            None
        } else {
            Some(&self.tokens[n - 1])
        }
    }

    /// Takes the next token, if any.
    fn consume(&mut self) -> (r: Option<Token>)
        ensures
            final(self).rest() == tail(old(self).rest()),
            r matches Some(t) ==> old(self).rest().len() > 0 && t == old(self).rest()[0],
            r is None <==> old(self).rest().len() == 0,
    {
        let ghost before = self.rest();
        let r = self.tokens.pop();
        assert(self.rest() =~= tail(before));
        r
    }

    /// Whether the next token is the symbol `s`.
    fn next_is_symbol(&self, s: Symbol) -> (r: bool)
        ensures
            r == at(self.rest(), Token::Symbol(s)),
    {
        match self.peek() {
            Some(Token::Symbol(t)) => *t == s,
            _ => false,
        }
    }

    /// Checks that the next token is `expected`, a symbol or an assignment.
    fn expect(&self, expected: Token) -> (r: Result<(), AbstractSyntaxTreeParseError>)
        requires
            expected is Symbol || expected is Assign,
        ensures
            r is Ok <==> at(self.rest(), expected),
            r matches Err(e) ==> e@ == missing(expected),
    {
        let ok = match (&expected, self.peek()) {
            (Token::Symbol(a), Some(Token::Symbol(b))) => *a == *b,
            (Token::Assign(a), Some(Token::Assign(b))) => *a == *b,
            _ => false,
        };
        if ok {
            Ok(())
        } else {
            Err(AbstractSyntaxTreeParseError::ExpectedOther { token: expected.text() })
        }
    }

    /// Takes the next token, or fails with `what` was expected.
    fn take(&mut self, what: &str) -> (r: Result<Token, AbstractSyntaxTreeParseError>)
        ensures
            old(self).rest().len() > 0 ==> r == Ok::<Token, AbstractSyntaxTreeParseError>(old(self).rest()[0])
                && final(self).rest() == tail(old(self).rest()),
            old(self).rest().len() == 0 ==> (r matches Err(e) && e@ == expected(what@) && final(self).rest()
                == old(self).rest()),
    {
        match self.consume() {
            Some(t) => Ok(t),
            None => Err(expected_error(what)),
        }
    }

    /// The arguments of a call in a `let`, up to the ")" that closes them.
    fn let_args(&mut self) -> (r: Result<Vec<Token>, AbstractSyntaxTreeParseError>)
        ensures
            ({
                let (p, rest) = let_args(old(self).rest(), seq![], false, true);
                &&& final(self).rest() == rest
                &&& match (r, p) {
                    (Ok(a), Ok(b)) => a@ == b,
                    (Err(e), Err(v)) => e@ == v,
                    _ => false,
                }
            }),
    {
        let ghost target = let_args(self.rest(), seq![], false, true);
        let mut args: Vec<Token> = Vec::new();
        let mut after_comma = false;
        let mut after_open = true;
        loop
            invariant
                target == let_args(old(self).rest(), seq![], false, true),
                let_args(self.rest(), args@, after_comma, after_open) == target,
            ensures
                self.rest().len() == 0 || (at(self.rest(), Token::Symbol(Symbol::RightParen)) && !after_comma),
            decreases self.rest().len(),
        {
            if self.peek().is_none() {
                break;
            }
            if self.next_is_symbol(Symbol::RightParen) {
                if after_comma {
                    return Err(expected_error("Argument"));
                }
                break;
            } else if self.next_is_symbol(Symbol::Comma) {
                self.consume();
                after_comma = true;
            } else if after_comma || after_open {
                let t = self.consume().unwrap();
                args.push(t);
                after_comma = false;
                after_open = false;
            } else {
                return Err(expected_error("Argument"));
            }
        }
        Ok(args)
    }

    /// `let : <type> <name> = <value> ;`, or a call as the value.
    fn let_parser(&mut self) -> (r: Result<AbstractSyntaxTree, AbstractSyntaxTreeParseError>)
        ensures
            parsed_as(r, let_spec(old(self).rest()).0),
            final(self).rest() == let_spec(old(self).rest()).1,
    {
        self.consume();
        if let Err(e) = self.expect(Token::Symbol(Symbol::Colon)) {
            return Err(e);
        }
        self.consume();
        let ty = match self.take("Type") {
            Ok(t) => t,
            Err(e) => return Err(e),
        };
        let is_name = match self.peek() {
            Some(t) => t.is_identifier(),
            None => false,
        };
        if !is_name {
            return Err(expected_error("Variable Name"));
        }
        let var = self.consume().unwrap();
        if let Err(e) = self.expect(Token::Assign(Assign::Assign)) {
            return Err(e);
        }
        self.consume();
        let value = match self.take("Value") {
            Ok(t) => t,
            Err(e) => return Err(e),
        };
        if self.next_is_symbol(Symbol::LeftParen) {
            self.consume();
            let args = match self.let_args() {
                Ok(a) => a,
                Err(e) => return Err(e),
            };
            if let Err(e) = self.expect(Token::Symbol(Symbol::RightParen)) {
                return Err(e);
            }
            self.consume();
            let node = AbstractSyntaxTree::Let {
                name: var.text(),
                declared_type: Some(ty.text()),
                value: Token::TypeValue(TypeValue::FunctionCall(value.text(), args)),
            };
            if let Err(e) = self.expect(Token::Symbol(Symbol::Semicolon)) {
                return Err(e);
            }
            self.consume();
            return Ok(node);
        }
        if let Err(e) = self.expect(Token::Symbol(Symbol::Semicolon)) {
            return Err(e);
        }
        self.consume();
        Ok(AbstractSyntaxTree::Let { name: var.text(), declared_type: Some(ty.text()), value })
    }
    /// `<op> <value> ;` after the variable of an assignment.
    fn assign_parser(&mut self, op: Assign, variable: Token) -> (r: Result<AbstractSyntaxTree, AbstractSyntaxTreeParseError>)
        ensures
            parsed_as(r, assign_spec(old(self).rest(), op, variable).0),
            final(self).rest() == assign_spec(old(self).rest(), op, variable).1,
    {
        if let Err(e) = self.expect(Token::Assign(op)) {
            return Err(e);
        }
        self.consume();
        let value = match self.take("Value") {
            Ok(t) => t,
            Err(e) => return Err(e),
        };
        if let Err(e) = self.expect(Token::Symbol(Symbol::Semicolon)) {
            return Err(e);
        }
        self.consume();
        Ok(
            match op {
                Assign::AddAssign => AbstractSyntaxTree::AddAssign { l_var: variable, r_var: value },
                Assign::SubAssign => AbstractSyntaxTree::SubAssign { l_var: variable, r_var: value },
                Assign::MulAssign => AbstractSyntaxTree::MulAssign { l_var: variable, r_var: value },
                Assign::DivAssign => AbstractSyntaxTree::DivAssign { l_var: variable, r_var: value },
                Assign::RemAssign => AbstractSyntaxTree::RemAssign { l_var: variable, r_var: value },
                _ => AbstractSyntaxTree::Assign { l_var: variable, r_var: value },
            },
        )
    }

    /// `( <args> ) ) ;` after the name of a called function.
    fn function_call_parser(&mut self, name: Token) -> (r: Result<AbstractSyntaxTree, AbstractSyntaxTreeParseError>)
        ensures
            parsed_as(r, call_spec(old(self).rest(), name).0),
            final(self).rest() == call_spec(old(self).rest(), name).1,
    {
        if let Err(e) = self.expect(Token::Symbol(Symbol::LeftParen)) {
            return Err(e);
        }
        self.consume();
        let ghost target = call_args(self.rest(), seq![]);
        let mut arguments: Vec<Token> = Vec::new();
        loop
            invariant_except_break
                call_args(self.rest(), arguments@) == target,
            invariant
                at(old(self).rest(), Token::Symbol(Symbol::LeftParen)),
                target == call_args(tail(old(self).rest()), seq![]),
            ensures
                target == (Ok::<Seq<Token>, ParseErrorView>(arguments@), self.rest()),
            decreases self.rest().len(),
        {
            let ghost r0 = self.rest();
            if self.peek().is_none() {
                assert(target == (Err::<Seq<Token>, ParseErrorView>(expected("Argument"@)), r0));
                return Err(expected_error("Argument"));
            }
            if self.next_is_symbol(Symbol::RightParen) {
                self.consume();
                break;
            } else if self.next_is_symbol(Symbol::Comma) {
                self.consume();
                if self.next_is_symbol(Symbol::RightParen) {
                    assert(target == (Err::<Seq<Token>, ParseErrorView>(expected("Argument"@)), self.rest()));
                    return Err(expected_error("Argument"));
                }
            } else {
                let t = self.consume().unwrap();
                arguments.push(t);
            }
        }
        if let Err(e) = self.expect(Token::Symbol(Symbol::RightParen)) {
            return Err(e);
        }
        self.consume();
        if let Err(e) = self.expect(Token::Symbol(Symbol::Semicolon)) {
            return Err(e);
        }
        self.consume();
        Ok(AbstractSyntaxTree::FunctionCall { name, args: arguments })
    }

    /// A statement that starts with a variable: an assignment or a call.
    fn identifier_parser(&mut self) -> (r: Result<AbstractSyntaxTree, AbstractSyntaxTreeParseError>)
        ensures
            parsed_as(r, identifier_spec(old(self).rest()).0),
            final(self).rest() == identifier_spec(old(self).rest()).1,
    {
        let variable = match self.take("Variable Name") {
            Ok(t) => t,
            Err(e) => return Err(e),
        };
        let op = match self.peek() {
            Some(Token::Assign(a)) => match a {
                Assign::Assign | Assign::AddAssign | Assign::SubAssign | Assign::MulAssign | Assign::DivAssign
                | Assign::RemAssign => Some(*a),
                _ => None,
            },
            _ => None,
        };
        match op {
            Some(a) => self.assign_parser(a, variable),
            None => if self.next_is_symbol(Symbol::LeftParen) {
                self.function_call_parser(variable)
            } else {
                Err(AbstractSyntaxTreeParseError::Unknown)
            },
        }
    }

    /// `return ;` or `return <value> ;`.
    fn return_parser(&mut self) -> (r: Result<AbstractSyntaxTree, AbstractSyntaxTreeParseError>)
        ensures
            parsed_as(r, return_spec(old(self).rest()).0),
            final(self).rest() == return_spec(old(self).rest()).1,
    {
        self.consume();
        if self.next_is_symbol(Symbol::Semicolon) {
            self.consume();
            return Ok(AbstractSyntaxTree::Return { value: Token::TypeValue(TypeValue::Nothing) });
        }
        let value = match self.take("Value") {
            Ok(t) => t,
            Err(e) => return Err(e),
        };
        if let Err(e) = self.expect(Token::Symbol(Symbol::Semicolon)) {
            return Err(e);
        }
        self.consume();
        Ok(AbstractSyntaxTree::Return { value })
    }

    /// `if ( <value> <logic> <value> ) { <statements> }`.
    fn if_parser(&mut self) -> (r: Result<AbstractSyntaxTree, AbstractSyntaxTreeParseError>)
        ensures
            parsed_as(r, if_spec(old(self).rest()).0),
            final(self).rest() == if_spec(old(self).rest()).1,
        decreases old(self).rest().len(), 0nat,
    {
        self.consume();
        if let Err(e) = self.expect(Token::Symbol(Symbol::LeftParen)) {
            return Err(e);
        }
        self.consume();
        let l_var = match self.take("Value") {
            Ok(t) => t,
            Err(e) => return Err(e),
        };
        let logic = match self.take("Logic") {
            Ok(t) => t,
            Err(e) => return Err(e),
        };
        let r_var = match self.take("Value") {
            Ok(t) => t,
            Err(e) => return Err(e),
        };
        if let Err(e) = self.expect(Token::Symbol(Symbol::RightParen)) {
            return Err(e);
        }
        self.consume();
        if let Err(e) = self.expect(Token::Symbol(Symbol::LeftBrace)) {
            return Err(e);
        }
        self.consume();
        let statements = match self.parse_statements(Token::TypeName(TypeName::Nothing)) {
            Ok(st) => st,
            Err(e) => return Err(e),
        };
        if let Err(e) = self.expect(Token::Symbol(Symbol::RightBrace)) {
            return Err(e);
        }
        self.consume();
        Ok(AbstractSyntaxTree::If { l_var, logic, r_var, statements })
    }

    /// `for ( <start> -> <end> :: <value> ) { <statements> }`.
    fn for_parser(&mut self) -> (r: Result<AbstractSyntaxTree, AbstractSyntaxTreeParseError>)
        ensures
            parsed_as(r, for_spec(old(self).rest()).0),
            final(self).rest() == for_spec(old(self).rest()).1,
        decreases old(self).rest().len(), 0nat,
    {
        self.consume();
        if let Err(e) = self.expect(Token::Symbol(Symbol::LeftParen)) {
            return Err(e);
        }
        self.consume();
        let start = match self.take("Variable") {
            Ok(t) => t,
            Err(e) => return Err(e),
        };
        if let Err(e) = self.expect(Token::Symbol(Symbol::Arrow)) {
            return Err(e);
        }
        self.consume();
        let end = match self.take("Variable") {
            Ok(t) => t,
            Err(e) => return Err(e),
        };
        if let Err(e) = self.expect(Token::Symbol(Symbol::DoubleColon)) {
            return Err(e);
        }
        self.consume();
        let value = match self.take("Value") {
            Ok(t) => t,
            Err(e) => return Err(e),
        };
        if let Err(e) = self.expect(Token::Symbol(Symbol::RightParen)) {
            return Err(e);
        }
        self.consume();
        if let Err(e) = self.expect(Token::Symbol(Symbol::LeftBrace)) {
            return Err(e);
        }
        self.consume();
        let statements = match self.parse_statements(Token::TypeName(TypeName::Nothing)) {
            Ok(st) => st,
            Err(e) => return Err(e),
        };
        if let Err(e) = self.expect(Token::Symbol(Symbol::RightBrace)) {
            return Err(e);
        }
        self.consume();
        Ok(AbstractSyntaxTree::For { start, end, value, statements })
    }

    /// One statement, chosen by its first token.
    fn statement_parser(&mut self) -> (r: Result<AbstractSyntaxTree, AbstractSyntaxTreeParseError>)
        ensures
            parsed_as(r, statement_spec(old(self).rest()).0),
            final(self).rest() == statement_spec(old(self).rest()).1,
        decreases old(self).rest().len(), 1nat,
    {
        let kind: u8 = match self.peek() {
            None => 0,
            Some(Token::Statement(Statement::Let)) => 1,
            Some(Token::Statement(Statement::For)) => 2,
            Some(Token::Statement(Statement::If)) => 3,
            Some(Token::Statement(Statement::Return)) => 4,
            Some(_) => 5,
        };
        if kind == 0 {
            Err(AbstractSyntaxTreeParseError::Unknown)
        } else if kind == 1 {
            self.let_parser()
        } else if kind == 2 {
            self.for_parser()
        } else if kind == 3 {
            self.if_parser()
        } else if kind == 4 {
            self.return_parser()
        } else {
            self.identifier_parser()
        }
    }

    /// Statements one after another for as long as the next token starts
    /// one: `let`, `for`, `if`, `return`, or a variable. The first error ends
    /// the parse.
    pub fn parse_statements(&mut self, _return_type: Token) -> (r: Result<
        Vec<AbstractSyntaxTree>,
        AbstractSyntaxTreeParseError,
    >)
        ensures
            listed_as(r, statements_spec(old(self).rest(), seq![]).0),
            final(self).rest() == statements_spec(old(self).rest(), seq![]).1,
        decreases old(self).rest().len(), 2nat,
    {
        let ghost target = statements_spec(self.rest(), seq![]);
        let ghost mut acc: Seq<StatementView> = seq![];
        let mut statements: Vec<AbstractSyntaxTree> = Vec::new();
        loop
            invariant
                target == statements_spec(old(self).rest(), seq![]),
                statements_spec(self.rest(), acc) == target,
                nodes_are(statements@, acc),
                self.rest().len() <= old(self).rest().len(),
            ensures
                target == (Ok::<Seq<StatementView>, ParseErrorView>(acc), self.rest()),
                nodes_are(statements@, acc),
            decreases self.rest().len(),
        {
            let starts = match self.peek() {
                Some(Token::Statement(Statement::Let)) => true,
                Some(Token::Statement(Statement::For)) => true,
                Some(Token::Statement(Statement::If)) => true,
                Some(Token::Statement(Statement::Return)) => true,
                Some(Token::TypeValue(TypeValue::Identifier(_))) => true,
                _ => false,
            };
            if !starts {
                break;
            }
            let ghost ts = self.rest();
            let before = self.tokens.len();
            let node = match self.statement_parser() {
                Ok(node) => node,
                Err(e) => return Err(e),
            };
            let ghost st = statement_spec(ts).0->Ok_0;
            proof {
                let ghost a0 = statements@;
                let ghost s0 = acc;
                assert forall|i: int| 0 <= i < s0.push(st).len() implies node_is(
                    a0.push(node)[i],
                    #[trigger] s0.push(st)[i],
                ) by {
                    if i < s0.len() {
                        assert(s0.push(st)[i] == s0[i]);
                        assert(a0.push(node)[i] == a0[i]);
                    }
                }
                acc = acc.push(st);
            }
            statements.push(node);
            if self.tokens.len() >= before {
                return Ok(statements);
            }
        }
        Ok(statements)
    }
}

impl AbstractSyntaxTree {
    /// Whether the node is a function definition.
    pub fn is_function(&self) -> (r: bool)
        ensures
            r == (self is Function),
    {
        match self {
            AbstractSyntaxTree::Function { .. } => true,
            _ => false,
        }
    }

    /// The statements of a function.
    pub fn function_get_statements(&self) -> (r: &Vec<AbstractSyntaxTree>)
        requires
            self is Function,
        ensures
            *r == self->Function_statements,
    {
        match self {
            AbstractSyntaxTree::Function { statements, .. } => statements,
            _ => {
                assert(false);
                unreached()
            },
        }
    }

    /// The argument list of a function: each argument's type and name.
    pub fn function_get_args_format(&self) -> (r: &Vec<(Token, Token)>)
        requires
            self is Function,
        ensures
            *r == self->Function_args,
    {
        match self {
            AbstractSyntaxTree::Function { args, .. } => args,
            _ => {
                assert(false);
                unreached()
            },
        }
    }

    /// The name of a function.
    pub fn function_get_name(&self) -> (r: String)
        requires
            self is Function,
        ensures
            r@ == self->Function_name@,
    {
        match self {
            AbstractSyntaxTree::Function { name, .. } => name.clone(),
            _ => {
                assert(false);
                unreached()
            },
        }
    }

    /// Sets the value a function returns.
    pub fn function_set_return_value(&mut self, value: Token)
        requires
            (*old(self)) is Function,
        ensures
            (*final(self)) is Function,
            (*final(self))->Function_return_value == value,
            (*final(self))->Function_name == (*old(self))->Function_name,
            (*final(self))->Function_args == (*old(self))->Function_args,
            (*final(self))->Function_statements == (*old(self))->Function_statements,
            (*final(self))->Function_variables == (*old(self))->Function_variables,
            (*final(self))->Function_return_type == (*old(self))->Function_return_type,
    {
        match self {
            AbstractSyntaxTree::Function { return_value, .. } => {
                *return_value = value;
            },
            _ => {},
        }
    }

    /// The value a function returns.
    pub fn function_get_return_value(&self) -> (r: &Token)
        requires
            self is Function,
        ensures
            *r == self->Function_return_value,
    {
        match self {
            AbstractSyntaxTree::Function { return_value, .. } => return_value,
            _ => {
                assert(false);
                unreached()
            },
        }
    }

    /// Sets a variable of a function: replaces the value of the first variable
    /// with that name, or adds the variable at the end.
    pub fn function_insert_variable(&mut self, var_name: String, value: Token)
        requires
            (*old(self)) is Function,
        ensures
            (*final(self)) is Function,
            (*final(self))->Function_variables@ == ({
                let vars = (*old(self))->Function_variables@;
                let i = var_index(vars, var_name@);
                if i >= 0 {
                    vars.update(i, (var_name, value))
                } else {
                    vars.push((var_name, value))
                }
            }),
            (*final(self))->Function_name == (*old(self))->Function_name,
            (*final(self))->Function_args == (*old(self))->Function_args,
            (*final(self))->Function_statements == (*old(self))->Function_statements,
            (*final(self))->Function_return_type == (*old(self))->Function_return_type,
            (*final(self))->Function_return_value == (*old(self))->Function_return_value,
    {
        match self {
            AbstractSyntaxTree::Function { variables, .. } => {
                match find_variable(variables, &var_name) {
                    Some(i) => {
                        variables[i] = (var_name, value);
                    },
                    None => {
                        variables.push((var_name, value));
                    },
                }
            },
            _ => {},
        }
    }

    /// The value of the first variable of a function named `var_name`.
    pub fn function_get_variable(&self, var_name: String) -> (r: &Token)
        requires
            self is Function,
            var_index(self->Function_variables@, var_name@) >= 0,
        ensures
            *r == self->Function_variables@[var_index(self->Function_variables@, var_name@)].1,
    {
        match self {
            AbstractSyntaxTree::Function { variables, .. } => {
                match find_variable(variables, &var_name) {
                    Some(i) => &variables[i].1,
                    None => {
                        assert(false);
                        unreached()
                    },
                }
            },
            _ => {
                assert(false);
                unreached()
            },
        }
    }
}

} // verus!
