use vstd::prelude::*;
use crate::code::token::{Assign, Logical, Operator, Statement, Symbol, Token, TypeName, TypeValue};
use crate::notation::{decimal_value, digit_value, lemma_decimal_grows, lemma_decimal_none_extends};

verus! {

/// Whether `c` has the Unicode Alphabetic property.
pub uninterp spec fn alphabetic(c: char) -> bool;

/// Whether `c` is a Unicode numeric character.
pub uninterp spec fn numeric(c: char) -> bool;

/// Relies on `char::is_alphabetic`: the Unicode Alphabetic property.
#[verifier::external_body]
fn is_alphabetic(c: char) -> (r: bool)
    ensures
        r == alphabetic(c),
{
    c.is_alphabetic()
}

/// Relies on `char::is_numeric`: the Unicode general categories Nd, Nl, No.
#[verifier::external_body]
fn is_numeric(c: char) -> (r: bool)
    ensures
        r == numeric(c),
{
    c.is_numeric()
}

/// Relies on `String::push`: appends `c` at the end.
#[verifier::external_body]
fn push_char(s: &mut String, c: char)
    ensures
        final(s)@ == old(s)@.push(c),
{
    s.push(c)
}

/// What a lexing error is.
pub enum LexErrorView {
    InvalidIdentifierChar(Seq<char>),
    InvalidIdentifierNum(Seq<char>),
    InvalidNumber(Seq<char>),
    InvalidOperator(Seq<char>),
    InvalidString(Seq<char>),
    InvalidSymbol(Seq<char>),
    InvalidToken(Seq<char>),
    UnexpectedEndOfInput,
    UnknownCharacter(Seq<char>),
    UnmatchedQuote,
}

/// An error met while lexing.
#[derive(Debug, Clone, PartialEq, Eq)]
pub enum LexerError {
    InvalidIdentifierChar(String),
    InvalidIdentifierNum(String),
    InvalidNumber(String),
    InvalidOperator(String),
    InvalidString(String),
    InvalidSymbol(String),
    InvalidToken(String),
    UnexpectedEndOfInput,
    UnknownCharacter(String),
    UnmatchedQuote,
}

impl View for LexerError {
    type V = LexErrorView;

    open spec fn view(&self) -> LexErrorView {
        match self {
            LexerError::InvalidIdentifierChar(s) => LexErrorView::InvalidIdentifierChar(s@),
            LexerError::InvalidIdentifierNum(s) => LexErrorView::InvalidIdentifierNum(s@),
            LexerError::InvalidNumber(s) => LexErrorView::InvalidNumber(s@),
            LexerError::InvalidOperator(s) => LexErrorView::InvalidOperator(s@),
            LexerError::InvalidString(s) => LexErrorView::InvalidString(s@),
            LexerError::InvalidSymbol(s) => LexErrorView::InvalidSymbol(s@),
            LexerError::InvalidToken(s) => LexErrorView::InvalidToken(s@),
            LexerError::UnexpectedEndOfInput => LexErrorView::UnexpectedEndOfInput,
            LexerError::UnknownCharacter(s) => LexErrorView::UnknownCharacter(s@),
            LexerError::UnmatchedQuote => LexErrorView::UnmatchedQuote,
        }
    }
}

/// What a lexed token is: one without text, a number, a quoted string or a
/// name.
pub enum LexToken {
    Plain(Token),
    Number(i32),
    Text(Seq<char>),
    Name(Seq<char>),
}

/// The token `t` is the lexed token `v`.
pub open spec fn token_is(t: Token, v: LexToken) -> bool {
    match v {
        LexToken::Plain(p) => t == p,
        LexToken::Number(n) => t == Token::TypeValue(TypeValue::I32(n)),
        LexToken::Text(s) => t matches Token::TypeValue(TypeValue::QuotedString(x)) && x@ == s,
        LexToken::Name(s) => t matches Token::TypeValue(TypeValue::Identifier(x)) && x@ == s,
    }
}

/// The tokens `ts` are the lexed tokens `vs`, one for one.
pub open spec fn tokens_are(ts: Seq<Token>, vs: Seq<LexToken>) -> bool {
    ts.len() == vs.len() && forall|i: int| 0 <= i < ts.len() ==> token_is(#[trigger] ts[i], vs[i])
}

/// The token a keyword stands for.
pub open spec fn keyword(word: Seq<char>) -> Option<Token> {
    if word == "let"@ {
        Some(Token::Statement(Statement::Let))
    } else if word == "fn"@ {
        Some(Token::Statement(Statement::Function))
    } else if word == "return"@ {
        Some(Token::Statement(Statement::Return))
    } else if word == "import"@ {
        Some(Token::Statement(Statement::Import))
    } else if word == "if"@ {
        Some(Token::Statement(Statement::If))
    } else if word == "else"@ {
        Some(Token::Statement(Statement::Else))
    } else if word == "while"@ {
        Some(Token::Statement(Statement::While))
    } else if word == "print"@ {
        Some(Token::Statement(Statement::Print))
    } else if word == "println"@ {
        Some(Token::Statement(Statement::Println))
    } else if word == "for"@ {
        Some(Token::Statement(Statement::For))
    } else if word == "none"@ {
        Some(Token::TypeName(TypeName::Nothing))
    } else if word == "bool"@ {
        Some(Token::TypeName(TypeName::Bool))
    } else if word == "String"@ {
        Some(Token::TypeName(TypeName::QuotedString))
    } else if word == "i8"@ {
        Some(Token::TypeName(TypeName::I8))
    } else if word == "i16"@ {
        Some(Token::TypeName(TypeName::I16))
    } else if word == "i32"@ {
        Some(Token::TypeName(TypeName::I32))
    } else {
        None
    }
}

/// A character with its classes: alphabetic, then numeric.
pub type Classed = (char, bool, bool);

/// The character is a letter or a digit in Unicode's sense (what
/// `char::is_alphanumeric` documents: alphabetic or numeric).
pub open spec fn classed_alphanumeric(x: Classed) -> bool {
    x.1 || x.2
}

/// The characters of a classified text.
pub open spec fn chars_of(s: Seq<Classed>) -> Seq<char> {
    Seq::new(s.len(), |i: int| s[i].0)
}

/// Each character of `code` with its Unicode classes.
pub open spec fn classify(code: Seq<char>) -> Seq<Classed> {
    Seq::new(code.len(), |i: int| (code[i], alphabetic(code[i]), numeric(code[i])))
}

/// Each character of `code` with the classes that `classes` gives it.
pub open spec fn with_classes(code: Seq<char>, classes: Seq<(bool, bool)>) -> Seq<Classed> {
    Seq::new(code.len(), |i: int| (code[i], classes[i].0, classes[i].1))
}

/// A name is valid when it does not start with a digit and holds only
/// letters, digits and underscores.
pub open spec fn name_check(word: Seq<Classed>) -> Result<Seq<char>, LexErrorView> {
    if word.len() > 0 && word[0].2 {
        Err(LexErrorView::InvalidIdentifierNum(chars_of(word)))
    } else if exists|i: int| 0 <= i < word.len() && !classed_alphanumeric(#[trigger] word[i]) && word[i].0 != '_' {
        Err(LexErrorView::InvalidIdentifierChar(chars_of(word)))
    } else {
        Ok(chars_of(word))
    }
}

/// The token for a finished word: a keyword, or a name.
pub open spec fn word_token(word: Seq<Classed>) -> Result<LexToken, LexErrorView> {
    match keyword(chars_of(word)) {
        Some(t) => Ok(LexToken::Plain(t)),
        None => match name_check(word) {
            Ok(w) => Ok(LexToken::Name(w)),
            Err(e) => Err(e),
        },
    }
}

/// The token for `c` followed by `next`, when the two make one.
pub open spec fn pair_token(c: char, next: Option<char>) -> Option<Token> {
    match next {
        None => None,
        Some(n) => if c == '-' && n == '>' {
            Some(Token::Symbol(Symbol::Arrow))
        } else if c == '-' && n == '=' {
            Some(Token::Assign(Assign::SubAssign))
        } else if c == '=' && n == '=' {
            Some(Token::Logical(Logical::Equals))
        } else if c == '!' && n == '=' {
            Some(Token::Logical(Logical::NotEquals))
        } else if c == '+' && n == '=' {
            Some(Token::Assign(Assign::AddAssign))
        } else if c == '*' && n == '=' {
            Some(Token::Assign(Assign::MulAssign))
        } else if c == '/' && n == '=' {
            Some(Token::Assign(Assign::DivAssign))
        } else if c == '%' && n == '=' {
            Some(Token::Assign(Assign::RemAssign))
        } else if c == ':' && n == ':' {
            Some(Token::Symbol(Symbol::DoubleColon))
        } else {
            None
        },
    }
}

/// The token for a single symbol character.
pub open spec fn single_token(c: char) -> Option<Token> {
    if c == '*' {
        Some(Token::Operator(Operator::Multiply))
    } else if c == ':' {
        Some(Token::Symbol(Symbol::Colon))
    } else if c == '.' {
        Some(Token::Symbol(Symbol::Dot))
    } else if c == '=' {
        Some(Token::Assign(Assign::Assign))
    } else if c == '-' {
        Some(Token::Operator(Operator::Subtract))
    } else if c == '(' {
        Some(Token::Symbol(Symbol::LeftParen))
    } else if c == '{' {
        Some(Token::Symbol(Symbol::LeftBrace))
    } else if c == '<' {
        Some(Token::Logical(Logical::LessThan))
    } else if c == '[' {
        Some(Token::Symbol(Symbol::LeftBracket))
    } else if c == ')' {
        Some(Token::Symbol(Symbol::RightParen))
    } else if c == '}' {
        Some(Token::Symbol(Symbol::RightBrace))
    } else if c == '>' {
        Some(Token::Logical(Logical::GreaterThan))
    } else if c == ']' {
        Some(Token::Symbol(Symbol::RightBracket))
    } else if c == '+' {
        Some(Token::Operator(Operator::Add))
    } else if c == '%' {
        Some(Token::Operator(Operator::Remainder))
    } else if c == ';' {
        Some(Token::Symbol(Symbol::Semicolon))
    } else if c == '/' {
        Some(Token::Operator(Operator::Divide))
    } else if c == ',' {
        Some(Token::Symbol(Symbol::Comma))
    } else if c == '!' {
        Some(Token::Logical(Logical::Not))
    } else {
        None
    }
}

/// Whitespace between tokens.
pub open spec fn is_space(c: char) -> bool {
    c == ' ' || c == '\n' || c == '\t' || c == '\r'
}

/// The `i32` that the ASCII digits of `s` spell, if it fits.
pub open spec fn i32_value(s: Seq<char>) -> Option<i32> {
    match decimal_value(s) {
        Some(v) => if v <= i32::MAX {
            Some(v as i32)
        } else {
            None
        },
        None => None,
    }
}

/// The lexer's state between characters: the tokens so far, the word or
/// string being read, whether the next character was already used by a
/// two-character symbol, and whether a string is open.
pub struct LexState {
    pub tokens: Seq<LexToken>,
    pub buffer: Seq<Classed>,
    pub double: bool,
    pub in_string: bool,
}

/// The state after the character at `i` of the classified text.
pub open spec fn lex_step(text: Seq<Classed>, i: int, s: LexState) -> Result<LexState, LexErrorView> {
    let x = text[i];
    let c = x.0;
    let next = if i + 1 < text.len() {
        Some(text[i + 1])
    } else {
        None
    };
    let next_char = match next {
        Some(n) => Some(n.0),
        None => None,
    };
    if c == '"' && !s.in_string {
        Ok(LexState { tokens: s.tokens, buffer: seq![], double: s.double, in_string: true })
    } else if s.in_string {
        if c == '"' {
            Ok(
                LexState {
                    tokens: s.tokens.push(LexToken::Text(chars_of(s.buffer))),
                    buffer: seq![],
                    double: s.double,
                    in_string: false,
                },
            )
        } else {
            Ok(LexState { tokens: s.tokens, buffer: s.buffer.push(x), double: s.double, in_string: true })
        }
    } else if classed_alphanumeric(x) || (c == '_' && s.buffer.len() > 0) {
        let b = s.buffer.push(x);
        let ends = match next {
            None => true,
            Some(n) => !classed_alphanumeric(n),
        };
        if ends && forall|k: int| 0 <= k < b.len() ==> (#[trigger] b[k]).2 {
            match i32_value(chars_of(b)) {
                Some(n) => Ok(
                    LexState {
                        tokens: s.tokens.push(LexToken::Number(n)),
                        buffer: seq![],
                        double: s.double,
                        in_string: false,
                    },
                ),
                None => Err(LexErrorView::InvalidNumber(chars_of(b))),
            }
        } else {
            Ok(LexState { tokens: s.tokens, buffer: b, double: s.double, in_string: false })
        }
    } else if s.double {
        Ok(LexState { tokens: s.tokens, buffer: s.buffer, double: false, in_string: false })
    } else if pair_token(c, next_char) is Some {
        Ok(
            LexState {
                tokens: s.tokens.push(LexToken::Plain(pair_token(c, next_char)->Some_0)),
                buffer: seq![],
                double: true,
                in_string: false,
            },
        )
    } else {
        let flushed: Result<Seq<LexToken>, LexErrorView> = if s.buffer.len() > 0 {
            match word_token(s.buffer) {
                Ok(t) => Ok(s.tokens.push(t)),
                Err(e) => Err(e),
            }
        } else {
            Ok(s.tokens)
        };
        match flushed {
            Err(e) => Err(e),
            Ok(toks) => if is_space(c) {
                Ok(LexState { tokens: toks, buffer: seq![], double: false, in_string: false })
            } else {
                match single_token(c) {
                    Some(t) => Ok(LexState { tokens: toks.push(LexToken::Plain(t)), buffer: seq![], double: false, in_string: false }),
                    None => Err(LexErrorView::UnknownCharacter(seq![c])),
                }
            },
        }
    }
}

/// The tokens of the classified text from the character at `i` on, from
/// state `s`; what is left unfinished at the end (a word, an open string) is
/// dropped.
pub open spec fn lex_from(text: Seq<Classed>, i: nat, s: LexState) -> Result<Seq<LexToken>, LexErrorView>
    decreases text.len() - i,
{
    if i >= text.len() {
        Ok(s.tokens)
    } else {
        match lex_step(text, i as int, s) {
            Err(e) => Err(e),
            Ok(s2) => lex_from(text, i + 1, s2),
        }
    }
}

/// The tokens of a classified text.
pub open spec fn lex_spec(text: Seq<Classed>) -> Result<Seq<LexToken>, LexErrorView> {
    lex_from(text, 0, LexState { tokens: seq![], buffer: seq![], double: false, in_string: false })
}


/// A lexing result is the expected one: the same tokens, or the same error.
pub open spec fn lexed_as(r: Result<Vec<Token>, LexerError>, p: Result<Seq<LexToken>, LexErrorView>) -> bool {
    match (r, p) {
        (Ok(ts), Ok(vs)) => tokens_are(ts@, vs),
        (Err(e), Err(v)) => e@ == v,
        _ => false,
    }
}

/// The `i32` that the ASCII digits of `s` spell, if it fits.
fn i32_of(s: &String) -> (r: Option<i32>)
    ensures
        r == i32_value(s@),
{
    let t = s.as_str();
    let len = t.unicode_len();
    if len == 0 {
        return None;
    }
    let bound: u128 = i32::MAX as u128;
    let mut acc: u128 = 0;
    let mut i: usize = 0;
    while i < len
        invariant
            len == t@.len(),
            t@ == s@,
            0 < len,
            i <= len,
            bound == i32::MAX as u128,
            i > 0 ==> decimal_value(t@.subrange(0, i as int)) == Some(acc as nat),
            i == 0 ==> acc == 0,
            acc <= bound,
        decreases len - i,
    {
        let c = t.get_char(i);
        assert(t@.subrange(0, i + 1).drop_last() =~= t@.subrange(0, i as int));
        assert(t@.subrange(0, i + 1).last() == c);
        if c < '0' || c > '9' {
            proof {
                lemma_decimal_none_extends(t@, (i + 1) as int);
            }
            return None;
        }
        let d = (c as u32 - '0' as u32) as u128;
        assert(digit_value(c) == Some(d as nat));
        let next: u128 = acc * 10 + d;
        assert(decimal_value(t@.subrange(0, i + 1)) == Some(next as nat));
        if next > bound {
            proof {
                lemma_decimal_grows(t@, (i + 1) as int, bound as nat);
            }
            return None;
        }
        acc = next;
        i = i + 1;
    }
    assert(t@.subrange(0, len as int) =~= t@);
    Some(acc as i32)
}

/// Checks a name, given the classes of its characters: it may not start with
/// a digit, and holds only letters, digits and underscores.
fn identifier_parser(buffer: String, classes: &Vec<(bool, bool)>) -> (r: Result<String, LexerError>)
    requires
        classes@.len() == buffer@.len(),
    ensures
        match (r, name_check(with_classes(buffer@, classes@))) {
            (Ok(s), Ok(w)) => s@ == w,
            (Err(e), Err(v)) => e@ == v,
            _ => false,
        },
{
    let ghost word = with_classes(buffer@, classes@);
    assert(chars_of(word) =~= buffer@);
    let t = buffer.as_str();
    let len = classes.len();
    if len > 0 && classes[0].1 {
        return Err(LexerError::InvalidIdentifierNum(buffer));
    }
    let mut i: usize = 0;
    while i < len
        invariant
            len == t@.len(),
            len == classes@.len(),
            t@ == buffer@,
            word == with_classes(buffer@, classes@),
            chars_of(word) == buffer@,
            i <= len,
            !(len > 0 && word[0].2),
            forall|k: int| 0 <= k < i ==> classed_alphanumeric(#[trigger] word[k]) || word[k].0 == '_',
        decreases len - i,
    {
        let c = t.get_char(i);
        if !(classes[i].0 || classes[i].1) && c != '_' {
            assert(!classed_alphanumeric(word[i as int]) && word[i as int].0 != '_');
            return Err(LexerError::InvalidIdentifierChar(buffer));
        }
        i = i + 1;
    }
    Ok(buffer)
}

/// The token a keyword stands for.
fn keyword_token(word: &String) -> (r: Option<Token>)
    ensures
        r == keyword(word@),
{
    if *word == String::from_str("let") {
        Some(Token::Statement(Statement::Let))
    } else if *word == String::from_str("fn") {
        Some(Token::Statement(Statement::Function))
    } else if *word == String::from_str("return") {
        Some(Token::Statement(Statement::Return))
    } else if *word == String::from_str("import") {
        Some(Token::Statement(Statement::Import))
    } else if *word == String::from_str("if") {
        Some(Token::Statement(Statement::If))
    } else if *word == String::from_str("else") {
        Some(Token::Statement(Statement::Else))
    } else if *word == String::from_str("while") {
        Some(Token::Statement(Statement::While))
    } else if *word == String::from_str("print") {
        Some(Token::Statement(Statement::Print))
    } else if *word == String::from_str("println") {
        Some(Token::Statement(Statement::Println))
    } else if *word == String::from_str("for") {
        Some(Token::Statement(Statement::For))
    } else if *word == String::from_str("none") {
        Some(Token::TypeName(TypeName::Nothing))
    } else if *word == String::from_str("bool") {
        Some(Token::TypeName(TypeName::Bool))
    } else if *word == String::from_str("String") {
        Some(Token::TypeName(TypeName::QuotedString))
    } else if *word == String::from_str("i8") {
        Some(Token::TypeName(TypeName::I8))
    } else if *word == String::from_str("i16") {
        Some(Token::TypeName(TypeName::I16))
    } else if *word == String::from_str("i32") {
        Some(Token::TypeName(TypeName::I32))
    } else {
        None
    }
}

/// The token for a finished word, given the classes of its characters: a
/// keyword, or a checked name.
fn word_token_of(word: &String, classes: &Vec<(bool, bool)>) -> (r: Result<Token, LexerError>)
    requires
        classes@.len() == word@.len(),
    ensures
        match (r, word_token(with_classes(word@, classes@))) {
            (Ok(t), Ok(v)) => token_is(t, v),
            (Err(e), Err(v)) => e@ == v,
            _ => false,
        },
{
    assert(chars_of(with_classes(word@, classes@)) =~= word@);
    match keyword_token(word) {
        Some(t) => Ok(t),
        None => match identifier_parser(word.clone(), classes) {
            Ok(name) => Ok(Token::TypeValue(TypeValue::Identifier(name))),
            Err(e) => Err(e),
        },
    }
}

/// The token for `c` followed by `next`, when the two make one.
fn pair_token_of(c: char, next: Option<char>) -> (r: Option<Token>)
    ensures
        r == pair_token(c, next),
{
    match next {
        None => None,
        Some(n) => if c == '-' && n == '>' {
            Some(Token::Symbol(Symbol::Arrow))
        } else if c == '-' && n == '=' {
            Some(Token::Assign(Assign::SubAssign))
        } else if c == '=' && n == '=' {
            Some(Token::Logical(Logical::Equals))
        } else if c == '!' && n == '=' {
            Some(Token::Logical(Logical::NotEquals))
        } else if c == '+' && n == '=' {
            Some(Token::Assign(Assign::AddAssign))
        } else if c == '*' && n == '=' {
            Some(Token::Assign(Assign::MulAssign))
        } else if c == '/' && n == '=' {
            Some(Token::Assign(Assign::DivAssign))
        } else if c == '%' && n == '=' {
            Some(Token::Assign(Assign::RemAssign))
        } else if c == ':' && n == ':' {
            Some(Token::Symbol(Symbol::DoubleColon))
        } else {
            None
        },
    }
}

/// The token for a single symbol character.
fn single_token_of(c: char) -> (r: Option<Token>)
    ensures
        r == single_token(c),
{
    if c == '*' {
        Some(Token::Operator(Operator::Multiply))
    } else if c == ':' {
        Some(Token::Symbol(Symbol::Colon))
    } else if c == '.' {
        Some(Token::Symbol(Symbol::Dot))
    } else if c == '=' {
        Some(Token::Assign(Assign::Assign))
    } else if c == '-' {
        Some(Token::Operator(Operator::Subtract))
    } else if c == '(' {
        Some(Token::Symbol(Symbol::LeftParen))
    } else if c == '{' {
        Some(Token::Symbol(Symbol::LeftBrace))
    } else if c == '<' {
        Some(Token::Logical(Logical::LessThan))
    } else if c == '[' {
        Some(Token::Symbol(Symbol::LeftBracket))
    } else if c == ')' {
        Some(Token::Symbol(Symbol::RightParen))
    } else if c == '}' {
        Some(Token::Symbol(Symbol::RightBrace))
    } else if c == '>' {
        Some(Token::Logical(Logical::GreaterThan))
    } else if c == ']' {
        Some(Token::Symbol(Symbol::RightBracket))
    } else if c == '+' {
        Some(Token::Operator(Operator::Add))
    } else if c == '%' {
        Some(Token::Operator(Operator::Remainder))
    } else if c == ';' {
        Some(Token::Symbol(Symbol::Semicolon))
    } else if c == '/' {
        Some(Token::Operator(Operator::Divide))
    } else if c == ',' {
        Some(Token::Symbol(Symbol::Comma))
    } else if c == '!' {
        Some(Token::Logical(Logical::Not))
    } else {
        None
    }
}

/// Splits source text into tokens, given each character's classes
/// (alphabetic, numeric) in `classes` (see `lex_step`). A word or string still
/// open at the end of the text is dropped.
pub fn lex_classified(code: &str, classes: &Vec<(bool, bool)>) -> (r: Result<Vec<Token>, LexerError>)
    requires
        classes@.len() == code@.len(),
    ensures
        lexed_as(r, lex_spec(with_classes(code@, classes@))),
{
    let ghost text = with_classes(code@, classes@);
    let n = classes.len();
    let mut tokens: Vec<Token> = Vec::new();
    let ghost mut vt: Seq<LexToken> = seq![];
    let mut buffer = String::new();
    let mut buffer_classes: Vec<(bool, bool)> = Vec::new();
    let ghost mut gb: Seq<Classed> = seq![];
    let mut double_state = false;
    let mut string_flag = false;
    let mut i: usize = 0;
    assert(buffer@ =~= chars_of(gb));
    while i < n
        invariant
            n == code@.len(),
            n == classes@.len(),
            text == with_classes(code@, classes@),
            i <= n,
            tokens_are(tokens@, vt),
            buffer@ == chars_of(gb),
            buffer_classes@.len() == gb.len(),
            with_classes(buffer@, buffer_classes@) == gb,
            lex_from(text, i as nat, LexState { tokens: vt, buffer: gb, double: double_state, in_string: string_flag })
                == lex_spec(text),
        decreases n - i,
    {
        let c = code.get_char(i);
        let (alpha, num) = classes[i];
        let next: Option<(char, bool, bool)> = if i + 1 < n {
            Some((code.get_char(i + 1), classes[i + 1].0, classes[i + 1].1))
        } else {
            None
        };
        let next_char: Option<char> = match next {
            Some(x) => Some(x.0),
            None => None,
        };
        assert(text[i as int] == (c, alpha, num));
        let ghost vt0 = vt;
        let ghost t0 = tokens@;
        let ghost x = text[i as int];
        let ghost b0 = gb;
        if c == '"' && !string_flag {
            string_flag = true;
            buffer = String::new();
            buffer_classes = Vec::new();
            proof {
                gb = seq![];
            }
        } else if string_flag {
            if c == '"' {
                string_flag = false;
                tokens.push(Token::TypeValue(TypeValue::QuotedString(buffer)));
                proof {
                    vt = vt.push(LexToken::Text(chars_of(gb)));
                    gb = seq![];
                }
                buffer = String::new();
                buffer_classes = Vec::new();
            } else {
                push_char(&mut buffer, c);
                buffer_classes.push((alpha, num));
                proof {
                    gb = gb.push(x);
                    assert(buffer@ =~= chars_of(gb));
                    assert(with_classes(buffer@, buffer_classes@) =~= gb);
                }
            }
        } else if alpha || num || (c == '_' && buffer_classes.len() > 0) {
            push_char(&mut buffer, c);
            buffer_classes.push((alpha, num));
            proof {
                gb = gb.push(x);
                assert(buffer@ =~= chars_of(gb));
                assert(with_classes(buffer@, buffer_classes@) =~= gb);
            }
            let ends = match next {
                None => true,
                Some(nx) => !(nx.1 || nx.2),
            };
            let mut all_num = true;
            let mut k: usize = 0;
            while k < buffer_classes.len()
                invariant
                    k <= buffer_classes@.len(),
                    buffer_classes@.len() == gb.len(),
                    buffer@.len() == gb.len(),
                    with_classes(buffer@, buffer_classes@) == gb,
                    all_num == forall|m: int| 0 <= m < k ==> (#[trigger] gb[m]).2,
                decreases buffer_classes@.len() - k,
            {
                assert(gb[k as int] == with_classes(buffer@, buffer_classes@)[k as int]);
                if !buffer_classes[k].1 {
                    all_num = false;
                }
                k = k + 1;
            }
            if ends && all_num {
                match i32_of(&buffer) {
                    Some(v) => {
                        tokens.push(Token::TypeValue(TypeValue::I32(v)));
                        proof {
                            vt = vt.push(LexToken::Number(v));
                            gb = seq![];
                        }
                        buffer = String::new();
                        buffer_classes = Vec::new();
                    },
                    None => {
                        return Err(LexerError::InvalidNumber(buffer));
                    },
                }
            }
        } else if double_state {
            double_state = false;
        } else {
            match pair_token_of(c, next_char) {
                Some(t) => {
                    let ghost tg = t;
                    tokens.push(t);
                    proof {
                        vt = vt.push(LexToken::Plain(tg));
                        gb = seq![];
                    }
                    buffer = String::new();
                    buffer_classes = Vec::new();
                    double_state = true;
                },
                None => {
                    if buffer_classes.len() > 0 {
                        match word_token_of(&buffer, &buffer_classes) {
                            Ok(t) => {
                                proof {
                                    vt = vt.push(word_token(gb)->Ok_0);
                                }
                                tokens.push(t);
                            },
                            Err(e) => {
                                return Err(e);
                            },
                        }
                    }
                    buffer = String::new();
                    buffer_classes = Vec::new();
                    proof {
                        gb = seq![];
                    }
                    if !(c == ' ' || c == '\n' || c == '\t' || c == '\r') {
                        match single_token_of(c) {
                            Some(t) => {
                                let ghost tg = t;
                                tokens.push(t);
                                proof {
                                    vt = vt.push(LexToken::Plain(tg));
                                }
                            },
                            None => {
                                let mut shown = String::new();
                                push_char(&mut shown, c);
                                assert(shown@ =~= seq![c]);
                                return Err(LexerError::UnknownCharacter(shown));
                            },
                        }
                    }
                },
            }
        }
        proof {
            assert(buffer@ =~= chars_of(gb));
            assert(with_classes(buffer@, buffer_classes@) =~= gb);
            assert forall|k: int| 0 <= k < tokens@.len() implies token_is(#[trigger] tokens@[k], vt[k]) by {
                if k < t0.len() {
                    assert(tokens@[k] == t0[k]);
                    assert(vt[k] == vt0[k]);
                }
            }
        }
        i = i + 1;
    }
    Ok(tokens)
}

/// Splits source text into tokens, each character classed by Unicode as
/// alphabetic or numeric (see `lex_classified`).
pub fn lexer(code: &str) -> (r: Result<Vec<Token>, LexerError>)
    ensures
        lexed_as(r, lex_spec(classify(code@))),
{
    let n = code.unicode_len();
    let mut classes: Vec<(bool, bool)> = Vec::new();
    let mut i: usize = 0;
    while i < n
        invariant
            n == code@.len(),
            i <= n,
            classes@.len() == i,
            forall|k: int| 0 <= k < i ==> #[trigger] classes@[k] == (alphabetic(code@[k]), numeric(code@[k])),
        decreases n - i,
    {
        let c = code.get_char(i);
        classes.push((is_alphabetic(c), is_numeric(c)));
        i = i + 1;
    }
    assert(with_classes(code@, classes@) =~= classify(code@));
    lex_classified(code, &classes)
}

/// A lexer: the tokens of a piece of source text, and a read position.
pub struct Lexer {
    tokens: Vec<Token>,
    pos: usize,
}

impl Lexer {
    /// The tokens read.
    pub closed spec fn token_list(&self) -> Seq<Token> {
        self.tokens@
    }

    /// The read position.
    pub closed spec fn position(&self) -> usize {
        self.pos
    }

    /// The tokens of `code`, or the first error met.
    pub fn new(code: &str) -> (r: Result<Lexer, LexerError>)
        ensures
            match (r, lex_spec(classify(code@))) {
                (Ok(l), Ok(vs)) => tokens_are(l.token_list(), vs) && l.position() == 0,
                (Err(e), Err(v)) => e@ == v,
                _ => false,
            },
    {
        match lexer(code) {
            Ok(tokens) => Ok(Lexer { tokens, pos: 0 }),
            Err(e) => Err(e),
        }
    }
}

} // verus!
