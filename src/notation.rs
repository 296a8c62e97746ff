use vstd::prelude::*;
use crate::moves::{moves_view, MoveType, MoveView};

verus! {

/// What `regex` captures: for each of `names`, the text its group matched in
/// `text` under `pattern`, or `None` when the pattern does not compile or
/// does not match.
pub uninterp spec fn regex_groups(pattern: Seq<char>, text: Seq<char>, names: Seq<Seq<char>>) -> Option<
    Seq<Seq<char>>,
>;

/// Relies on regex: `Regex::new` compiles `pattern` (an error for an invalid
/// one) and `Regex::captures` finds its first match in `text`; each named
/// group gives the text it matched, or "" when it took no part.
#[verifier::external_body]
fn capture_groups(pattern: &str, text: &str, names: &Vec<&str>) -> (r: Option<Vec<String>>)
    ensures
        r matches Some(v) ==> regex_groups(pattern@, text@, names.deep_view()) == Some(v.deep_view())
            && v@.len() == names@.len(),
        r is None <==> regex_groups(pattern@, text@, names.deep_view()) is None,
{
    let re = match regex::Regex::new(pattern) {
        Ok(re) => re,
        Err(_) => return None,
    };
    let caps = re.captures(text)?;
    Some(names.iter().map(|n| caps.name(n).map_or("", |m| m.as_str()).to_string()).collect())
}

/// The value of an ASCII digit.
pub open spec fn digit_value(c: char) -> Option<nat> {
    if '0' <= c && c <= '9' {
        Some((c as u32 - '0' as u32) as nat)
    } else {
        None
    }
}

/// The number that the ASCII digits of `s` spell, or `None` when `s` is empty
/// or holds another character.
pub open spec fn decimal_value(s: Seq<char>) -> Option<nat>
    decreases s.len(),
{
    if s.len() == 0 {
        None
    } else {
        match digit_value(s.last()) {
            None => None,
            Some(d) => if s.len() == 1 {
                Some(d)
            } else {
                match decimal_value(s.drop_last()) {
                    Some(v) => Some(v * 10 + d),
                    None => None,
                }
            },
        }
    }
}

/// The row index that the rank number `s` names on a board of `rows` rows:
/// rank 1 is the last row, rank `rows` the first.
pub open spec fn row_of(s: Seq<char>, rows: nat) -> Option<nat> {
    match decimal_value(s) {
        Some(n) => if 1 <= n <= rows {
            Some((rows - n) as nat)
        } else {
            None
        },
        None => None,
    }
}

/// The value of a letter, either case: a is 1, z is 26.
pub open spec fn letter_value(c: char) -> Option<nat> {
    if 'a' <= c && c <= 'z' {
        Some((c as u32 - 'a' as u32 + 1) as nat)
    } else if 'A' <= c && c <= 'Z' {
        Some((c as u32 - 'A' as u32 + 1) as nat)
    } else {
        None
    }
}

/// The number that the letters of `s` spell, the first letter counting once,
/// the second 26 times, the third 26 * 26 times, and so on.
pub open spec fn letters_value(s: Seq<char>) -> Option<nat>
    decreases s.len(),
{
    if s.len() == 0 {
        Some(0)
    } else {
        match (letter_value(s[0]), letters_value(s.drop_first())) {
            (Some(d), Some(v)) => Some(d + 26 * v),
            _ => None,
        }
    }
}

/// The column index that the file letters `s` name: a is column 0.
pub open spec fn column_of(s: Seq<char>) -> Option<nat> {
    match letters_value(s) {
        Some(v) => if s.len() > 0 && v - 1 <= usize::MAX {
            Some((v - 1) as nat)
        } else {
            None
        },
        None => None,
    }
}

/// The row index that a rank number names on a board of `rows` rows, or
/// `None` when it is not a rank of that board.
pub fn chess_x_convent(input: &String, rows: usize) -> (r: Option<usize>)
    ensures
        r matches Some(x) ==> row_of(input@, rows as nat) == Some(x as nat),
        r is None <==> row_of(input@, rows as nat) is None,
{
    let s = input.as_str();
    let len = s.unicode_len();
    if len == 0 {
        return None;
    }
    let mut acc: usize = 0;
    let mut i: usize = 0;
    while i < len
        invariant
            len == s@.len(),
            s@ == input@,
            0 < len,
            i <= len,
            i > 0 ==> decimal_value(s@.subrange(0, i as int)) == Some(acc as nat),
            i == 0 ==> acc == 0,
            acc <= rows,
        decreases len - i,
    {
        let c = s.get_char(i);
        let ghost pre = s@.subrange(0, i as int);
        assert(s@.subrange(0, i + 1).drop_last() =~= pre);
        assert(s@.subrange(0, i + 1).last() == c);
        if c < '0' || c > '9' {
            proof {
                lemma_decimal_none_extends(s@, (i + 1) as int);
            }
            return None;
        }
        let d = (c as u32 - '0' as u32) as usize;
        let next: u128 = acc as u128 * 10 + d as u128;
        assert(digit_value(c) == Some(d as nat));
        assert(decimal_value(s@.subrange(0, i + 1)) == Some(next as nat));
        if next > rows as u128 {
            proof {
                lemma_decimal_grows(s@, (i + 1) as int, rows as nat);
            }
            return None;
        }
        acc = next as usize;
        i = i + 1;
    }
    assert(s@.subrange(0, len as int) =~= s@);
    if acc == 0 {
        return None;
    }
    Some(rows - acc)
}

/// A prefix that is not all digits keeps the whole text from being a number.
pub proof fn lemma_decimal_none_extends(s: Seq<char>, n: int)
    requires
        0 < n <= s.len(),
        decimal_value(s.subrange(0, n)) is None,
    ensures
        decimal_value(s) is None,
    decreases s.len() - n,
{
    if n < s.len() {
        assert(s.subrange(0, n + 1).drop_last() =~= s.subrange(0, n));
        lemma_decimal_none_extends(s, n + 1);
    } else {
        assert(s.subrange(0, n) =~= s);
    }
}

/// Digits past a prefix whose value is over `bound` give a value over it.
pub proof fn lemma_decimal_grows(s: Seq<char>, n: int, bound: nat)
    requires
        0 < n <= s.len(),
        match decimal_value(s.subrange(0, n)) {
            Some(v) => v > bound,
            None => true,
        },
    ensures
        match decimal_value(s) {
            Some(v) => v > bound,
            None => true,
        },
    decreases s.len() - n,
{
    if n < s.len() {
        assert(s.subrange(0, n + 1).drop_last() =~= s.subrange(0, n));
        lemma_decimal_grows(s, n + 1, bound);
    } else {
        assert(s.subrange(0, n) =~= s);
    }
}


/// Letters in front of a value over `bound` keep it over `bound`, unless one
/// of them is not a letter.
proof fn lemma_letters_grow(s: Seq<char>, i: int, bound: nat)
    requires
        0 <= i <= s.len(),
        match letters_value(s.subrange(i, s.len() as int)) {
            Some(v) => v > bound,
            None => true,
        },
    ensures
        match letters_value(s) {
            Some(v) => v > bound,
            None => true,
        },
    decreases i,
{
    if i > 0 {
        assert(s.subrange(i - 1, s.len() as int).drop_first() =~= s.subrange(i, s.len() as int));
        lemma_letters_grow(s, i - 1, bound);
    } else {
        assert(s.subrange(0, s.len() as int) =~= s);
    }
}

/// The column index that file letters name (a is 0), or `None` when they are
/// empty, hold another character, or name a column past the largest `usize`.
pub fn chess_y_convent(input: &String) -> (r: Option<usize>)
    ensures
        r matches Some(y) ==> column_of(input@) == Some(y as nat),
        r is None <==> column_of(input@) is None,
{
    let s = input.as_str();
    let len = s.unicode_len();
    if len == 0 {
        return None;
    }
    let cap: u128 = usize::MAX as u128 + 1;
    let mut acc: u128 = 0;
    let mut i: usize = len;
    assert(s@.subrange(len as int, len as int) =~= Seq::<char>::empty());
    while i > 0
        invariant
            len == s@.len(),
            s@ == input@,
            i <= len,
            letters_value(s@.subrange(i as int, len as int)) == Some(acc as nat),
            cap == usize::MAX as u128 + 1,
            acc <= cap,
        decreases i,
    {
        let c = s.get_char(i - 1);
        let ghost tail = s@.subrange(i as int, len as int);
        assert(s@.subrange(i - 1, len as int).drop_first() =~= tail);
        assert(s@.subrange(i - 1, len as int)[0] == c);
        let d: u128 = if 'a' <= c && c <= 'z' {
            (c as u32 - 'a' as u32 + 1) as u128
        } else if 'A' <= c && c <= 'Z' {
            (c as u32 - 'A' as u32 + 1) as u128
        } else {
            proof {
                lemma_letters_grow(s@, i - 1, (usize::MAX + 1) as nat);
            }
            return None;
        };
        assert(cap <= 0x1_0000_0000_0000_0000u128);
        assert(26 * acc <= 26 * 0x1_0000_0000_0000_0000u128) by (nonlinear_arith)
            requires
                acc <= 0x1_0000_0000_0000_0000u128,
        ;
        assert(d <= 26);
        assert(letter_value(c) == Some(d as nat));
        let next: u128 = d + 26 * acc;
        assert(letters_value(s@.subrange(i - 1, len as int)) == Some(next as nat));
        i = i - 1;
        if next > cap {
            proof {
                lemma_letters_grow(s@, i as int, (usize::MAX + 1) as nat);
            }
            return None;
        }
        acc = next;
    }
    assert(s@.subrange(0, len as int) =~= s@);
    assert(acc >= 1) by {
        assert(letter_value(s@[0]) is Some);
    }
    Some((acc - 1) as usize)
}


/// What a decoded move query is.
pub struct QueryView {
    pub kind: Seq<char>,
    pub start_col: Option<nat>,
    pub start_row: Option<nat>,
    pub end_col: nat,
    pub end_row: nat,
}

/// A decoded move in notation: the kind as typed, an optional source column
/// and row (absent ones match anything), and the destination.
#[derive(Debug, Clone, PartialEq, Eq)]
pub struct NotationQuery {
    pub kind: String,
    pub start_col: Option<usize>,
    pub start_row: Option<usize>,
    pub end_col: usize,
    pub end_row: usize,
}

impl View for NotationQuery {
    type V = QueryView;

    open spec fn view(&self) -> QueryView {
        QueryView {
            kind: self.kind@,
            start_col: match self.start_col {
                Some(c) => Some(c as nat),
                None => None,
            },
            start_row: match self.start_row {
                Some(r) => Some(r as nat),
                None => None,
            },
            end_col: self.end_col as nat,
            end_row: self.end_row as nat,
        }
    }
}

/// An optional field: `Some(None)` when empty, `Some(Some(v))` when it
/// decodes to `v`, `None` when it does not decode.
pub open spec fn optional_field(s: Seq<char>, value: Option<nat>) -> Option<Option<nat>> {
    if s.len() == 0 {
        Some(None)
    } else {
        match value {
            Some(v) => Some(Some(v)),
            None => None,
        }
    }
}

/// The query that the captured fields (name, start column, start row, takes,
/// end column, end row, rest) describe on a board of `rows` rows. A missing
/// kind means a pawn. `None` when a field that is there does not decode.
pub open spec fn query_spec(fields: Seq<Seq<char>>, rows: nat) -> Option<QueryView> {
    if fields.len() != 7 {
        None
    } else {
        let kind = if fields[0].len() == 0 {
            "pawn"@
        } else {
            fields[0]
        };
        match (
            optional_field(fields[1], column_of(fields[1])),
            optional_field(fields[2], row_of(fields[2], rows)),
            column_of(fields[4]),
            row_of(fields[5], rows),
        ) {
            (Some(sc), Some(sr), Some(ec), Some(er)) => Some(
                QueryView { kind, start_col: sc, start_row: sr, end_col: ec, end_row: er },
            ),
            _ => None,
        }
    }
}

/// A character with ASCII capitals folded to small letters, as a code point.
pub open spec fn folded(c: char) -> u32 {
    if 'A' <= c && c <= 'Z' {
        (c as u32 + 32) as u32
    } else {
        c as u32
    }
}

/// `typed`, with its ASCII capitals made small, is `kind`.
pub open spec fn folds_to(typed: Seq<char>, kind: Seq<char>) -> bool {
    typed.len() == kind.len() && forall|i: int| 0 <= i < typed.len() ==> folded(#[trigger] typed[i]) == kind[i] as u32
}

/// The move fits the query: same kind of piece, same destination, and the
/// source column and row that the query gives.
pub open spec fn move_matches(q: QueryView, m: MoveView) -> bool {
    &&& m.piece matches Some(p) && folds_to(q.kind, p.kind)
    &&& m.to matches Some(t) && t.len() == 2 && t[0] == q.end_row && t[1] == q.end_col
    &&& q.start_row matches Some(r) ==> (m.from matches Some(f) && f.len() == 2 && f[0] == r)
    &&& q.start_col matches Some(c) ==> (m.from matches Some(f) && f.len() == 2 && f[1] == c)
}

/// The moves that fit the query, in order.
pub open spec fn select(moves: Seq<MoveView>, q: QueryView) -> Seq<MoveView>
    decreases moves.len(),
{
    if moves.len() == 0 {
        seq![]
    } else {
        let rest = select(moves.drop_last(), q);
        if move_matches(q, moves.last()) {
            rest.push(moves.last())
        } else {
            rest
        }
    }
}

/// The stand-in that carries unreadable input back to the caller.
pub open spec fn sentinel(input: Seq<char>) -> MoveView {
    MoveView { from: None, to: None, tag: Some("other"@), piece: None, captured: None, attributes: Some(seq![input]) }
}

/// The answer to `input` given the fields captured from it: the sentinel when
/// nothing was captured, no move when a field does not decode, and otherwise
/// every move that fits.
pub open spec fn check_spec(moves: Seq<MoveView>, fields: Option<Seq<Seq<char>>>, input: Seq<char>, rows: nat) -> Seq<
    MoveView,
> {
    match fields {
        None => seq![sentinel(input)],
        Some(f) => match query_spec(f, rows) {
            Some(q) => select(moves, q),
            None => seq![],
        },
    }
}

/// Decodes the captured fields of a move in notation.
pub fn parse_notation(fields: &Vec<String>, rows: usize) -> (r: Option<NotationQuery>)
    ensures
        r matches Some(q) ==> query_spec(fields.deep_view(), rows as nat) == Some(q@),
        r is None <==> query_spec(fields.deep_view(), rows as nat) is None,
{
    if fields.len() != 7 {
        return None;
    }
    let ghost f = fields.deep_view();
    assert(forall|i: int| 0 <= i < 7 ==> f[i] == #[trigger] fields@[i]@);
    let kind = if fields[0].unicode_len() == 0 {
        String::from_str("pawn")
    } else {
        fields[0].clone()
    };
    let start_col = if fields[1].unicode_len() == 0 {
        None
    } else {
        match chess_y_convent(&fields[1]) {
            Some(c) => Some(c),
            None => return None,
        }
    };
    let start_row = if fields[2].unicode_len() == 0 {
        None
    } else {
        match chess_x_convent(&fields[2], rows) {
            Some(x) => Some(x),
            None => return None,
        }
    };
    let end_col = match chess_y_convent(&fields[4]) {
        Some(c) => c,
        None => return None,
    };
    let end_row = match chess_x_convent(&fields[5], rows) {
        Some(x) => x,
        None => return None,
    };
    Some(NotationQuery { kind, start_col, start_row, end_col, end_row })
}

/// Whether `typed`, with its ASCII capitals made small, is `kind`.
pub fn kind_matches(typed: &String, kind: &String) -> (r: bool)
    ensures
        r == folds_to(typed@, kind@),
{
    let a = typed.as_str();
    let b = kind.as_str();
    let n = a.unicode_len();
    if n != b.unicode_len() {
        return false;
    }
    let mut i: usize = 0;
    while i < n
        invariant
            n == a@.len(),
            n == b@.len(),
            a@ == typed@,
            b@ == kind@,
            i <= n,
            forall|j: int| 0 <= j < i ==> folded(#[trigger] a@[j]) == b@[j] as u32,
        decreases n - i,
    {
        let c = a.get_char(i);
        let k = b.get_char(i);
        let fc: u32 = if 'A' <= c && c <= 'Z' {
            c as u32 + 32
        } else {
            c as u32
        };
        if fc != k as u32 {
            return false;
        }
        i = i + 1;
    }
    true
}

/// Whether `m` fits the query.
pub fn fits(q: &NotationQuery, m: &MoveType<2>) -> (r: bool)
    ensures
        r == move_matches(q@, m@),
{
    let kind_ok = match &m.piece {
        Some(p) => kind_matches(&q.kind, &p.kind),
        None => false,
    };
    let to_ok = match &m.to {
        Some(t) => t.position[0] == q.end_row && t.position[1] == q.end_col,
        None => false,
    };
    let row_ok = match q.start_row {
        Some(r) => match &m.from {
            Some(f) => f.position[0] == r,
            None => false,
        },
        None => true,
    };
    let col_ok = match q.start_col {
        Some(c) => match &m.from {
            Some(f) => f.position[1] == c,
            None => false,
        },
        None => true,
    };
    kind_ok && to_ok && row_ok && col_ok
}

/// The moves that fit the query, in order.
pub fn filter_moves(moves: &Vec<MoveType<2>>, q: &NotationQuery) -> (r: Vec<MoveType<2>>)
    ensures
        moves_view(r@) == select(moves_view(moves@), q@),
{
    let mut r: Vec<MoveType<2>> = Vec::new();
    let mut i: usize = 0;
    assert(moves_view(moves@).subrange(0, 0) =~= Seq::<MoveView>::empty());
    assert(moves_view(r@) =~= Seq::<MoveView>::empty());
    while i < moves.len()
        invariant
            i <= moves@.len(),
            moves_view(r@) == select(moves_view(moves@).subrange(0, i as int), q@),
        decreases moves@.len() - i,
    {
        let ghost before = moves_view(r@);
        assert(moves_view(moves@).subrange(0, i + 1).drop_last() =~= moves_view(moves@).subrange(0, i as int));
        if fits(q, &moves[i]) {
            r.push(moves[i].duplicate());
            assert(moves_view(r@) =~= before.push(moves@[i as int]@));
        }
        i = i + 1;
    }
    assert(moves_view(moves@).subrange(0, moves@.len() as int) =~= moves_view(moves@));
    r
}

/// The answer to `player_move` given the fields captured from it (see
/// `check_spec`): the sentinel carrying the input when nothing was captured.
pub fn check_move_fields(
    moves: &Vec<MoveType<2>>,
    fields: Option<Vec<String>>,
    player_move: &String,
    rows: usize,
) -> (r: Vec<MoveType<2>>)
    ensures
        moves_view(r@) == check_spec(
            moves_view(moves@),
            match fields {
                Some(f) => Some(f.deep_view()),
                None => None,
            },
            player_move@,
            rows as nat,
        ),
{
    match fields {
        None => {
            let mut raw: Vec<String> = Vec::new();
            raw.push(player_move.clone());
            assert(raw.deep_view() =~= seq![player_move@]);
            let r = vec![
                MoveType {
                    from: None,
                    to: None,
                    move_tag: Some(String::from_str("other")),
                    piece: None,
                    captured: None,
                    attributes: Some(raw),
                },
            ];
            assert(moves_view(r@) =~= seq![sentinel(player_move@)]);
            r
        },
        Some(f) => match parse_notation(&f, rows) {
            Some(q) => filter_moves(moves, &q),
            None => {
                let r: Vec<MoveType<2>> = Vec::new();
                assert(moves_view(r@) =~= Seq::<MoveView>::empty());
                r
            },
        },
    }
}

/// The candidate moves that a move typed in notation names, on a board of
/// `rows` rows: the input is read as an optional kind (a pawn when absent),
/// an optional source column and row, an optional "x", a destination column
/// and row, and any rest. Input that does not read that way gives the
/// sentinel, carrying the input.
pub fn check_move(moves: &Vec<MoveType<2>>, player_move: &String, rows: usize) -> (r: Vec<MoveType<2>>)
    ensures
        moves_view(r@) == check_spec(
            moves_view(moves@),
            regex_groups(notation_pattern(), player_move@, notation_groups()),
            player_move@,
            rows as nat,
        ),
{
    let names = vec!["name", "start_col", "start_row", "takes", "end_col", "end_row", "other"];
    assert(names.deep_view() =~= notation_groups());
    let fields = capture_groups(NOTATION_PATTERN, player_move.as_str(), &names);
    check_move_fields(moves, fields, player_move, rows)
}

/// The pattern that reads a move in notation.
pub const NOTATION_PATTERN: &'static str =
    "(?P<name>[A-Za-z]*)(?P<start_col>[A-Za-z]*)(?P<start_row>\\d*)(?P<takes>[Xx]?)(?P<end_col>[A-Za-z]+)(?P<end_row>\\d+)(?P<other>.*)";

pub open spec fn notation_pattern() -> Seq<char> {
    NOTATION_PATTERN@
}

/// The groups of the pattern, in the order the fields are read.
pub open spec fn notation_groups() -> Seq<Seq<char>> {
    seq!["name"@, "start_col"@, "start_row"@, "takes"@, "end_col"@, "end_row"@, "other"@]
}

} // verus!
