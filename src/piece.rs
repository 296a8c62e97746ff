use vstd::prelude::*;

verus! {

/// An ordered attribute map: each key with its list of values.
pub type Attributes = Vec<(String, Vec<String>)>;

/// What an attribute map holds, in order.
pub type AttributesView = Seq<(Seq<char>, Seq<Seq<char>>)>;

/// What a piece is: its color, its kind and its attributes.
pub struct PieceView {
    pub color: Seq<char>,
    pub kind: Seq<char>,
    pub attributes: AttributesView,
}

/// A piece: identity (color, kind) and an open attribute map that holds both
/// semantic tags ("promotion", "check") and display metadata ("short_name",
/// "short_color").
#[derive(Debug, Clone, PartialEq, Eq, Hash, PartialOrd, Ord)]
pub struct Piece {
    pub color: String,
    pub kind: String,
    pub attributes: Attributes,
}

impl View for Piece {
    type V = PieceView;

    open spec fn view(&self) -> PieceView {
        PieceView { color: self.color@, kind: self.kind@, attributes: self.attributes.deep_view() }
    }
}

/// The first value registered under `key`, if any.
pub open spec fn attribute_value(attrs: AttributesView, key: Seq<char>) -> Option<Seq<char>>
    decreases attrs.len(),
{
    if attrs.len() == 0 {
        None
    } else if attrs[0].0 == key && attrs[0].1.len() > 0 {
        Some(attrs[0].1[0])
    } else {
        attribute_value(attrs.drop_first(), key)
    }
}

/// The text a piece is shown as: its short color and short name, each falling
/// back to the full color or kind when no short form is registered.
pub open spec fn display_text(p: PieceView) -> Seq<char> {
    let c = match attribute_value(p.attributes, "short_color"@) {
        Some(s) => s,
        None => p.color,
    };
    let k = match attribute_value(p.attributes, "short_name"@) {
        Some(s) => s,
        None => p.kind,
    };
    c + k
}

/// The tags that a kind of the classic game carries.
pub open spec fn kind_tags(kind: Seq<char>) -> Seq<Seq<char>> {
    if kind == "pawn"@ {
        seq!["promotion"@]
    } else if kind == "king"@ {
        seq!["check"@, "checkmate"@]
    } else {
        seq![]
    }
}

/// A copy of a list of strings.
pub fn copy_strings(v: &Vec<String>) -> (r: Vec<String>)
    ensures
        r.deep_view() == v.deep_view(),
{
    let mut r: Vec<String> = Vec::new();
    let mut i: usize = 0;
    while i < v.len()
        invariant
            i <= v.len(),
            r@.len() == i,
            forall|j: int| 0 <= j < i ==> r@[j]@ == v@[j]@,
        decreases v.len() - i,
    {
        r.push(v[i].clone());
        i = i + 1;
    }
    assert(r.deep_view() =~= v.deep_view());
    r
}

/// A copy of an attribute map.
pub fn copy_attributes(v: &Attributes) -> (r: Attributes)
    ensures
        r.deep_view() == v.deep_view(),
{
    let mut r: Attributes = Vec::new();
    let mut i: usize = 0;
    while i < v.len()
        invariant
            i <= v.len(),
            r@.len() == i,
            forall|j: int| 0 <= j < i ==> r@[j].deep_view() == v@[j].deep_view(),
        decreases v.len() - i,
    {
        let key = v[i].0.clone();
        let values = copy_strings(&v[i].1);
        r.push((key, values));
        i = i + 1;
    }
    assert(r.deep_view() =~= v.deep_view());
    r
}

/// Whether `tags` holds `tag`.
pub fn has_tag(tags: &Vec<String>, tag: &String) -> (r: bool)
    ensures
        r == tags.deep_view().contains(tag@),
{
    let mut i: usize = 0;
    while i < tags.len()
        invariant
            i <= tags.len(),
            forall|j: int| 0 <= j < i ==> tags@[j]@ != tag@,
        decreases tags.len() - i,
    {
        if tags[i] == *tag {
            assert(tags.deep_view()[i as int] == tag@);
            return true;
        }
        i = i + 1;
    }
    assert(!tags.deep_view().contains(tag@)) by {
        assert forall|j: int| 0 <= j < tags.deep_view().len() implies tags.deep_view()[j] != tag@ by {
            assert(tags.deep_view()[j] == tags@[j]@);
        }
    }
    false
}

/// The first value registered under `key` in `attrs`.
pub fn lookup_attribute(attrs: &Attributes, key: &String) -> (r: Option<String>)
    ensures
        r matches Some(s) ==> attribute_value(attrs.deep_view(), key@) == Some(s@),
        r is None <==> attribute_value(attrs.deep_view(), key@) is None,
{
    let mut i: usize = 0;
    assert(attrs.deep_view().subrange(0, attrs@.len() as int) =~= attrs.deep_view());
    while i < attrs.len()
        invariant
            i <= attrs.len(),
            attribute_value(attrs.deep_view(), key@) == attribute_value(
                attrs.deep_view().subrange(i as int, attrs@.len() as int),
                key@,
            ),
        decreases attrs.len() - i,
    {
        let ghost rest = attrs.deep_view().subrange(i as int, attrs@.len() as int);
        assert(rest.drop_first() =~= attrs.deep_view().subrange(i + 1, attrs@.len() as int));
        if attrs[i].0 == *key && attrs[i].1.len() > 0 {
            return Some(attrs[i].1[0].clone());
        }
        i = i + 1;
    }
    None
}

/// Whether two lists of strings hold the same texts.
pub fn same_strings(a: &Vec<String>, b: &Vec<String>) -> (r: bool)
    ensures
        r == (a.deep_view() == b.deep_view()),
{
    if a.len() != b.len() {
        assert(a.deep_view().len() != b.deep_view().len());
        return false;
    }
    let mut i: usize = 0;
    while i < a.len()
        invariant
            a@.len() == b@.len(),
            i <= a@.len(),
            forall|j: int| 0 <= j < i ==> a@[j]@ == b@[j]@,
        decreases a@.len() - i,
    {
        if !(a[i] == b[i]) {
            assert(a.deep_view()[i as int] != b.deep_view()[i as int]);
            return false;
        }
        i = i + 1;
    }
    assert(a.deep_view() =~= b.deep_view());
    true
}

/// Whether two attribute maps hold the same entries in the same order.
pub fn same_attributes(a: &Attributes, b: &Attributes) -> (r: bool)
    ensures
        r == (a.deep_view() == b.deep_view()),
{
    if a.len() != b.len() {
        assert(a.deep_view().len() != b.deep_view().len());
        return false;
    }
    let mut i: usize = 0;
    while i < a.len()
        invariant
            a@.len() == b@.len(),
            i <= a@.len(),
            forall|j: int| 0 <= j < i ==> a@[j].deep_view() == b@[j].deep_view(),
        decreases a@.len() - i,
    {
        if !(a[i].0 == b[i].0) || !same_strings(&a[i].1, &b[i].1) {
            assert(a.deep_view()[i as int] != b.deep_view()[i as int]);
            return false;
        }
        i = i + 1;
    }
    assert(a.deep_view() =~= b.deep_view());
    true
}

impl Piece {
    /// A piece with the given identity and attributes.
    pub fn new(color: String, kind: String, attributes: Attributes) -> (r: Piece)
        ensures
            r@ == (PieceView { color: color@, kind: kind@, attributes: attributes.deep_view() }),
    {
        Piece { color, kind, attributes }
    }

    /// A piece of the classic game: a pawn carries the "promotion" tag, a king
    /// the "check" and "checkmate" tags, under the key "tags".
    pub fn of_kind(color: &str, kind: &str) -> (r: Piece)
        ensures
            r.color@ == color@,
            r.kind@ == kind@,
            r.attributes.deep_view() == seq![("tags"@, kind_tags(kind@))],
    {
        let kind_s = String::from_str(kind);
        let mut tags: Vec<String> = Vec::new();
        if kind_s == String::from_str("pawn") {
            tags.push(String::from_str("promotion"));
        } else if kind_s == String::from_str("king") {
            tags.push(String::from_str("check"));
            tags.push(String::from_str("checkmate"));
        }
        assert(tags.deep_view() =~= kind_tags(kind@));
        let mut attributes: Attributes = Vec::new();
        attributes.push((String::from_str("tags"), tags));
        assert(attributes.deep_view() =~= seq![("tags"@, kind_tags(kind@))]);
        Piece { color: String::from_str(color), kind: kind_s, attributes }
    }

    /// Whether two pieces are the same: color, kind and attributes.
    pub fn same(&self, other: &Piece) -> (r: bool)
        ensures
            r == (self@ == other@),
    {
        self.color == other.color && self.kind == other.kind && same_attributes(&self.attributes, &other.attributes)
    }

    /// A copy of this piece.
    pub fn duplicate(&self) -> (r: Piece)
        ensures
            r@ == self@,
    {
        Piece {
            color: self.color.clone(),
            kind: self.kind.clone(),
            attributes: copy_attributes(&self.attributes),
        }
    }

    /// The display form: short color then short name, each falling back to
    /// the full color or kind.
    pub fn display(&self) -> (r: String)
        ensures
            r@ == display_text(self@),
    {
        let c = match lookup_attribute(&self.attributes, &String::from_str("short_color")) {
            Some(s) => s,
            None => self.color.clone(),
        };
        let k = match lookup_attribute(&self.attributes, &String::from_str("short_name")) {
            Some(s) => s,
            None => self.kind.clone(),
        };
        c.concat(k.as_str())
    }
}

/// What a cell holds: its piece and its status tags.
pub struct CellView {
    pub piece: PieceView,
    pub status: Seq<Seq<char>>,
}

/// An occupied cell: the piece on it and per-cell status tags (such as
/// "moving", set on the piece that moved last).
#[derive(Debug, Clone, PartialEq, Eq, Hash, PartialOrd, Ord)]
pub struct Cell {
    pub piece: Piece,
    pub status: Vec<String>,
}

impl View for Cell {
    type V = CellView;

    open spec fn view(&self) -> CellView {
        CellView { piece: self.piece@, status: self.status.deep_view() }
    }
}

impl Cell {
    /// A copy of this cell.
    pub fn duplicate(&self) -> (r: Cell)
        ensures
            r@ == self@,
    {
        Cell { piece: self.piece.duplicate(), status: copy_strings(&self.status) }
    }
}

} // verus!
