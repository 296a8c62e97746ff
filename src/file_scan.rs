use vstd::prelude::*;

verus! {

/// A piece definition as stored in a file: its name, short name, point value
/// and the script that drives it.
#[derive(Debug, Clone, PartialEq, Eq)]
pub struct FileFormat {
    name: String,
    short_name: String,
    point: i32,
    code: String,
}

impl FileFormat {
    /// A definition with the given fields.
    pub fn new(name: String, short_name: String, point: i32, code: String) -> (r: FileFormat)
        ensures
            r.name() == name@,
            r.short_name() == short_name@,
            r.point() == point,
            r.code() == code@,
    {
        FileFormat { name, short_name, point, code }
    }

    pub closed spec fn name(&self) -> Seq<char> {
        self.name@
    }

    pub closed spec fn short_name(&self) -> Seq<char> {
        self.short_name@
    }

    pub closed spec fn point(&self) -> i32 {
        self.point
    }

    pub closed spec fn code(&self) -> Seq<char> {
        self.code@
    }

    /// The piece's name.
    pub fn get_name(&self) -> (r: &String)
        ensures
            r@ == self.name(),
    {
        &self.name
    }

    /// The piece's short name.
    pub fn get_short_name(&self) -> (r: &String)
        ensures
            r@ == self.short_name(),
    {
        &self.short_name
    }

    /// The piece's point value.
    pub fn get_point(&self) -> (r: &i32)
        ensures
            *r == self.point(),
    {
        &self.point
    }

    /// The piece's script.
    pub fn get_code(&self) -> (r: &String)
        ensures
            r@ == self.code(),
    {
        &self.code
    }
}

} // verus!
