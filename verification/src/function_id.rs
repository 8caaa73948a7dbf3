use vstd::prelude::*;

verus! {

/// Identifies a top-level function by the file it is defined in and its name.
pub struct FunctionId {
    pub file: String,
    pub name: String,
}

impl View for FunctionId {
    type V = (Seq<char>, Seq<char>);

    open spec fn view(&self) -> (Seq<char>, Seq<char>) {
        (self.file@, self.name@)
    }
}

impl FunctionId {
    pub fn new(file: String, name: String) -> (r: Self)
        ensures
            r.file@ == file@,
            r.name@ == name@,
    {
        FunctionId { file, name }
    }

    /// Field-wise equality of two identifiers.
    pub fn same_as(&self, other: &FunctionId) -> (r: bool)
        ensures
            r == (self@ == other@),
    {
        self.file == other.file && self.name == other.name
    }

    /// A copy of this identifier.
    pub fn duplicate(&self) -> (r: FunctionId)
        ensures
            r@ == self@,
    {
        FunctionId { file: self.file.clone(), name: self.name.clone() }
    }
}

} // verus!
