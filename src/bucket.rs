//! A key/value pairs container.
use vstd::prelude::*;

verus! {

/// An ID of the container which can have many key/value pairs.
///
/// Equality and ordering are by name.
#[derive(Clone, Eq, PartialOrd, Ord)]
pub struct Bucket {
    /// The name of this bucket.
    name: String,
}

impl View for Bucket {
    type V = Seq<char>;

    closed spec fn view(&self) -> Seq<char> {
        self.name@
    }
}

impl Bucket {
    /// Gets the name of this bucket as str.
    pub fn as_str(&self) -> (r: &str)
        ensures
            r@ == self@,
    {
        self.name.as_str()
    }

    /// Creates a bucket from a checked string.
    ///
    /// No check will be done by this library.
    pub fn new_checked(checked: String) -> (r: Self)
        ensures
            r@ == checked@,
    {
        Self { name: checked }
    }
}

impl PartialEq for Bucket {
    fn eq(&self, other: &Bucket) -> (r: bool) {
        self.name == other.name
    }
}

impl vstd::std_specs::cmp::PartialEqSpecImpl for Bucket {
    open spec fn obeys_eq_spec() -> bool {
        true
    }

    open spec fn eq_spec(&self, other: &Bucket) -> bool {
        self@ == other@
    }
}

} // verus!
