use vstd::prelude::*;

verus! {

/// One parameter as the remote store returns it: a full path name (such as
/// `/demo/foo`) and a string value, either of which may be missing.
///
/// Only parameters with both fields present contribute to the flattened
/// configuration map; the rest are dropped silently.
#[derive(Clone, Debug)]
pub struct Parameter {
    /// Full remote path of the parameter.
    pub name: Option<String>,
    /// The parameter's value.
    pub value: Option<String>,
}

impl Parameter {
    /// Both name and value are present.
    pub open spec fn is_complete(self) -> bool {
        self.name is Some && self.value is Some
    }

    /// The characters of the name, for a parameter whose name is present.
    pub open spec fn name_chars(self) -> Seq<char> {
        self.name->0@
    }

    /// The characters of the value, for a parameter whose value is present.
    pub open spec fn value_chars(self) -> Seq<char> {
        self.value->0@
    }

    /// The name is long enough that stripping `strip` leading characters
    /// cannot run off its end.
    pub open spec fn name_fits(self, strip: int) -> bool {
        self.name is Some ==> strip <= self.name_chars().len()
    }
}

/// The key a parameter name flattens to: the name with its first `strip`
/// characters (the path prefix and the following separator) removed.
pub open spec fn stripped_key(name: Seq<char>, strip: int) -> Seq<char> {
    name.subrange(strip, name.len() as int)
}

} // verus!
