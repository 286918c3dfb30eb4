//! The identifier that ties a tool call to its result.

use vstd::prelude::*;
use vstd::std_specs::cmp::PartialEqSpecImpl;
use vstd::std_specs::convert::FromSpecImpl;

verus! {

/// Canonical tool call identifier. It carries no meaning beyond equality.
#[derive(Debug)]
pub struct ToolCallId(pub String);

impl DeepView for ToolCallId {
    type V = Seq<char>;

    open spec fn deep_view(&self) -> Seq<char> {
        self.0@
    }
}

impl View for ToolCallId {
    type V = Seq<char>;

    open spec fn view(&self) -> Seq<char> {
        self.0@
    }
}

impl ToolCallId {
    /// The identifier as a string slice.
    pub fn as_str(&self) -> (text: &str)
        ensures
            text@ == self@,
    {
        self.0.as_str()
    }

    /// Whether the identifier is the empty string.
    pub fn is_empty(&self) -> (empty: bool)
        ensures
            empty == (self@.len() == 0),
    {
        self.0.as_str().is_empty()
    }

    /// The identifier as its string.
    pub fn into_inner(self) -> (text: String)
        ensures
            text@ == self@,
    {
        self.0
    }

    /// The identifier as an owned string.
    pub fn to_string(&self) -> (text: String)
        ensures
            text@ == self@,
    {
        self.0.clone()
    }
}

impl Clone for ToolCallId {
    fn clone(&self) -> (copy: Self)
        ensures
            copy@ == self@,
    {
        ToolCallId(self.0.clone())
    }
}

impl PartialEq for ToolCallId {
    fn eq(&self, other: &Self) -> (same: bool)
    {
        self.0 == other.0
    }
}

impl PartialEqSpecImpl for ToolCallId {
    open spec fn obeys_eq_spec() -> bool {
        true
    }

    open spec fn eq_spec(&self, other: &Self) -> bool {
        self@ == other@
    }
}

impl Eq for ToolCallId {

}

impl From<String> for ToolCallId {
    fn from(value: String) -> (id: Self)
    {
        ToolCallId(value)
    }
}

impl FromSpecImpl<String> for ToolCallId {
    open spec fn obeys_from_spec() -> bool {
        true
    }

    open spec fn from_spec(value: String) -> Self {
        ToolCallId(value)
    }
}

impl From<&str> for ToolCallId {
    fn from(value: &str) -> (id: Self)
        ensures
            id@ == value@,
    {
        ToolCallId(value.to_owned())
    }
}

impl FromSpecImpl<&str> for ToolCallId {
    open spec fn obeys_from_spec() -> bool {
        false
    }

    open spec fn from_spec(value: &str) -> Self {
        arbitrary()
    }
}

impl From<ToolCallId> for String {
    fn from(value: ToolCallId) -> (text: Self)
    {
        value.0
    }
}

impl FromSpecImpl<ToolCallId> for String {
    open spec fn obeys_from_spec() -> bool {
        true
    }

    open spec fn from_spec(value: ToolCallId) -> Self {
        value.0
    }
}

} // verus!
