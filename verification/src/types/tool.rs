//! Tool definitions offered to a model.

use vstd::prelude::*;

verus! {

/// A function the model may ask to have run, with the JSON schema of its
/// arguments.
#[derive(Debug)]
pub struct Tool {
    pub name: String,
    pub description: String,
    pub parameters: serde_json::Value,
}

/// What a value of [`Tool`] says, with strings as character sequences.
pub struct ToolView {
    pub name: Seq<char>,
    pub description: Seq<char>,
    pub parameters: serde_json::Value,
}

impl DeepView for Tool {
    type V = ToolView;

    open spec fn deep_view(&self) -> ToolView {
        ToolView {
            name: self.name@,
            description: self.description@,
            parameters: self.parameters,
        }
    }
}

impl Clone for Tool {
    fn clone(&self) -> (copy: Self)
        ensures
            copy.deep_view() == self.deep_view(),
    {
        Tool {
            name: self.name.clone(),
            description: self.description.clone(),
            parameters: self.parameters.clone(),
        }
    }
}

impl Tool {
    /// A tool of the given name, description and parameter schema.
    pub fn new(name: &str, description: &str, parameters: serde_json::Value) -> (tool: Self)
        ensures
            tool.deep_view() == (ToolView {
                name: name@,
                description: description@,
                parameters,
            }),
    {
        Tool { name: name.to_owned(), description: description.to_owned(), parameters }
    }
}

} // verus!
