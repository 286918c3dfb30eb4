//! Validation of tool-call arguments against the tool's JSON schema.

use vstd::prelude::*;
use vstd::string::StringExecFns;
use crate::error::{Error, ErrorView};
use crate::types::content::{ToolCall, ToolCallView};
use crate::types::tool::{Tool, ToolView};
use crate::utils::json::{json_text, json_to_text};
use crate::utils::text::{contains_seq, str_contains, str_eq};

verus! {

/// The text that `serde_json::to_string_pretty` writes for `value`.
pub uninterp spec fn json_pretty_text(value: serde_json::Value) -> Seq<char>;

/// Calls `serde_json::to_string_pretty`, which writes the value as indented
/// JSON.
#[verifier::external_body]
fn json_to_pretty_text(value: &serde_json::Value) -> (text: String)
    ensures
        text@ == json_pretty_text(*value),
{
    serde_json::to_string_pretty(value).unwrap_or_default()
}

/// Whether `jsonschema` compiles `schema` as a draft-7 JSON schema.
pub uninterp spec fn schema_compiles(schema: serde_json::Value) -> bool;

/// Whether `instance` is valid against the draft-7 JSON schema `schema`, as
/// `jsonschema` judges it.
pub uninterp spec fn schema_accepts(schema: serde_json::Value, instance: serde_json::Value) -> bool;

/// Whether a schema holds no reference: its compact text nowhere reads
/// `$ref`, so no object in it has a `$ref` member.
///
/// A schema with a reference that leads back to itself, such as
/// `{"$ref": "#"}`, makes `jsonschema` follow the reference without end. Which
/// references do so is for its resolver to say; a schema without any is safe.
pub open spec fn reference_free(schema: serde_json::Value) -> bool {
    !contains_seq(json_text(schema), "$ref"@)
}

/// Whether a schema holds no reference.
pub fn holds_no_reference(schema: &serde_json::Value) -> (free: bool)
    ensures
        free == reference_free(*schema),
{
    let text = json_to_text(schema);
    !str_contains(text.as_str(), "$ref")
}

/// Compiles `schema` as a draft-7 JSON schema with `jsonschema`'s
/// `CompilationOptions::compile` and validates `instance` against it with
/// `JSONSchema::validate`. Returns the compile error's text where the schema
/// does not compile; otherwise every violation that is reported, as the path
/// of the offending value and the violation's text: none exactly where the
/// instance is valid. Nothing more is promised of what is found, nor of its
/// order.
///
/// `jsonschema` builds a reference validator only for an object with a
/// `$ref` member, and only a reference validator can lead validation back to
/// where it was; with no `$ref` in the schema both calls descend the schema
/// and return. Schemas that hold one are left out.
#[verifier::external_body]
fn check_against_schema(schema: &serde_json::Value, instance: &serde_json::Value) -> (checked:
    Result<Vec<(String, String)>, String>)
    requires
        reference_free(*schema),
    ensures
        checked.is_ok() == schema_compiles(*schema),
        checked.is_ok() ==> (checked.unwrap().len() == 0) == schema_accepts(*schema, *instance),
{
    let compiled = match jsonschema::JSONSchema::options().with_draft(
        jsonschema::Draft::Draft7,
    ).compile(schema) {
        Ok(compiled) => compiled,
        Err(error) => return Err(error.to_string()),
    };
    let found = match compiled.validate(instance) {
        Ok(()) => Vec::new(),
        Err(errors) => errors.map(|e| (e.instance_path.to_string(), e.to_string())).collect(),
    };
    Ok(found)
}

/// One line of a validation report. A violation at the top of the arguments
/// is reported under `root`.
pub open spec fn violation_line(path: Seq<char>, violation: Seq<char>) -> Seq<char> {
    "  - "@ + (if path.len() == 0 {
        "root"@
    } else {
        path
    }) + ": "@ + violation
}

/// The lines of a validation report joined by line feeds.
pub open spec fn violation_lines(violations: Seq<(Seq<char>, Seq<char>)>) -> Seq<char>
    decreases violations.len(),
{
    if violations.len() == 0 {
        Seq::empty()
    } else if violations.len() == 1 {
        violation_line(violations[0].0, violations[0].1)
    } else {
        violation_lines(violations.drop_last()) + seq!['\n'] + violation_line(
            violations.last().0,
            violations.last().1,
        )
    }
}

/// The report of arguments that violate their schema.
pub open spec fn validation_report(
    tool_name: Seq<char>,
    violations: Seq<(Seq<char>, Seq<char>)>,
    arguments: serde_json::Value,
) -> Seq<char> {
    "Validation failed for tool \""@ + tool_name + "\":\n"@ + violation_lines(violations)
        + "\n\nReceived arguments:\n"@ + json_pretty_text(arguments)
}

/// What a check comes to: the arguments themselves where nothing was found,
/// and `ToolValidationFailed` with a report of what was found, or with the
/// schema's compile error, otherwise.
pub open spec fn validation_outcome(
    tool_call: ToolCallView,
    checked: Result<Seq<(Seq<char>, Seq<char>)>, Seq<char>>,
) -> Result<serde_json::Value, ErrorView> {
    match checked {
        Err(schema_error) => Err(
            ErrorView::ToolValidationFailed("Schema compile error: "@ + schema_error),
        ),
        Ok(violations) => if violations.len() == 0 {
            Ok(tool_call.arguments)
        } else {
            Err(
                ErrorView::ToolValidationFailed(
                    validation_report(tool_call.name, violations, tool_call.arguments),
                ),
            )
        },
    }
}

/// The views of a check.
pub open spec fn check_view(checked: Result<Vec<(String, String)>, String>) -> Result<
    Seq<(Seq<char>, Seq<char>)>,
    Seq<char>,
> {
    match checked {
        Ok(violations) => Ok(violations.deep_view()),
        Err(schema_error) => Err(schema_error@),
    }
}

/// The views of a validation result.
pub open spec fn validated_view(validated: Result<serde_json::Value, Error>) -> Result<
    serde_json::Value,
    ErrorView,
> {
    match validated {
        Ok(arguments) => Ok(arguments),
        Err(error) => Err(error.deep_view()),
    }
}

/// Turns what a schema check found into the result of the validation.
pub fn conclude_validation(
    tool_call: &ToolCall,
    checked: Result<Vec<(String, String)>, String>,
) -> (validated: Result<serde_json::Value, Error>)
    ensures
        validated_view(validated) == validation_outcome(tool_call.deep_view(), check_view(checked)),
{
    let violations = match checked {
        Ok(violations) => violations,
        Err(schema_error) => {
            let mut text = "Schema compile error: ".to_owned();
            text.append(schema_error.as_str());
            return Err(Error::ToolValidationFailed(text));
        },
    };
    if violations.len() == 0 {
        return Ok(tool_call.arguments.clone());
    }
    let ghost views = violations.deep_view();
    let mut lines = String::new();
    let mut i: usize = 0;
    assert(views.take(0) =~= Seq::<(Seq<char>, Seq<char>)>::empty());
    while i < violations.len()
        invariant
            i <= violations.len(),
            views == violations.deep_view(),
            lines@ == violation_lines(views.take(i as int)),
        decreases violations.len() - i,
    {
        proof {
            assert(views.take(i + 1).drop_last() =~= views.take(i as int));
            assert(views.take(i + 1).last() == violations[i as int].deep_view());
            reveal_strlit("\n");
            assert("\n"@ =~= seq!['\n']);
        }
        let ghost before = lines@;
        if i > 0 {
            lines.append("\n");
        }
        lines.append("  - ");
        if violations[i].0.as_str().is_empty() {
            lines.append("root");
        } else {
            lines.append(violations[i].0.as_str());
        }
        lines.append(": ");
        lines.append(violations[i].1.as_str());
        proof {
            let line = violation_line(violations[i as int].0@, violations[i as int].1@);
            if i == 0 {
                assert(lines@ =~= line);
                assert(views.take(1)[0] == violations[0].deep_view());
            } else {
                assert(lines@ =~= before + seq!['\n'] + line);
            }
        }
        i += 1;
    }
    assert(views.take(violations.len() as int) =~= views);
    let mut report = "Validation failed for tool \"".to_owned();
    report.append(tool_call.name.as_str());
    report.append("\":\n");
    report.append(lines.as_str());
    report.append("\n\nReceived arguments:\n");
    report.append(json_to_pretty_text(&tool_call.arguments).as_str());
    Err(Error::ToolValidationFailed(report))
}

/// Whether a tool's schema compiles and accepts the arguments.
pub open spec fn arguments_fit(schema: serde_json::Value, arguments: serde_json::Value) -> bool {
    schema_compiles(schema) && schema_accepts(schema, arguments)
}

/// Whether `validated` is what validating a tool call against `schema` comes
/// to: the arguments exactly where the schema compiles and accepts them, and
/// `ToolValidationFailed` otherwise, with what [`validation_outcome`] makes of
/// whatever the schema check found.
pub open spec fn validated_against(
    schema: serde_json::Value,
    tool_call: ToolCallView,
    validated: Result<serde_json::Value, Error>,
) -> bool {
    &&& validated.is_ok() == arguments_fit(schema, tool_call.arguments)
    &&& validated.is_ok() ==> validated.unwrap() == tool_call.arguments
    &&& validated.is_err() ==> validated_view(validated)->Err_0 is ToolValidationFailed
    &&& exists|checked: Result<Seq<(Seq<char>, Seq<char>)>, Seq<char>>|
        validated_view(validated) == validation_outcome(tool_call, checked)
}

/// Validates the arguments of a tool call against the tool's JSON schema.
///
/// Returns the arguments exactly where the schema compiles and accepts them,
/// and fails with `ToolValidationFailed` otherwise. What the failure reports
/// is the `jsonschema` crate's to say; whatever it finds, the result is what
/// [`validation_outcome`] makes of it.
///
/// The schema must hold no reference; [`try_validate_tool_arguments`] tests
/// that first.
pub fn validate_tool_arguments(tool: &Tool, tool_call: &ToolCall) -> (validated: Result<
    serde_json::Value,
    Error,
>)
    requires
        reference_free(tool.parameters),
    ensures
        validated_against(tool.parameters, tool_call.deep_view(), validated),
{
    let checked = check_against_schema(&tool.parameters, &tool_call.arguments);
    let ghost witness = check_view(checked);
    let validated = conclude_validation(tool_call, checked);
    assert(validated_view(validated) == validation_outcome(tool_call.deep_view(), witness));
    validated
}

/// Validates the arguments of a tool call against the tool's JSON schema,
/// unless the schema holds a reference: then nothing is validated and the
/// result is `None`.
pub fn try_validate_tool_arguments(tool: &Tool, tool_call: &ToolCall) -> (validated: Option<
    Result<serde_json::Value, Error>,
>)
    ensures
        validated.is_some() == reference_free(tool.parameters),
        validated.is_some() ==> validated_against(
            tool.parameters,
            tool_call.deep_view(),
            validated.unwrap(),
        ),
{
    if holds_no_reference(&tool.parameters) {
        Some(validate_tool_arguments(tool, tool_call))
    } else {
        None
    }
}

/// Whether the tool at index `at` is the first of the given name.
pub open spec fn is_first_tool(tools: Seq<ToolView>, name: Seq<char>, at: int) -> bool {
    &&& 0 <= at < tools.len()
    &&& tools[at].name == name
    &&& forall|k: int| 0 <= k < at ==> (#[trigger] tools[k]).name != name
}

/// Whether a tool of the given name is among the tools.
pub open spec fn has_tool(tools: Seq<ToolView>, name: Seq<char>) -> bool {
    exists|i: int| 0 <= i < tools.len() && (#[trigger] tools[i]).name == name
}

/// Whether `validated` is what validating a tool call against the tools on
/// offer comes to: `ToolNotFound` where no tool has the call's name, and
/// otherwise what validating against the schema of the first tool of that
/// name comes to.
pub open spec fn validated_among(
    tools: Seq<ToolView>,
    tool_call: ToolCallView,
    validated: Result<serde_json::Value, Error>,
) -> bool {
    &&& !has_tool(tools, tool_call.name) ==> validated_view(validated) == Err::<
        serde_json::Value,
        ErrorView,
    >(ErrorView::ToolNotFound(tool_call.name))
    &&& forall|at: int|
        is_first_tool(tools, tool_call.name, at) ==> validated_against(
            (#[trigger] tools[at]).parameters,
            tool_call,
            validated,
        )
}

/// Whether the first tool of the given name, if there is one, has a schema
/// that holds no reference.
pub open spec fn named_tool_reference_free(tools: Seq<ToolView>, name: Seq<char>) -> bool {
    forall|at: int| is_first_tool(tools, name, at) ==> reference_free((#[trigger] tools[at]).parameters)
}

/// The index of the first tool of the given name.
pub fn find_tool(tools: &[Tool], name: &str) -> (found: Option<usize>)
    ensures
        match found {
            Some(at) => is_first_tool(tools.deep_view(), name@, at as int),
            None => !has_tool(tools.deep_view(), name@),
        },
{
    let ghost views = tools.deep_view();
    let mut i: usize = 0;
    while i < tools.len()
        invariant
            i <= tools.len(),
            views == tools.deep_view(),
            forall|k: int| 0 <= k < i ==> (#[trigger] views[k]).name != name@,
        decreases tools.len() - i,
    {
        assert(views[i as int] == tools[i as int].deep_view());
        if str_eq(tools[i].name.as_str(), name) {
            return Some(i);
        }
        i += 1;
    }
    None
}

/// The first tool of a name is one tool only.
proof fn lemma_first_tool_unique(tools: Seq<ToolView>, name: Seq<char>, first: int)
    requires
        is_first_tool(tools, name, first),
    ensures
        forall|at: int| is_first_tool(tools, name, at) ==> at == first,
        has_tool(tools, name),
{
    assert forall|at: int| is_first_tool(tools, name, at) implies at == first by {
        if at < first {
            assert(tools[at].name != name);
        } else if at > first {
            assert(tools[first].name != name);
        }
    }
}

/// Validates a tool call against the tools on offer: finds the first tool of
/// the call's name and validates the arguments against its schema.
///
/// Fails with `ToolNotFound` where no tool has that name. Otherwise returns
/// the arguments exactly where the schema of the first tool of that name
/// compiles and accepts them, and fails with `ToolValidationFailed` where it
/// does not.
///
/// The schema of that tool must hold no reference; [`try_validate_tool_call`]
/// tests that first.
pub fn validate_tool_call(tools: &[Tool], tool_call: &ToolCall) -> (validated: Result<
    serde_json::Value,
    Error,
>)
    requires
        named_tool_reference_free(tools.deep_view(), tool_call.name@),
    ensures
        validated_among(tools.deep_view(), tool_call.deep_view(), validated),
{
    match find_tool(tools, tool_call.name.as_str()) {
        Some(at) => {
            proof {
                lemma_first_tool_unique(tools.deep_view(), tool_call.name@, at as int);
                assert(tools.deep_view()[at as int] == tools[at as int].deep_view());
            }
            validate_tool_arguments(&tools[at], tool_call)
        },
        None => {
            assert forall|at: int|
                is_first_tool(tools.deep_view(), tool_call.name@, at) implies validated_against(
                (#[trigger] tools.deep_view()[at]).parameters,
                tool_call.deep_view(),
                Err(Error::ToolNotFound(tool_call.name)),
            ) by {
                assert(has_tool(tools.deep_view(), tool_call.name@));
            }
            Err(Error::ToolNotFound(tool_call.name.clone()))
        },
    }
}

/// Validates a tool call against the tools on offer, unless the schema of the
/// first tool of the call's name holds a reference: then nothing is validated
/// and the result is `None`.
pub fn try_validate_tool_call(tools: &[Tool], tool_call: &ToolCall) -> (validated: Option<
    Result<serde_json::Value, Error>,
>)
    ensures
        validated.is_some() == named_tool_reference_free(tools.deep_view(), tool_call.name@),
        validated.is_some() ==> validated_among(
            tools.deep_view(),
            tool_call.deep_view(),
            validated.unwrap(),
        ),
{
    match find_tool(tools, tool_call.name.as_str()) {
        Some(at) => {
            proof {
                lemma_first_tool_unique(tools.deep_view(), tool_call.name@, at as int);
                assert(tools.deep_view()[at as int] == tools[at as int].deep_view());
            }
            if holds_no_reference(&tools[at].parameters) {
                Some(validate_tool_call(tools, tool_call))
            } else {
                None
            }
        },
        None => {
            assert forall|at: int|
                is_first_tool(tools.deep_view(), tool_call.name@, at) implies reference_free(
                (#[trigger] tools.deep_view()[at]).parameters,
            ) by {
                assert(has_tool(tools.deep_view(), tool_call.name@));
            }
            Some(validate_tool_call(tools, tool_call))
        },
    }
}

} // verus!
