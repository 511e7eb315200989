//! The MCP server's decisions: which registered tool a call names, and how
//! a handler's outcome becomes the tool's result.
use vstd::prelude::*;
use crate::text::{cat, str_eq, views};

verus! {

/// The message for a call of a tool that is not registered.
pub open spec fn unknown_tool_message(name: Seq<char>) -> Seq<char> {
    "unknown tool: "@ + name
}

/// The first registered tool named `name`, or the invalid-params message.
pub fn find_tool(names: &Vec<String>, name: &str) -> (r: Result<usize, String>)
    ensures
        match r {
            Ok(i) => i < names@.len() && names@[i as int]@ == name@
                && forall|k: int| 0 <= k < i ==> names@[k]@ != name@,
            Err(m) => !views(names@).contains(name@) && m@ == unknown_tool_message(name@),
        },
{
    let mut i: usize = 0;
    while i < names.len()
        invariant
            i <= names@.len(),
            forall|k: int| 0 <= k < i ==> names@[k]@ != name@,
        decreases names@.len() - i,
    {
        if str_eq(names[i].as_str(), name) {
            return Ok(i);
        }
        i += 1;
    }
    assert forall|k: int| 0 <= k < views(names@).len() implies views(names@)[k] != name@ by {
        assert(views(names@)[k] == names@[k]@);
    }
    Err(cat("unknown tool: ", name))
}

/// How a handler's outcome becomes a tool result: its JSON text on
/// success, the message of a serialization failure, or the handler's error
/// message as it is (never wrapped a second time).
pub fn tool_result(outcome: Result<Result<String, String>, String>) -> (r: Result<String, String>)
    ensures
        match outcome {
            Ok(Ok(json)) => r == Ok::<String, String>(json),
            Ok(Err(e)) => r matches Err(m) && m@ == "failed to serialize MCP response: "@ + e@,
            Err(e) => r == Err::<String, String>(e),
        },
{
    match outcome {
        Ok(Ok(json)) => Ok(json),
        Ok(Err(e)) => Err(cat("failed to serialize MCP response: ", e.as_str())),
        Err(e) => Err(e),
    }
}

} // verus!
