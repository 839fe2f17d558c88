//! The MCP tools' logic: which round a request works on, taken from the
//! action its headers name, and what the tools answer.

use vstd::prelude::*;
use crate::storage::{Action, ArtifactType, LocalStorage};

verus! {

/// The round an MCP request works on.
pub struct McpSessionContext {
    pub project_id: String,
    pub task_id: String,
    pub round_id: String,
}

/// The MCP server, over Adjent's local state.
pub struct AdjentMcpServer {
    pub storage: LocalStorage,
}

pub struct ListArtifactsParams {
    pub artifact_type: ArtifactType,
}

pub struct ReadArtifactParams {
    pub artifact_type: ArtifactType,
    pub filename: String,
}

pub struct WriteArtifactParams {
    pub artifact_type: ArtifactType,
    pub filename: String,
    pub content: String,
}

/// Why an MCP request cannot be scoped to a round.
#[derive(Clone, Copy, Debug, PartialEq, Eq, Structural)]
pub enum McpError {
    /// The HTTP request's parts are not attached to the MCP request.
    MissingRequestParts,
    /// No `X-Adjent-ProjectId` header (or not valid text).
    MissingProjectHeader,
    /// No `X-Adjent-ActionId` header (or not valid text).
    MissingActionHeader,
    /// The header names no stored action.
    ActionNotFound,
    /// The artifact file name is absolute, names no file, or goes through
    /// `..`, so it would not stay below its round.
    InvalidFilename,
}

impl McpError {
    /// The message sent back with the error.
    pub fn message(&self) -> (m: &'static str)
        ensures
            *self == McpError::MissingRequestParts ==> m@ == "Missing request parts in extensions"@,
            *self == McpError::MissingProjectHeader ==> m@ == "Missing X-Adjent-ProjectId header"@,
            *self == McpError::MissingActionHeader ==> m@ == "Missing X-Adjent-ActionId header"@,
            *self == McpError::ActionNotFound ==> m@ == "Action not found"@,
            *self == McpError::InvalidFilename ==> m@
                == "Invalid artifact file name: it must be a relative path below the round"@,
    {
        match self {
            McpError::MissingRequestParts => "Missing request parts in extensions",
            McpError::MissingProjectHeader => "Missing X-Adjent-ProjectId header",
            McpError::MissingActionHeader => "Missing X-Adjent-ActionId header",
            McpError::ActionNotFound => "Action not found",
            McpError::InvalidFilename => "Invalid artifact file name: it must be a relative path below the round",
        }
    }

    /// Whether the error is the client's (invalid parameters) rather than
    /// the server's (internal error).
    pub fn is_invalid_params(&self) -> (b: bool)
        ensures
            b == (*self != McpError::MissingRequestParts),
    {
        match self {
            McpError::MissingRequestParts => false,
            _ => true,
        }
    }
}

/// The project and action a request names in its headers, project first.
pub fn session_headers(project_header: Option<String>, action_header: Option<String>) -> (r:
    Result<(String, String), McpError>)
    ensures
        project_header is None ==> r == Err::<(String, String), McpError>(
            McpError::MissingProjectHeader,
        ),
        project_header is Some && action_header is None ==> r == Err::<(String, String), McpError>(
            McpError::MissingActionHeader,
        ),
        project_header is Some && action_header is Some ==> r == Ok::<(String, String), McpError>(
            (project_header->0, action_header->0),
        ),
{
    match project_header {
        None => Err(McpError::MissingProjectHeader),
        Some(p) => match action_header {
            None => Err(McpError::MissingActionHeader),
            Some(a) => Ok((p, a)),
        },
    }
}

/// The round of the action a request names: the action's own project,
/// task and round.
pub fn session_from_action(stored: Option<Action>) -> (r: Result<McpSessionContext, McpError>)
    ensures
        stored is None ==> r is Err && r->Err_0 == McpError::ActionNotFound,
        stored matches Some(a) ==> (r matches Ok(ctx) && ctx.project_id == a.project_id
            && ctx.task_id == a.task_id && ctx.round_id == a.round_id),
{
    match stored {
        None => Err(McpError::ActionNotFound),
        Some(a) => Ok(
            McpSessionContext { project_id: a.project_id, task_id: a.task_id, round_id: a.round_id },
        ),
    }
}

/// The lines joined by `\n`, as `[..].join("\n")`.
pub open spec fn spec_join_lines(lines: Seq<Seq<char>>) -> Seq<char>
    decreases lines.len(),
{
    if lines.len() == 0 {
        seq![]
    } else if lines.len() == 1 {
        lines[0]
    } else {
        spec_join_lines(lines.drop_last()) + seq!['\n'] + lines.last()
    }
}

/// What `list_artifacts` answers: the file names, one per line.
pub fn artifact_listing(names: &Vec<String>) -> (text: String)
    ensures
        text@ == spec_join_lines(crate::paths::texts(names@)),
{
    let ghost lines = crate::paths::texts(names@);
    let mut text = String::new();
    let n = names.len();
    for i in 0..n
        invariant
            n == names@.len(),
            lines == crate::paths::texts(names@),
            text@ == spec_join_lines(lines.take(i as int)),
    {
        assert(lines.take(i + 1).drop_last() =~= lines.take(i as int));
        if i > 0 {
            crate::text::push_char(&mut text, '\n');
        }
        text.append(names[i].as_str());
        assert(text@ =~= spec_join_lines(lines.take(i + 1)));
    }
    assert(lines.take(n as int) =~= lines);
    text
}

/// What `write_artifact` answers: `Successfully wrote [filename]`.
pub fn write_confirmation(filename: &str) -> (m: String)
    ensures
        m@ == "Successfully wrote "@ + filename@,
{
    let mut m = String::from_str("Successfully wrote ");
    m.append(filename);
    m
}

/// What `read_artifact` answers for a missing file: `File not found: [filename]`.
pub fn file_not_found_message(filename: &str) -> (m: String)
    ensures
        m@ == "File not found: "@ + filename@,
{
    let mut m = String::from_str("File not found: ");
    m.append(filename);
    m
}

} // verus!
