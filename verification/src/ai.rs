//! The conversation with the coding assistant: messages, and the request
//! that asks it for suggestions.
use vstd::prelude::*;
use crate::text::string_of;

verus! {

/// Who speaks a message.
#[derive(Copy, Clone, Debug, PartialEq, Eq, Structural)]
pub enum Role {
    User,
    System,
    Assistant,
}

impl Role {
    /// The name of the role in a message.
    pub fn as_str(&self) -> (r: &'static str)
        ensures
            r@ == (match self {
                Role::User => "user"@,
                Role::System => "system"@,
                Role::Assistant => "assistant"@,
            }),
    {
        match self {
            Role::User => "user",
            Role::System => "system",
            Role::Assistant => "assistant",
        }
    }
}

/// A message: its role and its text.
pub fn message(role: Role, content: &str) -> (r: (String, String))
    ensures
        r.0@ == (match role {
            Role::User => "user"@,
            Role::System => "system"@,
            Role::Assistant => "assistant"@,
        }),
        r.1@ == content@,
{
    (string_of(role.as_str()), string_of(content))
}

/// The instructions that open every request for suggestions.
pub const SYSTEM_PROMPT: &'static str = r#"You are a helpful coding assistant.
                    You will be provided with code snippets and you will provide a response with logical, architectural
                    and bottleneck improvements to the code snippet. You will provide explanation with changed code only.
                    If you don't understand the code, or lack context to make a useful suggestion, you will not provide
                    any suggestions and will specify that you lack the required information. You will limit your response
                    to 300 characters for the explanation, and only the required code changes. Output a JSON array.
                    Every element in the JSON array should have the following fields:

                    - suggestion: A one line suggestion telling what changes are needed. This should be a single line only.
                    - explanation: An explanation as to why the suggestion is made. This should be not more than a 100 words.
                    - code_language: The programming language of the code changes. This should be comptaible with markdown languages.
                    For example, "Rust" won't work since ```Rust doesn't work in markdown. It has to be "rust", since ```rust works in markdown.
                    - code_changes: The code changes needed to implement the suggestion.
                    - file: The path of the file relative to the project directory.
                    - line_no: The line number where this suggestion should be applied.


                    Here's an example of the output:
                    [
                    {
                    "suggestion": "Suggestion 1",
                    "explanation": "Explanation for suggestion 1",
                    "code_language": "rust",
                    "code_changes": "Code changes for suggestion 1",
                    "line_no": 10,
                    "file": "Name of the file"
                    },
                    {
                    "suggestion": "Suggestion 2",
                    "explanation": "Explanation for suggestion 2",
                    "code_language": "js",
                    "code_changes": "Code changes for suggestion 2",
                    "line_no": 1,
                    "file": "Name of the file"
                    }
                    ]"#;

/// The messages of a request for suggestions: the instructions as a system
/// message, then the given messages in order.
pub fn prompt_messages(msgs: &Vec<(String, String)>) -> (r: Vec<(String, String)>)
    ensures
        r@.len() == msgs@.len() + 1,
        r@[0].0@ == "system"@,
        r@[0].1@ == SYSTEM_PROMPT@,
        forall|i: int| 0 <= i < msgs@.len() ==> #[trigger] r@[i + 1].0@ == msgs@[i].0@ && r@[i + 1].1@ == msgs@[i].1@,
{
    let mut r: Vec<(String, String)> = Vec::new();
    r.push((string_of("system"), string_of(SYSTEM_PROMPT)));
    let mut i: usize = 0;
    while i < msgs.len()
        invariant
            i <= msgs.len(),
            r@.len() == i + 1,
            r@[0].0@ == "system"@,
            r@[0].1@ == SYSTEM_PROMPT@,
            forall|j: int| 0 <= j < i ==> #[trigger] r@[j + 1].0@ == msgs@[j].0@ && r@[j + 1].1@ == msgs@[j].1@,
        decreases msgs.len() - i,
    {
        r.push((msgs[i].0.clone(), msgs[i].1.clone()));
        i = i + 1;
    }
    r
}

/// One suggestion of the assistant.
#[derive(Debug)]
pub struct AiResponse {
    pub suggestion: String,
    pub explanation: String,
    pub code_language: String,
    pub code_changes: String,
    pub line_no: u32,
    pub file: String,
}

} // verus!
