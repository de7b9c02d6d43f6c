//! Review prompts.

use vstd::prelude::*;

use crate::domain::ids::{PromptId, RepoId};
use crate::text::{
    is_blank, to_chars, trim, trimmed, trimmed_end, trimmed_is_empty_iff_blank, trimmed_start,
};
use crate::time::Timestamp;

verus! {

/// A non-empty prompt text, without white space at either end.
#[derive(Debug)]
pub struct PromptText(String);

impl View for PromptText {
    type V = Seq<char>;

    closed spec fn view(&self) -> Seq<char> {
        self.0@
    }
}

/// The texts that a prompt can have: not empty, and trimmed.
pub open spec fn is_prompt_text(s: Seq<char>) -> bool {
    s.len() > 0 && trimmed(s) == s
}

impl PromptText {
    #[verifier::type_invariant]
    spec fn is_valid(self) -> bool {
        is_prompt_text(self.0@)
    }

    /// Makes a prompt text of a string by trimming it. Gives none where only white space, or
    /// nothing, is there.
    pub fn new(s: String) -> (r: Option<PromptText>)
        ensures
            match r {
                Some(text) => !is_blank(s@) && text@ == trimmed(s@),
                None => is_blank(s@),
            },
    {
        let chars = to_chars(s.as_str());
        let text = trim(&chars);
        proof {
            trimmed_is_empty_iff_blank(s@);
        }
        if text.as_str().is_empty() {
            None
        } else {
            proof {
                trimming_twice(s@);
            }
            Some(PromptText(text))
        }
    }

    /// The prompt's text.
    pub fn as_str(&self) -> (r: &str)
        ensures
            r@ == self@,
            is_prompt_text(r@),
    {
        proof {
            use_type_invariant(self);
        }
        self.0.as_str()
    }
}

impl Clone for PromptText {
    fn clone(&self) -> (r: PromptText)
        ensures
            r == *self,
    {
        proof {
            use_type_invariant(self);
        }
        PromptText(self.0.clone())
    }
}

/// Trimming a text a second time changes nothing.
pub proof fn trimming_twice(s: Seq<char>)
    ensures
        trimmed(trimmed(s)) == trimmed(s),
{
    trimmed_is_empty_iff_blank(s);
}

/// A prompt associated with a repository.
#[derive(Debug)]
pub struct Prompt {
    /// The prompt's id.
    pub id: PromptId,
    /// The repository it belongs to.
    pub repo_id: RepoId,
    /// Its name.
    pub name: String,
    /// Its text.
    pub text: PromptText,
    /// Whether reviews run it.
    pub enabled: bool,
    /// Whether it is the repository's default prompt, which cannot be deleted.
    pub is_default: bool,
    /// When it was created.
    pub created_at: Timestamp,
}

impl Clone for Prompt {
    fn clone(&self) -> (r: Prompt)
        ensures
            r == *self,
    {
        Prompt {
            id: self.id,
            repo_id: self.repo_id,
            name: self.name.clone(),
            text: self.text.clone(),
            enabled: self.enabled,
            is_default: self.is_default,
            created_at: self.created_at,
        }
    }
}

/// Input for creating a new prompt.
#[derive(Debug)]
pub struct NewPrompt {
    /// The repository it is for.
    pub repo_id: RepoId,
    /// Its name.
    pub name: String,
    /// Its text.
    pub text: PromptText,
    /// Whether it is the repository's default prompt.
    pub is_default: bool,
}

/// The default comprehensive code review prompt.
pub const DEFAULT_REVIEW_PROMPT: &'static str = r#"You are a senior software engineer conducting a comprehensive code review.

Analyze this codebase thoroughly, focusing on:

1. **Architecture & Design**: Overall structure, separation of concerns, design patterns used
2. **Code Quality**: Readability, maintainability, naming conventions, code organization
3. **Potential Bugs**: Logic errors, edge cases, race conditions, null/undefined handling
4. **Security**: Input validation, authentication/authorization issues, data exposure
5. **Performance**: Inefficient algorithms, unnecessary allocations, N+1 queries
6. **Testing**: Test coverage gaps, untested edge cases
7. **Documentation**: Missing or outdated documentation, unclear code sections

Be specific and actionable in your feedback. Reference specific files and line numbers where applicable.
Prioritize issues by severity: critical > major > minor > suggestion."#;

/// The default prompt is a prompt text as it stands.
pub proof fn default_prompt_is_valid()
    ensures
        is_prompt_text(DEFAULT_REVIEW_PROMPT@),
        !is_blank(DEFAULT_REVIEW_PROMPT@),
{
    reveal_strlit(
        r#"You are a senior software engineer conducting a comprehensive code review.

Analyze this codebase thoroughly, focusing on:

1. **Architecture & Design**: Overall structure, separation of concerns, design patterns used
2. **Code Quality**: Readability, maintainability, naming conventions, code organization
3. **Potential Bugs**: Logic errors, edge cases, race conditions, null/undefined handling
4. **Security**: Input validation, authentication/authorization issues, data exposure
5. **Performance**: Inefficient algorithms, unnecessary allocations, N+1 queries
6. **Testing**: Test coverage gaps, untested edge cases
7. **Documentation**: Missing or outdated documentation, unclear code sections

Be specific and actionable in your feedback. Reference specific files and line numbers where applicable.
Prioritize issues by severity: critical > major > minor > suggestion."#,
    );
    let s = DEFAULT_REVIEW_PROMPT@;
    assert(s[0] == 'Y');
    assert(s.last() == '.');
    assert(trimmed_start(s) == s);
    assert(trimmed_end(s) == s);
}

} // verus!
