//! Data model: the moderation action enumeration, rule rows as the store
//! delivers them, request/response shapes, and the generic API envelope.

use vstd::prelude::*;

verus! {

/// The three-valued moderation outcome. Serializes to its fixed
/// uppercase name, obtained from [`ModerationAction::label`].
#[derive(Clone, Copy, Debug, PartialEq, Eq, Structural)]
pub enum ModerationAction {
    Approved,
    Rejected,
    NeedsReview,
}

impl ModerationAction {
    /// The fixed uppercase name of this action.
    pub open spec fn label_spec(self) -> Seq<char> {
        match self {
            ModerationAction::Approved => "APPROVED"@,
            ModerationAction::Rejected => "REJECTED"@,
            ModerationAction::NeedsReview => "NEEDS_REVIEW"@,
        }
    }

    /// Renders the action as its fixed uppercase name.
    pub fn label(&self) -> (r: String)
        ensures
            r@ == self.label_spec(),
    {
        match self {
            ModerationAction::Approved => "APPROVED".to_owned(),
            ModerationAction::Rejected => "REJECTED".to_owned(),
            ModerationAction::NeedsReview => "NEEDS_REVIEW".to_owned(),
        }
    }
}

/// A comment submitted for moderation.
pub struct CommentRequest {
    pub content: String,
}

/// The decision handed back for one comment: an action label and,
/// when a rule matched, the reason.
pub struct ModerationResponse {
    pub status: String,
    pub reason: Option<String>,
}

/// A literal-word rule row as the store delivers it.
pub struct BadWordRow {
    pub id: i32,
    pub word: String,
    pub moderation_action: ModerationAction,
}

/// A request to create a literal-word rule.
pub struct BadWordCreate {
    pub word: String,
    pub action: ModerationAction,
}

/// A regex rule row as the store delivers it.
pub struct RegexRuleRow {
    pub id: i32,
    pub pattern: String,
    pub description: Option<String>,
    pub moderation_action: ModerationAction,
}

/// A request to create a regex rule.
pub struct RegexRuleCreate {
    pub pattern: String,
    pub description: Option<String>,
    pub action: ModerationAction,
}

/// A key/value setting row; opaque to the matching core.
pub struct SettingRow {
    pub key: String,
    pub value: String,
}

/// A request to insert or update a setting.
pub struct SettingInsert {
    pub key: String,
    pub value: String,
}

/// The envelope every administrative endpoint answers with.
pub struct ApiResponse<T> {
    pub success: bool,
    pub message: String,
    pub data: T,
}

} // verus!
