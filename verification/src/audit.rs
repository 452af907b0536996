//! The audit trail entry that a command asks to be written.
use vstd::prelude::*;

use vstd::string::*;

use crate::text::opt_text;

verus! {

/// One row of the audit log, without the user and the time, which the caller
/// supplies when it writes the row.
pub struct AuditNote {
    pub action: String,
    pub target_type: String,
    pub target_id: Option<i64>,
    pub details: Option<String>,
}

impl AuditNote {
    /// This note records `action` on the target `target_type`/`target_id`
    /// with the given details.
    pub open spec fn describes(
        self,
        action: Seq<char>,
        target_type: Seq<char>,
        target_id: Option<i64>,
        details: Option<Seq<char>>,
    ) -> bool {
        &&& self.action@ == action
        &&& self.target_type@ == target_type
        &&& self.target_id == target_id
        &&& opt_text(self.details) == details
    }

    pub fn new(action: &str, target_type: &str, target_id: Option<i64>, details: Option<String>) -> (n: AuditNote)
        ensures
            n.describes(action@, target_type@, target_id, opt_text(details)),
    {
        AuditNote {
            action: String::from_str(action),
            target_type: String::from_str(target_type),
            target_id,
            details,
        }
    }
}

} // verus!
