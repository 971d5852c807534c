//! The answer to every player action.

use crate::manager::ManagerActionResult;
use vstd::prelude::*;

verus! {

/// Whether an action succeeded, and if not, why.
#[derive(Debug, PartialEq)]
pub struct ActionResponse {
    pub success: bool,
    /// `None` on success; the reason of the failure otherwise.
    pub error_message: Option<String>,
}

impl ActionResponse {
    /// The response to the result of an action.
    pub fn new(manager_action_result: ManagerActionResult) -> (r: ActionResponse)
        ensures
            r.success == manager_action_result is Ok,
            match manager_action_result {
                Ok(_) => r.error_message is None,
                Err(e) => r.error_message == Some(e),
            },
    {
        match manager_action_result {
            Ok(_) => ActionResponse { success: true, error_message: None },
            Err(e) => ActionResponse { success: false, error_message: Some(e) },
        }
    }
}

} // verus!
