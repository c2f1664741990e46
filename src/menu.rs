//! The operator's version query: what the menu reports once the controller
//! has answered.
use vstd::prelude::*;

verus! {

/// How a menu action ended.
pub enum MenuResult {
    Success,
    Failed(String),
}

/// The menu that asks the controller for its software and protocol versions.
pub struct GetVersionsMenu;

impl GetVersionsMenu {
    /// The outcome of the query: success when both versions came back, else
    /// the failure with its message.
    pub fn outcome(fetched: &Result<(String, u32), String>) -> (r: MenuResult)
        ensures
            fetched is Ok <==> r is Success,
            fetched is Err ==> r->Failed_0@ == fetched->Err_0@,
    {
        match fetched {
            Ok(_) => MenuResult::Success,
            Err(message) => MenuResult::Failed(message.clone()),
        }
    }
}

} // verus!
