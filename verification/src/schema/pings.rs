use vstd::prelude::*;

verus! {

/// What is sent to the notification service: the user to notify and the
/// message.
#[derive(Debug, Clone)]
pub struct PingsBody {
    pub username: String,
    pub body: String,
}

} // verus!
