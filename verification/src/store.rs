//! What the journal database keeps of a tracked object.

use vstd::prelude::*;

verus! {

/// An object as stored in the database.
pub struct StoredObject {
    pub object_id: String,
    pub workflow_id: String,
    pub current_state: String,
    pub frozen: bool,
}

} // verus!
