//! What to do with a record once the store has been asked for its access
//! point. The store itself is the caller's: this module only decides.

use vstd::prelude::*;
use vstd::string::*;
use crate::aggregate::UNKNOWN_NAME;

verus! {

/// The step that brings an access point into the store.
#[derive(Clone, Debug, PartialEq, Eq)]
pub enum StoreAction {
    /// The access point is known under this id: its attributes are updated in
    /// place, and the id stays.
    Update { id: i64 },
    /// The access point is new: it is created under this name, with the time
    /// of its creation.
    Insert { name: String },
}

/// The name under which a new access point is created: the given one, or
/// `Unknown` where that is empty.
pub open spec fn stored_name(name: Seq<char>) -> Seq<char> {
    if name.len() == 0 {
        UNKNOWN_NAME@
    } else {
        name
    }
}

/// Decides between updating and creating, from what the store found for the
/// hardware address: an id where the access point is known, nothing where it
/// is not.
pub fn plan_store(found: Option<i64>, name: &str) -> (action: StoreAction)
    ensures
        match found {
            Some(known) => action matches StoreAction::Update { id } && id == known,
            None => action matches StoreAction::Insert { name: stored } && stored@ == stored_name(
                name@,
            ),
        },
{
    match found {
        Some(id) => StoreAction::Update { id },
        None => {
            if name.is_empty() {
                StoreAction::Insert { name: String::from_str(UNKNOWN_NAME) }
            } else {
                StoreAction::Insert { name: String::from_str(name) }
            }
        },
    }
}

} // verus!
