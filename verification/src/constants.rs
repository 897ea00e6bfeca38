//! Fixed texts and names.
use vstd::prelude::*;

verus! {

/// What a chat is told that has not been entered yet.
pub const NO_DB_MSG: &'static str = "Bitte zuerst /start ausführen";

/// Where registrations are kept, by the service that the plans come from.
pub const MENSI_DB: &'static str = "mensimates.sqlite";

pub const STUWE_DB: &'static str = "stuwe.sqlite";

} // verus!
