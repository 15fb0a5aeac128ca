//! Rules of the building code on top of the general data model: completion
//! of factor tables, balancing and partitioning of components, and the
//! change of perimeter.

pub mod balancing;
pub mod completion;
pub mod completion_laws;
pub mod locations;
pub mod partition;
pub mod perimeter;
pub mod pruning;
pub mod render;
pub mod user;

pub use balancing::{can_balance, fix_components, parse_components};
pub use completion::{fix_wfactors, UserWFactors};
pub use locations::{complete_wfactors, new_wfactors, parse_wfactors};
pub use partition::{can_partition, components_by_service};
pub use perimeter::{can_convert, wfactors_to_nearby};
pub use pruning::strip_wfactors;
pub use render::{balance_to_plain, balance_to_xml, escape_xml};
pub use user::{find_user_wfactors, update_user_wfactors};
