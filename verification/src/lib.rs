//! Inventory of network device records: the rules that decide which records
//! are accepted, how the store changes, what the listing shows, and how the
//! shell moves between its states.

pub mod liveness;
pub mod menu;
pub mod numeral;
pub mod record;
pub mod store;
pub mod table;
pub mod validate;

pub use crate::liveness::probe_address;
pub use crate::menu::{resume, select, MenuError, State};
pub use crate::record::IpInfo;
pub use crate::store::{add_ip, delete_ip, edit_ip, locate, OpError};
pub use crate::table::display_table;
pub use crate::validate::{validate_gateway, validate_ip, validate_subnet};
