//! Package triage status: parsing of the build status page, decoding of the
//! assignment feed, and reconciliation of both into one record per package,
//! with the cursor and key handling of the screen that shows the records.

mod feed;
mod json;
pub mod laws;
pub mod model;
mod reconcile;
mod order;
mod record;
mod screen;
mod status;
mod store;
mod table;
mod text;
mod types;

pub use feed::decode_mark;
pub use json::Json;
pub use reconcile::{reconcile, Message, Reconciler};
pub use record::PkgInfo;
pub use screen::{pst_menu_items_of, App, DisplayMode, InputMode, Key, PopUpMenu};
pub use status::PackageStatus;
pub use table::{last_position, next_position, previous_position, PkgInfoTable};
pub use text::contains_text;
pub use types::{FetchError, Mark, MarkList, Response, WorkList};
