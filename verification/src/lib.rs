//! Picks, for each wanted title, the first fresh search result that is not
//! excluded by keyword and has not been grabbed before, and drives its
//! download and notification.
//!
//! The crate holds the decisions only. Searching, downloading and notifying
//! are done by the caller, which reports what happened as events and carries
//! out the actions it is handed back.
//!
//! - [`model`]: the records that come from the configuration and the indexer.
//! - [`keywords`]: exclusion of titles by keyword.
//! - [`history`]: the set of releases that were grabbed before.
//! - [`eligibility`]: which search results qualify.
//! - [`selection`]: the choice of the first result that qualifies.
//! - [`selector`]: the selection for one title, move by move.
//! - [`trace`]: what a selection does over any run of events.
//! - [`orchestrator`]: one run over all titles, and its report.
//! - [`endpoints`]: the addresses and values of the requests.
//!
//! Two facts about text are taken from the standard library without proof,
//! both in [`keywords`]: which characters are white space, and what the
//! lower-case form of a text is.

pub mod eligibility;
pub mod endpoints;
pub mod history;
pub mod keywords;
pub mod model;
pub mod orchestrator;
pub mod selection;
pub mod selector;
pub mod trace;
