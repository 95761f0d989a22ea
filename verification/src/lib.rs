//! Verified core of a desktop client for the ClamAV antivirus engine:
//! reading the scanner's output, choosing the engine and its arguments,
//! assembling scan and update reports, keeping the quarantine index and
//! the scan history, and the decisions of the real-time and
//! signature-update workers.
pub mod auto_update;
pub mod clamav;
pub mod engine;
pub mod laws;
pub mod models;
pub mod paths;
pub mod quarantine;
pub mod realtime;
pub mod scan_output;
pub mod scan_run;
pub mod storage;
pub mod text;
