//! Verified core of an e-paper weather station: the request URL, the date
//! label drawn on the panel, the refresh schedule of the dashboard and the
//! Wi-Fi link supervisor.

pub mod text;
pub mod calendar;
pub mod api;
pub mod dashboard;
pub mod panel;
pub mod wifi;
