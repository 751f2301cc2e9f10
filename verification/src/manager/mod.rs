//! What the manager shows and decides, apart from its widgets.
pub mod conduct;
pub mod daemon;
pub mod flow;
pub mod form;
pub mod laws;
pub mod report;
pub mod request;
pub mod rules;
pub mod ui;
pub mod view;
pub mod wording;
