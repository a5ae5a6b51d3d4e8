//! A weekly task tracker: seven fixed days, each with an ordered list of
//! tasks, the commands that change them, and the text views of the week.
pub mod model;
pub mod lookup;
pub mod commands;
pub mod store;
pub mod calendar;
pub mod render;
