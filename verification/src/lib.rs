//! Core of a task-list widget: a controller that owns the displayed list,
//! its tasks and a staged input line, applies user and backend events to
//! that state, and emits the commands a backend should run in response.
//! Rendering is kept abstract: the controller only offers a pure projection
//! of its state that a front end may draw however it likes.

pub mod content;
pub mod laws;
pub mod model;
