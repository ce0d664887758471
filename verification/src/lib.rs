//! Rules for collecting the exercise files of a course lab from the pages of
//! an e-learning portal.
//!
//! The portal shows a course page with one list item for each lab, and one
//! page for each exercise. This library holds everything that is decided on
//! the way from a lab's number to its files on disk: which anchors of the
//! course page are exercises, which file an exercise page carries, where and
//! as which lines it is written, and in which order the steps of a run
//! follow each other. Requests and files are left to the caller.

pub mod dom;
pub mod exercise;
pub mod lab;
pub mod links;
pub mod pipeline;
pub mod session;
pub mod text;
