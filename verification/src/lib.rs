//! Sorts e-book container files into author-named directories.
//!
//! The library holds the logic of the pipeline: the file-name filter that
//! recognises candidates, the model of a container's metadata mapping, the
//! placement planner that derives an author directory and a destination file
//! name, and the run coordinator that accumulates per-candidate errors.
//! Directory traversal, container parsing, progress display and table
//! rendering are performed by the surrounding application, which feeds this
//! library plain values and carries out the placement actions it decides.

pub mod metadata;
pub mod plan;
pub mod run;
pub mod scan;
pub mod text;
