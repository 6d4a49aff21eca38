//! The engine of a terminal dashboard for the jobs of a batch scheduler:
//! which job is selected, what is known of its output files, which part of
//! its log is on screen, and which panel the keys go to.
//!
//! The library neither runs commands nor reads files nor draws. It says
//! what it wants to know and takes what was found, so that everything it
//! decides is a function of the values it was given. [`model`] describes the
//! dashboard as a state machine; [`app`] and [`input`] carry it out;
//! [`slurm`] reads what the scheduler prints; [`tail`] finds the last lines
//! of a file; [`config`] holds the settings; [`text`] and [`utf8`] say what
//! lines, words and trimmed text are, in characters and in bytes.
pub mod app;
pub mod config;
pub mod focus;
pub mod input;
pub mod model;
pub mod slurm;
pub mod tail;
pub mod text;
pub mod utf8;
