//! A terminal dashboard for podman containers and a manager for the
//! environment variables and PATH entries of the host's shell configuration.
//!
//! - `text`: text handling with specified behaviour (trimming, splitting, lines).
//! - `shell`: shells, parsing their configuration files and writing the
//!   section this program manages.
//! - `podman`: what podman reports about containers and what `/proc` reports
//!   about the host.
//! - `order`: the order in which containers are listed.
//! - `app`: the application's state and how each key changes it.
//! - `view`: what the screens show.
//! - `launch`: opening terminals and shells in containers.
//! - `detect`: finding the host's shell and terminal, one question at a time.
//! - `roundtrip`, `resave`: what a saved configuration reads back as, and
//!   saving twice.
pub mod text;
pub mod shell;
pub mod podman;
pub mod order;
pub mod app;
pub mod view;
pub mod launch;
pub mod detect;
pub mod roundtrip;
pub mod resave;
