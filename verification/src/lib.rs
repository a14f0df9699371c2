//! Decision logic of the synforge build orchestrator:
//! accounts and sign-in, runtime settings and their schema, build
//! scheduling and polling, failure backoff, the worker socket protocol and
//! worker sessions, container launch plans, publication layout, repository
//! signing and re-signing, log windows, and the text formats the daemon
//! reads from `git`, `gpg`, `mock` and `/proc`.

pub mod auth;
pub mod backoff;
pub mod bootstrap;
pub mod browse;
pub mod chroots;
pub mod digest;
pub mod hardware;
pub mod keyring;
pub mod logs;
pub mod model;
pub mod packages;
pub mod pagination;
pub mod paths;
pub mod progress;
pub mod publish;
pub mod reconcile;
pub mod refresh;
pub mod scan;
pub mod scheduler;
pub mod schema;
pub mod sessions;
pub mod settings;
pub mod setup;
pub mod signing;
pub mod signing_admin;
pub mod sort;
pub mod text;
pub mod validation;
pub mod worker_launch;
pub mod worker_protocol;
