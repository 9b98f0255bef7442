//! Session lifecycle and resource coordination for multi-repository
//! worktree sessions: naming, the session registry, exclusive locks,
//! background process supervision, transactional provisioning and the
//! diagnostic pass, stated as verified functions over plain values.

pub mod activate;
pub mod arbitration;
pub mod auth;
pub mod config;
pub mod context;
pub mod discovery;
pub mod doctor;
pub mod error;
pub mod flow;
pub mod integrations;
pub mod lock;
pub mod log;
pub mod names;
pub mod orchestrate;
pub mod order;
pub mod paths;
pub mod provision;
pub mod scripts;
pub mod session;
pub mod start;
pub mod stop;
pub mod supervise;
pub mod text;
pub mod worktree;
