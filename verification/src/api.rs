//! What an instance says about its dashboards and folders, and what is sent to it.

pub mod dashboards;
pub mod folders;
