//! The core of a Minecraft launcher: version descriptors and their rule
//! engine, the mod-loader overlay and library deduplication, the classpath
//! and launch arguments, Java selection, download planning and integrity
//! checks, the process supervisor with crash-recovery playtime accounting,
//! the account store and the sign-in state machine, and the server status
//! protocol. Reading and writing files, the network and processes are left to
//! the caller, which hands plain values in and takes plain values back.

use vstd::prelude::*;

pub mod text;
pub mod ordering;
pub mod versions;
pub mod merge;
pub mod args;
pub mod java;
pub mod instances;
pub mod sessions;
pub mod supervisor;
pub mod auth;
pub mod downloader;
pub mod settings;
pub mod fabric;
pub mod forge;
pub mod classpath;
pub mod curseforge;
pub mod modrinth;
pub mod files;
pub mod ping;
