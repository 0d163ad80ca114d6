//! The decision-making core of a userspace VPN jumphost: a program that keeps
//! a VPN tunnel up as an ordinary user and lets other programs reach hosts
//! behind it by name.
//!
//! - Which way a host is reached: [`domains`], [`routing`], [`pac`].
//! - What is said on the wire: [`socks`], [`http_connect`].
//! - Signing in: [`cookie`], [`mfa`], [`browser`], [`fetch`].
//! - Keeping the tunnel up: [`jumphost`], [`vpn`].
//! - Settings and credentials: [`config_file`], [`config`],
//!   [`credential_store`].
//! - The commands: [`commands`], [`doctor`], [`probe`], [`test_tunnel`],
//!   [`logs`], [`logging`].
//! - Beneath them: [`text`], [`search`].
//!
//! Every function works on plain values. Sockets, processes, files and the
//! browser belong to the program that drives the library: it does what the
//! state machines here say and hands back what came of it.

pub mod browser;
pub mod commands;
pub mod config;
pub mod config_file;
pub mod cookie;
pub mod credential_store;
pub mod doctor;
pub mod domains;
pub mod fetch;
pub mod http_connect;
pub mod jumphost;
pub mod logging;
pub mod logs;
pub mod mfa;
pub mod pac;
pub mod probe;
pub mod routing;
pub mod search;
pub mod socks;
pub mod test_tunnel;
pub mod text;
pub mod vpn;
