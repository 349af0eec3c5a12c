//! Peer-to-peer file transfers between two chat participants, and what the
//! chat client around them decides: negotiation, authorisation, port
//! leasing and the bookkeeping of the byte stream; notifications and their
//! delays; what the sidebar shows and what its messages come to. Every rule
//! is stated as a contract and proved; sockets, files, toasts and widgets
//! are the caller's.
//!
//! - `endpoint`, `config`: addresses, port ranges, and the settings.
//! - `pattern`, `policy`: regular expressions, and the auto-accept policy.
//! - `ports`: the port allocator.
//! - `transfer`, `session`, `manager`: one transfer, its byte stream, and
//!   the table of all transfers.
//! - `clock`, `notification`: points in time, and when to alert.
//! - `sidebar`, `layout`: the sidebar's messages, rows, buttons and menus.

pub mod clock;
pub mod config;
pub mod endpoint;
pub mod layout;
pub mod manager;
pub mod notification;
pub mod pattern;
pub mod policy;
pub mod ports;
pub mod session;
pub mod sidebar;
pub mod transfer;
