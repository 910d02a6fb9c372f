//! Locating code inside a foreign executable image and redirecting control
//! flow at the found addresses, reversibly.
//!
//! The library works on an explicit model of the host image: a byte region
//! with a base address. Address discovery (byte-signature scanning, code-cave
//! search, qualified-name resolution over an object graph) and hook
//! installation (reversible patches composed into a detour with a trampoline)
//! are ordinary functions over that model, each with a proved contract.
//! Reading the live image into the model and writing the model's mutations
//! back, with the required page-protection changes, is the host program's
//! side of the bargain.

pub mod buf_writer;
pub mod buffer;
pub mod cave;
pub mod detour;
pub mod full_name;
pub mod game;
pub mod hex;
pub mod jump;
pub mod list;
pub mod module;
pub mod name;
pub mod object;
pub mod patch;
pub mod region;
pub mod resolve;
pub mod scan;
pub mod split;
pub mod util;
