//! Sets up Windows audio plugins for use through a Wine bridge: classifies
//! plugin binaries, plans the bridged files that each plugin needs, and finds
//! the leftovers of earlier runs.
pub mod cli;
pub mod moduleinfo;
pub mod order;
pub mod path;
pub mod plugin;
pub mod probe;
pub mod search;
pub mod symbols;
pub mod sync;
pub mod text;
pub mod uid;
