//! The decisions of a desktop application that runs NocoBase on the local machine.
//!
//! The application keeps a bundled runtime unpacked in `~/.nocobase-desktop`, starts and stops
//! the server in it, and installs the `nb` command. Each of these procedures is a machine: it
//! asks for an [`effect::Effect`], and the [`effect::Reply`] decides what comes next.
//!
//! - [`text`], [`path`], [`layout`], [`config`], [`command`]: the data, and what is computed
//!   from it.
//! - [`effect`]: effects, replies, and the runs of a procedure.
//! - [`config_store`], [`upgrade`], [`launch`], [`api`], [`register`], [`start`], [`stop`],
//!   [`status`], [`window`], [`cli`]: the procedures.
//! - [`disk`]: a model of the file system.
//! - [`text_law`], [`layout_law`], [`command_law`]: what holds of the data, for every input.
//! - [`talk`], [`procedure_law`]: which effects each procedure asks for, in which order, and how it
//!   ends, for all replies.
//! - [`view_law`]: the models keep all that the values hold.
//! - [`upgrade_law`], [`start_law`], [`progress`]: what holds of every run.
pub mod api;
pub mod cli;
pub mod command;
pub mod command_law;
pub mod config;
pub mod config_store;
pub mod disk;
pub mod effect;
pub mod launch;
pub mod layout;
pub mod layout_law;
pub mod path;
pub mod procedure_law;
pub mod progress;
pub mod register;
pub mod start;
pub mod start_law;
pub mod status;
pub mod stop;
pub mod talk;
pub mod text;
pub mod text_law;
pub mod upgrade;
pub mod upgrade_law;
pub mod view_law;
pub mod window;
