//! Stow, but angry: a link farm for dotfiles.
//!
//! A *dot* binds a source tree to a destination. To shove a dot is to mirror
//! its tree under the destination: directories down to a set depth as
//! directories, everything else as symbolic links that lead back into the
//! source. Whatever stands in the way is classified, and removed only if the
//! rage of the run reaches what its type takes. To unshove is to take the
//! links away again.
//!
//! The library decides and never touches a disk. A run is a conversation:
//! [`shover::Shover::shove_dots`] makes the first [`shover::Turn`], each turn
//! names one [`sys::Request`], and [`shover::Shover::proceed`] takes the
//! [`sys::Reply`] and makes the next turn. What every turn is, given the
//! reply, is stated exactly, and the promises of the whole (nothing removed
//! without rage, nothing changed in a dry run, nothing made while unshoving,
//! what is ignored never looked at) are proved of it.

pub mod cfg;
pub mod cli;
pub mod dot;
pub mod ft;
pub mod ignore;
pub mod log;
pub mod rm;
pub mod shover;
pub mod sys;
pub mod text;
pub mod util;
