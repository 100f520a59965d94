//! What the configuration file can say.

use crate::dot::Dots;
use vstd::prelude::*;

verus! {

/// The settings of one run as the configuration gives them. Whatever the
/// file leaves out is off, zero or empty.
#[derive(Debug, PartialEq, Eq)]
pub struct Cfg {
    pub absolute: bool,
    pub berserker: bool,
    pub depth: usize,
    pub dots: Dots,
    pub follow: bool,
    pub ignore: Vec<String>,
    pub rage: usize,
}

impl Default for Cfg {
    fn default() -> (r: Cfg)
        ensures
            !r.absolute,
            !r.berserker,
            r.depth == 0,
            r.dots@.len() == 0,
            !r.follow,
            r.ignore@.len() == 0,
            r.rage == 0,
    {
        Cfg {
            absolute: false,
            berserker: false,
            depth: 0,
            dots: Dots::new(),
            follow: false,
            ignore: Vec::new(),
            rage: 0,
        }
    }
}

} // verus!
