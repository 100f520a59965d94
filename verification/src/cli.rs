//! What the command line can say.

use crate::text::same;
use vstd::prelude::*;
use vstd::string::StringExecFns;

verus! {

/// When to colour the output.
#[derive(Clone, Copy, Debug, PartialEq, Eq, Structural)]
pub enum ColorWhen {
    Always,
    Auto,
    Never,
}

/// A setting given on the command line as `on` or `off`.
#[derive(Clone, Copy, Debug, PartialEq, Eq, Structural)]
pub enum Switch {
    Off,
    On,
}

impl Switch {
    /// The switch that `s` spells, if it spells one.
    pub open spec fn spelled(s: Seq<char>) -> Option<Switch> {
        if s == "0"@ || s == "off"@ {
            Some(Switch::Off)
        } else if s == "1"@ || s == "on"@ {
            Some(Switch::On)
        } else {
            None
        }
    }

    pub open spec fn is_on(self) -> bool {
        self == Switch::On
    }

    /// Reads `0` and `off` as `Off`, `1` and `on` as `On`; anything else is
    /// refused with a message that repeats it.
    pub fn parse(s: &str) -> (r: Result<Switch, String>)
        ensures
            match r {
                Ok(sw) => Self::spelled(s@) == Some(sw),
                Err(m) => Self::spelled(s@) is None && m@ == "invalid switch value: "@ + s@,
            },
    {
        if same(s, "0") || same(s, "off") {
            Ok(Switch::Off)
        } else if same(s, "1") || same(s, "on") {
            Ok(Switch::On)
        } else {
            let mut m = "invalid switch value: ".to_owned();
            m.append(s);
            Err(m)
        }
    }

    pub fn on(self) -> (r: bool)
        ensures
            r == self.is_on(),
    {
        match self {
            Switch::Off => false,
            Switch::On => true,
        }
    }
}

impl From<bool> for Switch {
    fn from(b: bool) -> (r: Switch)
    {
        match b {
            false => Switch::Off,
            true => Switch::On,
        }
    }
}

impl vstd::std_specs::convert::FromSpecImpl<bool> for Switch {
    open spec fn obeys_from_spec() -> bool {
        true
    }

    open spec fn from_spec(b: bool) -> Switch {
        if b {
            Switch::On
        } else {
            Switch::Off
        }
    }
}

impl From<Switch> for bool {
    fn from(s: Switch) -> (r: bool)
    {
        match s {
            Switch::Off => false,
            Switch::On => true,
        }
    }
}

impl vstd::std_specs::convert::FromSpecImpl<Switch> for bool {
    open spec fn obeys_from_spec() -> bool {
        true
    }

    open spec fn from_spec(s: Switch) -> bool {
        s.is_on()
    }
}

impl std::str::FromStr for Switch {
    type Err = String;

    fn from_str(s: &str) -> (r: Result<Switch, String>)
        ensures
            match r {
                Ok(sw) => Self::spelled(s@) == Some(sw),
                Err(m) => Self::spelled(s@) is None && m@ == "invalid switch value: "@ + s@,
            },
    {
        Switch::parse(s)
    }
}

/// The settings of one run as the command line gives them. What is `None`
/// here is left to the configuration.
#[derive(Debug, PartialEq, Eq)]
pub struct Opts {
    pub absolute: Option<Switch>,
    pub berserker: Option<Switch>,
    pub color: ColorWhen,
    /// The dots to work on; all of them where none is named.
    pub dots: Vec<String>,
    pub depth: Option<usize>,
    pub follow: Option<Switch>,
    pub no: bool,
    pub rage: Option<usize>,
    pub unshove: bool,
    /// How often more output was asked for.
    pub verbose: usize,
    /// How often less output was asked for.
    pub quiet: usize,
}

impl Opts {
    /// The verbosity: one, raised by each wish for more and lowered by each
    /// wish for less.
    pub fn verbose(&self) -> (r: usize)
        requires
            self.quiet <= 1 + self.verbose <= usize::MAX,
        ensures
            r == 1 + self.verbose - self.quiet,
    {
        1 + self.verbose - self.quiet
    }
}

} // verus!
