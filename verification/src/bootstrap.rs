//! Choosing what the program does from its arguments.
use vstd::prelude::*;
use crate::text::same_str;

verus! {

/// What the program does.
#[derive(Debug, Clone, Copy, PartialEq, Eq, Structural)]
pub enum Mode {
    All,
    InstallAutostart,
    RemoveAutostart,
}

/// The mode that the first argument after the program's name asks for.
pub open spec fn mode_of(args: Seq<String>) -> Mode {
    if args.len() > 1 {
        if args[1]@ == "--install-autostart"@ {
            Mode::InstallAutostart
        } else if args[1]@ == "--remove-autostart"@ {
            Mode::RemoveAutostart
        } else {
            Mode::All
        }
    } else {
        Mode::All
    }
}

/// The program's start.
#[derive(Debug, Clone, Copy)]
pub struct Bootstrap {
    mode: Mode,
}

impl Bootstrap {
    pub closed spec fn mode_spec(&self) -> Mode {
        self.mode
    }

    /// The start for the command line `args`, the program's name first.
    pub fn from_args(args: &[String]) -> (b: Self)
        ensures
            b.mode_spec() == mode_of(args@),
    {
        let mode = if args.len() > 1 {
            if same_str(args[1].as_str(), "--install-autostart") {
                Mode::InstallAutostart
            } else if same_str(args[1].as_str(), "--remove-autostart") {
                Mode::RemoveAutostart
            } else {
                Mode::All
            }
        } else {
            Mode::All
        };
        Bootstrap { mode }
    }

    pub fn mode(&self) -> (r: Mode)
        ensures
            r == self.mode_spec(),
    {
        self.mode
    }
}

} // verus!
