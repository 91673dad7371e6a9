//! The settings of a run: where the videos are, where the results go, how many
//! stacked videos to make from each client video, and which command to use.

use vstd::prelude::*;
use crate::text::{decimal, decimal_string};

verus! {

/// The command line of the tool: one subcommand.
#[derive(Debug)]
pub struct Cli {
    pub command: Commands,
}

/// The subcommands of the tool.
#[derive(Debug)]
pub enum Commands {
    /// Names a file.
    File { name: String },
    /// Gives every setting on the command line.
    Values {
        client_folder: String,
        dummies_folder: String,
        output_folder: String,
        quantity: usize,
        index_of_command: usize,
    },
}

/// The settings that drive a run.
#[derive(Debug)]
pub struct Arguments {
    pub client_folder: String,
    pub dummies_folder: String,
    pub output_folder: String,
    pub quantity: usize,
    pub index_of_command: usize,
}

/// The settings file: its `[args]` table.
#[derive(Debug)]
pub struct Configuration {
    pub args: Arguments,
}

/// How the settings are shown to the user, one per line.
pub open spec fn arguments_text(a: Arguments) -> Seq<char> {
    " Client folder "@ + a.client_folder@ + "\n Dummies folder "@ + a.dummies_folder@
        + "\n Output folder "@ + a.output_folder@ + "\n Quantity "@ + decimal(a.quantity as nat)
        + "\n Command index "@ + decimal(a.index_of_command as nat) + "\n"@
}

impl Arguments {
    /// The settings as they are shown to the user.
    pub fn to_display_string(&self) -> (s: String)
        ensures
            s@ == arguments_text(*self),
    {
        let mut s = String::from_str(" Client folder ");
        s.append(self.client_folder.as_str());
        s.append("\n Dummies folder ");
        s.append(self.dummies_folder.as_str());
        s.append("\n Output folder ");
        s.append(self.output_folder.as_str());
        s.append("\n Quantity ");
        let q = decimal_string(self.quantity as u128);
        s.append(q.as_str());
        s.append("\n Command index ");
        let c = decimal_string(self.index_of_command as u128);
        s.append(c.as_str());
        s.append("\n");
        s
    }
}

impl Default for Arguments {
    fn default() -> (a: Arguments)
        ensures
            a.client_folder@ == Seq::<char>::empty(),
            a.dummies_folder@ == Seq::<char>::empty(),
            a.output_folder@ == Seq::<char>::empty(),
            a.quantity == 0,
            a.index_of_command == 0,
    {
        Arguments {
            client_folder: String::new(),
            dummies_folder: String::new(),
            output_folder: String::new(),
            quantity: 0,
            index_of_command: 0,
        }
    }
}

} // verus!
