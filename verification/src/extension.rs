//! What an extension of the launcher provides: commands to register and a
//! hook that runs when it is loaded.

use vstd::prelude::*;
use crate::text::texts;

verus! {

/// The commands that extensions registered, by name, in the order in which
/// they came.
#[derive(Clone, Debug)]
pub struct CommandRegister {
    pub names: Vec<String>,
}

impl CommandRegister {
    /// The register without any command.
    pub fn new() -> (r: CommandRegister)
        ensures
            r.names@.len() == 0,
    {
        CommandRegister { names: Vec::new() }
    }

    /// Registers a command under `name`.
    pub fn register(&mut self, name: String)
        ensures
            texts(final(self).names@) == texts(old(self).names@).push(name@),
    {
        let ghost before = texts(self.names@);
        self.names.push(name);
        assert(texts(self.names@) =~= before.push(name@));
    }
}

/// An extension could not be set up.
#[derive(Clone, Debug)]
pub struct ExtensionError {
    pub message: String,
}

/// An extension of the launcher. One that has nothing to register and
/// nothing to set up needs to write neither method.
pub trait LauncherExtension: Send + Sync {
    fn register_command(&self, _register: &mut CommandRegister) {
    }

    fn init(&self) -> (r: Result<(), ExtensionError>)
        ensures
            !self.init_can_fail() ==> r == Ok::<(), ExtensionError>(()),
    {
        Ok(())
    }

    /// Whether the set-up of the extension can fail. An extension says so
    /// here when it writes an `init` that can; one that says nothing has a
    /// set-up that succeeds.
    open spec fn init_can_fail(&self) -> bool {
        false
    }
}

} // verus!
