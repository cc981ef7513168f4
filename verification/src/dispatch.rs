//! Command dispatch and the store lifecycle.
//!
//! After the runtime stands, the store is opened or created and published;
//! then the parsed arguments decide one of two paths: an administrative
//! command is run to completion against the store, or the server proper is
//! started. Both decisions live here; performing them is the process's job.

use vstd::prelude::*;
use crate::ids::RoomId;
use crate::store::{AliasStore, purged, resolving};

verus! {

/// The persistent store as later steps see it: the alias sub-domain, and
/// the rooms' own state, which no alias operation touches.
pub struct Store {
    pub aliases: AliasStore,
    pub rooms: Vec<RoomId>,
}

impl Store {
    /// Structural validity of the store.
    pub open spec fn wf(&self) -> bool {
        self.aliases.wf()
    }
}

/// What load-or-create yields: an existing store is opened as it is; a
/// fresh location gets a new, empty store. Callers cannot tell the two
/// apart beyond this.
pub open spec fn loaded_from(existing: Option<Store>, s: Store) -> bool {
    match existing {
        Some(st) => s == st,
        None => s.aliases@ == Seq::<(Seq<char>, Seq<char>)>::empty() && s.rooms@.len() == 0,
    }
}

/// Opens the store found at the configured location, or creates a new,
/// empty, structurally valid one where none exists. Runs once, before
/// dispatch; what it returns is the store every later step reads.
pub fn load_or_create(existing: Option<Store>) -> (s: Store)
    ensures
        loaded_from(existing, s),
        (match existing {
            Some(st) => st.wf(),
            None => true,
        }) ==> s.wf(),
{
    match existing {
        Some(st) => st,
        None => Store { aliases: AliasStore::new(), rooms: Vec::new() },
    }
}

/// Load-or-create equivalence: against a fresh location, the first run
/// creates an empty store and the second opens it; both converge to the
/// same, structurally valid store.
pub proof fn lemma_load_or_create_equivalence(first: Store, second: Store)
    requires
        loaded_from(None, first),
        loaded_from(Some(first), second),
    ensures
        first.wf(),
        second.wf(),
        second == first,
{
}

/// An administrative command, carrying its own validated arguments. The one
/// command defined removes every local alias of a room.
pub enum AdminCommand {
    PurgeRoomAliases(RoomId),
}

/// The two paths out of dispatch.
pub enum DispatchPath {
    /// No subcommand was given: start the server proper.
    StartServer,
    /// A subcommand was given: run it to completion, then exit.
    RunCommand(AdminCommand),
}

/// Dispatch is decided by the parsed arguments alone: a present subcommand
/// is run; an absent one starts the server.
pub fn dispatch(subcmd: Option<AdminCommand>) -> (d: DispatchPath)
    ensures
        match subcmd {
            None => d == DispatchPath::StartServer,
            Some(c) => d == DispatchPath::RunCommand(c),
        },
{
    match subcmd {
        None => DispatchPath::StartServer,
        Some(c) => DispatchPath::RunCommand(c),
    }
}

/// Runs one administrative command to completion against the published
/// store, and reports how many records it touched. The alias purge removes
/// exactly the alias records of the named room; the rooms' own state, and
/// every alias of every other room, is untouched.
pub fn run_command(store: &mut Store, cmd: &AdminCommand) -> (removed: usize)
    ensures
        match *cmd {
            AdminCommand::PurgeRoomAliases(room) => final(store).aliases@ == purged(
                old(store).aliases@,
                room@,
            ) && removed == resolving(old(store).aliases@, room@).len() && final(store).rooms
                == old(store).rooms && (old(store).wf() ==> final(store).wf()),
        },
{
    match cmd {
        AdminCommand::PurgeRoomAliases(room) => store.aliases.remove_all_aliases(room),
    }
}

}
