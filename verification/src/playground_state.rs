//! A minimal single-source server state: objects by id, a monotonic
//! counter, and a clear-before-load policy when the source keeps only its
//! latest content. The embedding program reads the filesystem and imports
//! files; the decisions live here.

use crate::arguments::{Arguments, Source};
use crate::object::ObjectRoot;
use vstd::prelude::*;

verus! {

/// An instruction to the playground server.
#[derive(Debug)]
pub enum ServerCommand {
    /// Load a file from disk.
    LoadFile(String),
}

/// What handling a command asks the embedding program to do.
#[derive(Debug)]
pub enum PlaygroundAction {
    /// Read this filesystem item, import it, and hand the object back
    /// through [`PlaygroundState::add_object`].
    Import(String),
}

/// The playground server state.
pub struct PlaygroundState {
    /// The program options this server was started with.
    pub args: Arguments,
    /// Loaded objects by id.
    pub items: Vec<(u32, ObjectRoot)>,
    /// The next object id: a monotonic counter.
    pub next_item_id: u32,
}

impl PlaygroundState {
    /// Object ids are unique and below the counter.
    pub open spec fn wf(self) -> bool {
        &&& forall|i: int, j: int|
            0 <= i < self.items@.len() && 0 <= j < self.items@.len() && i != j ==> (
            #[trigger] self.items@[i]).0 != (#[trigger] self.items@[j]).0
        &&& forall|i: int|
            0 <= i < self.items@.len() ==> ((#[trigger] self.items@[i]).0 as int)
                < self.next_item_id as int
    }

    /// A fresh state over the given options.
    pub fn new(args: Arguments) -> (s: PlaygroundState)
        ensures
            s.wf(),
            s.items@.len() == 0,
            s.next_item_id == 0,
            s.args == args,
    {
        PlaygroundState { args, items: Vec::new(), next_item_id: 0 }
    }

    /// Obtain the next object id.
    fn get_next_id(&mut self) -> (id: u32)
        requires
            old(self).next_item_id < 0xffff_ffff,
        ensures
            id == old(self).next_item_id,
            final(self).next_item_id == old(self).next_item_id + 1,
            final(self).items == old(self).items,
            final(self).args == old(self).args,
    {
        let ret = self.next_item_id;
        self.next_item_id = self.next_item_id + 1;
        ret
    }

    /// Record a loaded object under a fresh id.
    pub fn add_object(&mut self, o: ObjectRoot) -> (id: u32)
        requires
            old(self).wf(),
            old(self).next_item_id < 0xffff_ffff,
        ensures
            final(self).wf(),
            id == old(self).next_item_id,
            final(self).items@ == old(self).items@.push((id, o)),
            final(self).next_item_id == old(self).next_item_id + 1,
            final(self).args == old(self).args,
    {
        let id = self.get_next_id();
        self.items.push((id, o));
        id
    }

    /// Drop every loaded object.
    pub fn clear(&mut self)
        ensures
            final(self).wf(),
            final(self).items@.len() == 0,
            final(self).next_item_id == old(self).next_item_id,
            final(self).args == old(self).args,
    {
        self.items.clear();
    }

    /// Handle one command: under a latest-only watched source, previously
    /// loaded objects are dropped before the new file is imported.
    pub fn handle_command(&mut self, c: ServerCommand) -> (acts: Vec<PlaygroundAction>)
        requires
            old(self).wf(),
        ensures
            final(self).wf(),
            final(self).next_item_id == old(self).next_item_id,
            final(self).args == old(self).args,
            c matches ServerCommand::LoadFile(f) ==> {
                &&& acts@ == seq![PlaygroundAction::Import(f)]
                &&& (match old(self).args.source {
                    Source::Watch(d) => d.latest_only,
                    _ => false,
                }) ==> final(self).items@.len() == 0
                &&& !(match old(self).args.source {
                    Source::Watch(d) => d.latest_only,
                    _ => false,
                }) ==> final(self).items == old(self).items
            },
    {
        match c {
            ServerCommand::LoadFile(f) => {
                let clear_first = match &self.args.source {
                    Source::Watch(d) => d.latest_only,
                    _ => false,
                };
                if clear_first {
                    self.clear();
                }
                let mut acts: Vec<PlaygroundAction> = Vec::new();
                acts.push(PlaygroundAction::Import(f));
                proof {
                    assert(acts@ =~= seq![acts@[0]]);
                }
                acts
            },
        }
    }
}

} // verus!
