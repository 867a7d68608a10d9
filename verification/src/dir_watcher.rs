//! File and directory watching policy.
//!
//! The embedding program owns the filesystem subscription: it classifies
//! each OS notification into a [`WatcherEvent`] and feeds it here, then
//! sends the returned commands down the platter command channel. This
//! module owns every decision: which arrivals become loads, when a clear
//! precedes a load (latest-only), and which subdirectory is the active one
//! (organize-by-directory). Pre-existing directory entries go through
//! [`DirWatcher::startup_commands`], so they follow exactly the same path
//! as files that arrive while watching.

use crate::arguments::Directory;
use crate::ids::Tag;
use crate::platter_state::PlatterCommand;
use vstd::prelude::*;

verus! {

use vstd::string::StringSliceAdditionalSpecFns;

/// A classified filesystem notification.
#[derive(Debug)]
pub enum WatcherEvent {
    /// Files finished arriving: created or write-closed, as the platform
    /// reports completed files.
    FilesArrived(Vec<String>),
    /// Directories were created.
    FolderCreated(Vec<String>),
    /// The stop signal.
    Stop,
    /// Any other notification.
    Other,
}

/// Whether the path `p` lies under the directory `base`: `base`'s bytes
/// are a prefix of `p`'s and the next byte, when there is one, is the path
/// separator.
pub open spec fn spec_path_under(base: Seq<u8>, p: Seq<u8>) -> bool {
    &&& base.len() <= p.len()
    &&& p.subrange(0, base.len() as int) == base
    &&& (p.len() == base.len() || p[base.len() as int] == 47)
}

/// [`spec_path_under`] over the UTF-8 encodings of two strings.
pub open spec fn path_prefix(base: Seq<char>, p: Seq<char>) -> bool {
    spec_path_under(vstd::utf8::encode_utf8(base), vstd::utf8::encode_utf8(p))
}

/// Whether `p` lies under the directory `base`.
pub fn path_under(base: &str, p: &str) -> (r: bool)
    ensures
        r == path_prefix(base@, p@),
{
    let b = base.as_bytes();
    let q = p.as_bytes();
    if b.len() > q.len() {
        return false;
    }
    let mut i: usize = 0;
    while i < b.len()
        invariant
            i <= b@.len(),
            b@.len() <= q@.len(),
            b@ == base.spec_bytes(),
            q@ == p.spec_bytes(),
            forall|j: int| 0 <= j < i ==> b@[j] == q@[j],
        decreases b@.len() - i,
    {
        if b[i] != q[i] {
            proof {
                assert(q@.subrange(0, b@.len() as int)[i as int] != b@[i as int]);
            }
            return false;
        }
        i = i + 1;
    }
    proof {
        assert(q@.subrange(0, b@.len() as int) =~= b@);
    }
    if q.len() == b.len() {
        true
    } else {
        q[b.len()] == 47
    }
}

/// One directory watch in progress: its configuration, the tag its scenes
/// are recorded under, the currently active subdirectory, and whether the
/// stop signal has been seen.
#[derive(Debug)]
pub struct DirWatcher {
    pub dir: Directory,
    pub tag: Tag,
    pub latest_dir: Option<String>,
    pub stopped: bool,
}

impl DirWatcher {
    /// What one arrived file emits. With organize-by-directory, a file is
    /// accepted only when it lies under the active subdirectory, and
    /// silently ignored otherwise or while no subdirectory is active. With
    /// latest-only, a clear of the tag precedes every load. Otherwise every
    /// arrival is loaded as it stands.
    pub open spec fn spec_file_commands(self, p: String) -> Seq<PlatterCommand> {
        if self.dir.organize_by_dir {
            match self.latest_dir {
                None => Seq::empty(),
                Some(ld) => if path_prefix(ld@, p@) {
                    seq![PlatterCommand::LoadFile(p, Some(self.tag))]
                } else {
                    Seq::empty()
                },
            }
        } else if self.dir.latest_only {
            seq![
                PlatterCommand::ClearTag(self.tag),
                PlatterCommand::LoadFile(p, Some(self.tag)),
            ]
        } else {
            seq![PlatterCommand::LoadFile(p, Some(self.tag))]
        }
    }

    /// What a batch of arrived files emits, in arrival order.
    pub open spec fn spec_files_commands(self, ps: Seq<String>) -> Seq<PlatterCommand>
        decreases ps.len(),
    {
        if ps.len() == 0 {
            Seq::empty()
        } else {
            self.spec_files_commands(ps.drop_last()) + self.spec_file_commands(ps.last())
        }
    }

    /// Under a latest-only watch that does not organize by directory, a
    /// clear of the tag precedes the load of every arriving file, from the
    /// first arrival on.
    pub proof fn lemma_latest_only_clears_before_every_load(self, p: String)
        requires
            self.dir.latest_only,
            !self.dir.organize_by_dir,
        ensures
            self.spec_file_commands(p) == seq![
                PlatterCommand::ClearTag(self.tag),
                PlatterCommand::LoadFile(p, Some(self.tag)),
            ],
    {
    }

    /// Under an organize-by-directory watch, a file outside the active
    /// subdirectory provokes no command, and a file under it exactly one
    /// load.
    pub proof fn lemma_organize_confines_to_active_dir(self, p: String)
        requires
            self.dir.organize_by_dir,
        ensures
            self.latest_dir is None ==> self.spec_file_commands(p) == Seq::<
                PlatterCommand,
            >::empty(),
            self.latest_dir matches Some(ld) ==> self.spec_file_commands(p) == if path_prefix(
                ld@,
                p@,
            ) {
                seq![PlatterCommand::LoadFile(p, Some(self.tag))]
            } else {
                Seq::<PlatterCommand>::empty()
            },
    {
    }

    /// Start a watch of `dir`, recording scenes under `tag`. No
    /// subdirectory is active yet and no command is emitted.
    pub fn new(dir: Directory, tag: Tag) -> (w: DirWatcher)
        ensures
            w.dir == dir,
            w.tag == tag,
            w.latest_dir is None,
            !w.stopped,
    {
        DirWatcher { dir, tag, latest_dir: None, stopped: false }
    }

    /// The commands to emit at startup: none unless the watch is asked to
    /// load existing content, and then exactly one load per existing
    /// directory entry, in enumeration order.
    pub fn startup_commands(&self, existing: Vec<String>) -> (cmds: Vec<PlatterCommand>)
        ensures
            !self.dir.load_existing ==> cmds@.len() == 0,
            self.dir.load_existing ==> cmds@.len() == existing@.len() && forall|i: int|
                0 <= i < cmds@.len() ==> cmds@[i] == PlatterCommand::LoadFile(
                    existing@[i],
                    Some(self.tag),
                ),
    {
        let mut cmds: Vec<PlatterCommand> = Vec::new();
        if !self.dir.load_existing {
            return cmds;
        }
        let mut existing = existing;
        let ghost ex = existing@;
        let mut i: usize = 0;
        while i < existing.len()
            invariant
                i <= existing@.len(),
                existing@.len() == ex.len(),
                forall|j: int| i <= j < ex.len() ==> existing@[j] == ex[j],
                cmds@.len() == i,
                forall|j: int|
                    0 <= j < i ==> cmds@[j] == PlatterCommand::LoadFile(ex[j], Some(self.tag)),
            decreases existing@.len() - i,
        {
            let mut p = String::new();
            core::mem::swap(&mut p, &mut existing[i]);
            cmds.push(PlatterCommand::LoadFile(p, Some(self.tag)));
            i = i + 1;
        }
        cmds
    }

    /// The commands one arrived file provokes.
    fn handle_new_file(&self, p: String) -> (cmds: Vec<PlatterCommand>)
        ensures
            cmds@ == self.spec_file_commands(p),
    {
        let mut cmds: Vec<PlatterCommand> = Vec::new();
        if self.dir.organize_by_dir {
            match &self.latest_dir {
                None => {},
                Some(ld) => {
                    if path_under(ld.as_str(), p.as_str()) {
                        cmds.push(PlatterCommand::LoadFile(p, Some(self.tag)));
                        proof {
                            assert(cmds@ =~= self.spec_file_commands(p));
                        }
                    }
                },
            }
        } else if self.dir.latest_only {
            cmds.push(PlatterCommand::ClearTag(self.tag));
            cmds.push(PlatterCommand::LoadFile(p, Some(self.tag)));
            proof {
                assert(cmds@ =~= self.spec_file_commands(p));
            }
        } else {
            cmds.push(PlatterCommand::LoadFile(p, Some(self.tag)));
            proof {
                assert(cmds@ =~= self.spec_file_commands(p));
            }
        }
        cmds
    }

    /// React to one filesystem notification. Arrived files emit their
    /// loads (and clears, under latest-only) in order; a created folder
    /// becomes the active subdirectory and clears the tag when the watch
    /// organizes by directory and keeps only the latest content; the stop
    /// signal ends the watch; everything else emits nothing and changes
    /// nothing.
    pub fn on_event(&mut self, e: WatcherEvent) -> (cmds: Vec<PlatterCommand>)
        ensures
            final(self).dir == old(self).dir,
            final(self).tag == old(self).tag,
            match e {
                WatcherEvent::FilesArrived(ps) => {
                    &&& final(self).latest_dir == old(self).latest_dir
                    &&& final(self).stopped == old(self).stopped
                    &&& cmds@ == old(self).spec_files_commands(ps@)
                },
                WatcherEvent::FolderCreated(ps) => {
                    &&& final(self).stopped == old(self).stopped
                    &&& if old(self).dir.organize_by_dir && old(self).dir.latest_only {
                        &&& cmds@ == seq![PlatterCommand::ClearTag(old(self).tag)]
                        &&& final(self).latest_dir == if ps@.len() > 0 {
                            Some(ps@[0])
                        } else {
                            None::<String>
                        }
                    } else {
                        &&& cmds@.len() == 0
                        &&& final(self).latest_dir == old(self).latest_dir
                    }
                },
                WatcherEvent::Stop => {
                    &&& cmds@.len() == 0
                    &&& final(self).stopped
                    &&& final(self).latest_dir == old(self).latest_dir
                },
                WatcherEvent::Other => *final(self) == *old(self) && cmds@.len() == 0,
            },
    {
        match e {
            WatcherEvent::FilesArrived(ps) => {
                let mut ps = ps;
                let ghost pv = ps@;
                let mut cmds: Vec<PlatterCommand> = Vec::new();
                let mut i: usize = 0;
                while i < ps.len()
                    invariant
                        i <= ps@.len(),
                        ps@.len() == pv.len(),
                        forall|j: int| i <= j < pv.len() ==> ps@[j] == pv[j],
                        *self == *old(self),
                        cmds@ == old(self).spec_files_commands(pv.subrange(0, i as int)),
                    decreases ps@.len() - i,
                {
                    let mut p = String::new();
                    core::mem::swap(&mut p, &mut ps[i]);
                    let mut more = self.handle_new_file(p);
                    let ghost mv = more@;
                    let ghost before = cmds@;
                    let mut w: usize = 0;
                    while w < more.len()
                        invariant
                            w <= more@.len(),
                            more@.len() == mv.len(),
                            forall|j: int| w <= j < mv.len() ==> more@[j] == mv[j],
                            cmds@ == before + mv.subrange(0, w as int),
                        decreases more@.len() - w,
                    {
                        let mut cm = PlatterCommand::ClearTag(Tag(0));
                        core::mem::swap(&mut cm, &mut more[w]);
                        cmds.push(cm);
                        proof {
                            assert(mv.subrange(0, w + 1) =~= mv.subrange(0, w as int).push(
                                mv[w as int],
                            ));
                            assert(cmds@ =~= before + mv.subrange(0, w + 1));
                        }
                        w = w + 1;
                    }
                    proof {
                        assert(mv.subrange(0, mv.len() as int) =~= mv);
                        assert(pv.subrange(0, i + 1).drop_last() =~= pv.subrange(0, i as int));
                        assert(pv.subrange(0, i + 1).last() == pv[i as int]);
                        assert(cmds@ =~= old(self).spec_files_commands(pv.subrange(0, i + 1)));
                    }
                    i = i + 1;
                }
                proof {
                    assert(pv.subrange(0, pv.len() as int) =~= pv);
                }
                cmds
            },
            WatcherEvent::FolderCreated(ps) => {
                let mut cmds: Vec<PlatterCommand> = Vec::new();
                if self.dir.organize_by_dir && self.dir.latest_only {
                    cmds.push(PlatterCommand::ClearTag(self.tag));
                    let mut ps = ps;
                    if ps.len() > 0 {
                        let mut p = String::new();
                        core::mem::swap(&mut p, &mut ps[0]);
                        self.latest_dir = Some(p);
                    } else {
                        self.latest_dir = None;
                    }
                    proof {
                        assert(cmds@ =~= seq![PlatterCommand::ClearTag(old(self).tag)]);
                    }
                }
                cmds
            },
            WatcherEvent::Stop => {
                self.stopped = true;
                Vec::new()
            },
            WatcherEvent::Other => Vec::new(),
        }
    }
}

} // verus!
