//! Destroying a space.
use crate::daemon::ops::shared::{
    internal, internal_error, must_stop_first, not_found, reject_if_running, space_dir_of,
    space_dir_path, space_or_not_found, Refusal,
};
use crate::daemon::ops::volumes::{id_reply, reply_with_id};
use crate::daemon::qemu::SpaceState;
use crate::daemon::render::{
    first_oversized, nft_text, oversized_text, registry_document, registry_rows,
};
use crate::daemon::store::{
    index_of_id, refresh, registry_rows_of, space_with_id, SpaceConfig, Store,
};
use crate::json::Json;
use crate::names::{space_tap, tap_name};
use crate::toml::is_written;
use vstd::prelude::*;

verus! {

/// What a destruction waits for.
#[derive(Debug, Clone, Copy, PartialEq, Eq, Structural)]
pub enum DestroyPhase {
    /// Whether the machine runs.
    State,
    /// Whether a tap was left over.
    Link,
    /// Its removal.
    Tap,
    /// The removal of the directory of the space.
    Directory,
    /// The registry and the rules of the bridge.
    Publish,
    /// Nothing: the destruction is over.
    Done,
}

/// The kinds of what a destruction does next.
#[derive(Debug, Clone, Copy, PartialEq, Eq, Structural)]
pub enum DestroyMove {
    AskLink,
    DropTap,
    RemoveSpace,
    Publish,
    Reply,
    RefuseRunning,
    RefuseInternal,
}

/// The course of a destruction. A tap that is left over goes first: it would hold the context id
/// of the space for ever.
pub open spec fn advance(phase: DestroyPhase, good: bool) -> (DestroyPhase, DestroyMove) {
    match phase {
        DestroyPhase::State => if good {
            (DestroyPhase::Link, DestroyMove::AskLink)
        } else {
            (DestroyPhase::Done, DestroyMove::RefuseRunning)
        },
        DestroyPhase::Link => if good {
            (DestroyPhase::Tap, DestroyMove::DropTap)
        } else {
            (DestroyPhase::Directory, DestroyMove::RemoveSpace)
        },
        DestroyPhase::Tap => if good {
            (DestroyPhase::Directory, DestroyMove::RemoveSpace)
        } else {
            (DestroyPhase::Done, DestroyMove::RefuseInternal)
        },
        DestroyPhase::Directory => if good {
            (DestroyPhase::Publish, DestroyMove::Publish)
        } else {
            (DestroyPhase::Done, DestroyMove::RefuseInternal)
        },
        DestroyPhase::Publish => if good {
            (DestroyPhase::Done, DestroyMove::Reply)
        } else {
            (DestroyPhase::Done, DestroyMove::RefuseInternal)
        },
        DestroyPhase::Done => (DestroyPhase::Done, DestroyMove::RefuseInternal),
    }
}

/// What a destruction wants done.
pub enum DestroyAction {
    AskLink { name: String },
    DropTap { cid: u32 },
    RemoveSpace { dir: String },
    /// Writes the registry, then applies the rules, if there are any.
    Publish { registry: String, rules: Result<String, String> },
    Reply(Json),
    Refuse(Refusal),
}

/// What came of it.
pub enum DestroyEvent {
    State(SpaceState),
    Flag(bool),
}

pub struct DestroyJob {
    pub state_dir: String,
    pub store: Store,
    pub space: SpaceConfig,
    pub phase: DestroyPhase,
}

pub open spec fn is_good(phase: DestroyPhase, event: DestroyEvent) -> bool {
    match (phase, event) {
        (DestroyPhase::State, DestroyEvent::State(s)) => s != SpaceState::Running,
        (DestroyPhase::State, _) => false,
        (_, DestroyEvent::Flag(b)) => b,
        _ => false,
    }
}

pub open spec fn is_action(a: DestroyAction, m: DestroyMove, job: DestroyJob) -> bool {
    match m {
        DestroyMove::AskLink => a matches DestroyAction::AskLink { name } && name@ == tap_name(
            job.space.cid,
        ),
        DestroyMove::DropTap => a matches DestroyAction::DropTap { cid } && cid == job.space.cid,
        DestroyMove::RemoveSpace => a matches DestroyAction::RemoveSpace { dir } && dir@
            == space_dir_of(job.state_dir@, job.space.id@),
        DestroyMove::Publish => a matches DestroyAction::Publish { registry, rules } && is_written(
            registry@,
            registry_document(registry_rows(registry_rows_of(job.store@))),
        ) && (
        match first_oversized(registry_rows_of(job.store@)) {
            Some(cid) => rules matches Err(words) && words@ == oversized_text(cid),
            None => rules matches Ok(text) && text@ == nft_text(registry_rows_of(job.store@)),
        }),
        DestroyMove::Reply => a matches DestroyAction::Reply(value) && value@ == id_reply(
            job.space.id@,
        ),
        DestroyMove::RefuseRunning => a matches DestroyAction::Refuse(e) && e@ == must_stop_first(
            job.space.id@,
        ),
        DestroyMove::RefuseInternal => a matches DestroyAction::Refuse(e) && e@ == internal(),
    }
}

impl DestroyJob {
    /// Takes up the request to destroy a space.
    pub fn begin(state_dir: String, store: Store, id: &str) -> (r: Result<DestroyJob, Refusal>)
        ensures
            match space_with_id(store@, id@) {
                None => r matches Err(e) && e@ == not_found(id@),
                Some(c) => {
                    &&& r matches Ok(job)
                    &&& job.state_dir == state_dir
                    &&& job.store == store
                    &&& job.space@ == c
                    &&& job.phase == DestroyPhase::State
                },
            },
    {
        let space = space_or_not_found(&store, id)?;
        Ok(DestroyJob { state_dir, store, space, phase: DestroyPhase::State })
    }

    fn remove_space(&mut self) -> (r: DestroyAction)
        ensures
            *final(self) == (DestroyJob { phase: DestroyPhase::Directory, ..*old(self) }),
            is_action(r, DestroyMove::RemoveSpace, *final(self)),
    {
        self.phase = DestroyPhase::Directory;
        DestroyAction::RemoveSpace {
            dir: space_dir_path(self.state_dir.as_str(), self.space.id.as_str()),
        }
    }

    fn fail(&mut self) -> (r: DestroyAction)
        ensures
            *final(self) == (DestroyJob { phase: DestroyPhase::Done, ..*old(self) }),
            is_action(r, DestroyMove::RefuseInternal, *final(self)),
    {
        self.phase = DestroyPhase::Done;
        DestroyAction::Refuse(internal_error())
    }

    /// Goes on from what came of the last action. The space is forgotten once its directory is
    /// gone.
    pub fn step(&mut self, event: DestroyEvent) -> (r: DestroyAction)
        ensures
            final(self).state_dir == old(self).state_dir,
            final(self).space == old(self).space,
            final(self).store@ == (if old(self).phase == DestroyPhase::Directory && is_good(
                old(self).phase,
                event,
            ) {
                match index_of_id(old(self).store@, old(self).space.id@) {
                    Some(i) => old(self).store@.remove(i),
                    None => old(self).store@,
                }
            } else {
                old(self).store@
            }),
            ({
                let (next, m) = advance(old(self).phase, is_good(old(self).phase, event));
                final(self).phase == next && is_action(r, m, *final(self))
            }),
    {
        let good = match event {
            DestroyEvent::Flag(b) => b,
            _ => false,
        };
        match self.phase {
            DestroyPhase::State => {
                let state = match event {
                    DestroyEvent::State(s) => s,
                    _ => SpaceState::Running,
                };
                match reject_if_running(self.space.id.as_str(), state) {
                    Ok(()) => {
                        self.phase = DestroyPhase::Link;
                        DestroyAction::AskLink { name: space_tap(self.space.cid) }
                    },
                    Err(e) => {
                        self.phase = DestroyPhase::Done;
                        DestroyAction::Refuse(e)
                    },
                }
            },
            DestroyPhase::Link => {
                if good {
                    self.phase = DestroyPhase::Tap;
                    DestroyAction::DropTap { cid: self.space.cid }
                } else {
                    self.remove_space()
                }
            },
            DestroyPhase::Tap => {
                if good {
                    self.remove_space()
                } else {
                    self.fail()
                }
            },
            DestroyPhase::Directory => {
                if good {
                    let forgotten = self.store.remove_space(self.space.id.as_str());
                    self.phase = DestroyPhase::Publish;
                    let (registry, rules) = refresh(&self.store);
                    DestroyAction::Publish { registry, rules }
                } else {
                    self.fail()
                }
            },
            DestroyPhase::Publish => {
                if good {
                    self.phase = DestroyPhase::Done;
                    DestroyAction::Reply(reply_with_id(self.space.id.as_str()))
                } else {
                    self.fail()
                }
            },
            DestroyPhase::Done => self.fail(),
        }
    }
}

} // verus!
