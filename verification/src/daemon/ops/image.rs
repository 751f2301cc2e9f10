//! Building the image of a profile.
use crate::accounts::{lookup_passwd_entry, user_entry};
use crate::daemon::builder::{build_argv, builder_argv, digest_from_out_dir};
use crate::daemon::ops::shared::{
    internal, internal_error, load_manifest, no_profile, resolve_build_uid, template_dir_of,
    template_dir_path, templates_dir, templates_dir_of, ManifestRead, Refusal, RefusalView,
};
use crate::json::{fields_view, object, put, Json, JsonView};
use crate::paths::{file_name, join_path, path_join};
use crate::text::{lines, texts};
use vstd::prelude::*;

verus! {

/// What a build waits for.
#[derive(Debug, Clone, Copy, PartialEq, Eq, Structural)]
pub enum BuildPhase {
    /// The manifest of the profile.
    Manifest,
    /// The owner of the profiles.
    Owner,
    /// The accounts of the host.
    Accounts,
    /// The directory in which the builder works.
    Stage,
    /// The builder.
    Builder,
    /// Where the link `latest` of the builder points.
    Latest,
    /// The image in its place.
    Place,
    /// The link `latest` of the profile.
    Link,
    /// The removal of the directory, after a failure.
    Failed,
    /// The removal of the directory, after a success.
    Cleared,
    /// Nothing: the build is over.
    Done,
}

/// The kinds of what a build does next.
#[derive(Debug, Clone, Copy, PartialEq, Eq, Structural)]
pub enum BuildMove {
    AskOwner,
    ReadAccounts,
    Stage,
    RunBuilder,
    ReadLatest,
    Place,
    Link,
    Unstage,
    Reply,
    RefuseEvent,
    RefuseInternal,
}

/// The course of a build. That the link could not be set is no failure of the build.
pub open spec fn advance(phase: BuildPhase, good: bool) -> (BuildPhase, BuildMove) {
    match phase {
        BuildPhase::Manifest => if good {
            (BuildPhase::Owner, BuildMove::AskOwner)
        } else {
            (BuildPhase::Done, BuildMove::RefuseEvent)
        },
        BuildPhase::Owner => if good {
            (BuildPhase::Accounts, BuildMove::ReadAccounts)
        } else {
            (BuildPhase::Done, BuildMove::RefuseInternal)
        },
        BuildPhase::Accounts => if good {
            (BuildPhase::Stage, BuildMove::Stage)
        } else {
            (BuildPhase::Done, BuildMove::RefuseInternal)
        },
        BuildPhase::Stage => if good {
            (BuildPhase::Builder, BuildMove::RunBuilder)
        } else {
            (BuildPhase::Done, BuildMove::RefuseInternal)
        },
        BuildPhase::Builder => if good {
            (BuildPhase::Latest, BuildMove::ReadLatest)
        } else {
            (BuildPhase::Failed, BuildMove::Unstage)
        },
        BuildPhase::Latest => if good {
            (BuildPhase::Place, BuildMove::Place)
        } else {
            (BuildPhase::Failed, BuildMove::Unstage)
        },
        BuildPhase::Place => if good {
            (BuildPhase::Link, BuildMove::Link)
        } else {
            (BuildPhase::Failed, BuildMove::Unstage)
        },
        BuildPhase::Link => (BuildPhase::Cleared, BuildMove::Unstage),
        BuildPhase::Failed => (BuildPhase::Done, BuildMove::RefuseInternal),
        BuildPhase::Cleared => (BuildPhase::Done, BuildMove::Reply),
        BuildPhase::Done => (BuildPhase::Done, BuildMove::RefuseInternal),
    }
}

/// The directory of the builder was made and is still there.
pub open spec fn is_staged(phase: BuildPhase) -> bool {
    phase == BuildPhase::Builder || phase == BuildPhase::Latest || phase == BuildPhase::Place
        || phase == BuildPhase::Link
}

/// Once the directory of the builder was made, it is removed before the build ends, however it
/// ends. One that could not be made is not touched.
pub proof fn a_build_leaves_no_staging(phase: BuildPhase, good: bool)
    ensures
        ({
            let (next, m) = advance(phase, good);
            &&& is_staged(phase) && !is_staged(next) ==> m == BuildMove::Unstage
            &&& m == BuildMove::Reply || m == BuildMove::RefuseInternal || m
                == BuildMove::RefuseEvent ==> !is_staged(phase)
            &&& m == BuildMove::Reply ==> phase == BuildPhase::Cleared
        }),
{
}

/// What a build wants done.
pub enum BuildAction {
    AskOwner,
    ReadAccounts,
    /// Makes the directory, owned by the builder.
    Stage { dir: String, uid: u32 },
    RunBuilder { argv: Vec<String>, out_dir: String, home: String },
    ReadLink { path: String },
    /// Moves the image to its place, unless one of the same digest is there already, and gives
    /// it to root.
    Place { built: String, target: String },
    Link { dir: String, digest: String },
    Unstage { dir: String },
    Reply(Json),
    Refuse(Refusal),
}

/// What came of it.
pub enum BuildEvent {
    Manifest(ManifestRead),
    Number(Option<u32>),
    Text(Option<String>),
    Flag(bool),
    Done,
}

pub struct BuildJob {
    pub state_dir: String,
    pub build_uid: Option<u32>,
    pub profile: String,
    /// What tells this build from every other one that runs.
    pub tag: String,
    pub phase: BuildPhase,
    pub uid: u32,
    pub gid: u32,
    pub home: String,
    pub digest: String,
}

/// Where the builder works.
pub open spec fn staging_of(job: BuildJob) -> Seq<char> {
    join_path(
        join_path(join_path(job.state_dir@, "templates"@), ".staging"@),
        job.profile@ + "-"@ + job.tag@,
    )
}

pub open spec fn profile_dir_of(job: BuildJob) -> Seq<char> {
    join_path(join_path(job.state_dir@, "profiles"@), job.profile@)
}

/// What an event means for a build: that it can go on, or the refusal that follows.
pub open spec fn verdict(job: BuildJob, event: BuildEvent) -> Result<(), RefusalView> {
    match (job.phase, event) {
        (BuildPhase::Manifest, BuildEvent::Manifest(read)) => match read {
            ManifestRead::Missing => Err(no_profile(job.profile@)),
            ManifestRead::Unreadable => Err(internal()),
            ManifestRead::Found(_) => Ok(()),
        },
        (BuildPhase::Owner, BuildEvent::Number(owner)) => if job.build_uid is Some || owner
            is Some {
            Ok(())
        } else {
            Err(internal())
        },
        (BuildPhase::Accounts, BuildEvent::Text(Some(passwd))) => match user_entry(
            "/etc/passwd"@,
            job.uid,
            lines(passwd@),
        ) {
            Ok(_) => Ok(()),
            Err(_) => Err(internal()),
        },
        (BuildPhase::Latest, BuildEvent::Text(Some(target))) => if file_name(target@) is Some {
            Ok(())
        } else {
            Err(internal())
        },
        (BuildPhase::Stage, BuildEvent::Flag(true)) => Ok(()),
        (BuildPhase::Builder, BuildEvent::Flag(true)) => Ok(()),
        (BuildPhase::Place, BuildEvent::Flag(true)) => Ok(()),
        _ => Err(internal()),
    }
}

pub open spec fn build_reply(profile: Seq<char>, digest: Seq<char>, path: Seq<char>) -> JsonView {
    JsonView::Object(
        seq![
            ("profile"@, JsonView::Str(profile)),
            ("digest"@, JsonView::Str(digest)),
            ("path"@, JsonView::Str(path)),
        ],
    )
}

pub open spec fn is_action(
    a: BuildAction,
    m: BuildMove,
    job: BuildJob,
    verdict: Result<(), RefusalView>,
) -> bool {
    let target = template_dir_of(job.state_dir@, job.profile@, job.digest@);
    match m {
        BuildMove::AskOwner => a is AskOwner,
        BuildMove::ReadAccounts => a is ReadAccounts,
        BuildMove::Stage => a matches BuildAction::Stage { dir, uid } && dir@ == staging_of(job)
            && uid == job.uid,
        BuildMove::RunBuilder => a matches BuildAction::RunBuilder { argv, out_dir, home } && texts(
            argv@,
        ) == builder_argv(job.uid, job.gid, profile_dir_of(job)) && out_dir@ == staging_of(job)
            && home@ == job.home@,
        BuildMove::ReadLatest => a matches BuildAction::ReadLink { path } && path@ == join_path(
            join_path(staging_of(job), job.profile@),
            "latest"@,
        ),
        BuildMove::Place => a matches BuildAction::Place { built, target: t } && built@
            == join_path(join_path(staging_of(job), job.profile@), job.digest@) && t@ == target,
        BuildMove::Link => a matches BuildAction::Link { dir, digest } && dir@ == templates_dir_of(
            job.state_dir@,
            job.profile@,
        ) && digest@ == job.digest@,
        BuildMove::Unstage => a matches BuildAction::Unstage { dir } && dir@ == staging_of(job),
        BuildMove::Reply => a matches BuildAction::Reply(value) && value@ == build_reply(
            job.profile@,
            job.digest@,
            target,
        ),
        BuildMove::RefuseEvent => a matches BuildAction::Refuse(e) && (verdict matches Err(v) && e@
            == v),
        BuildMove::RefuseInternal => a matches BuildAction::Refuse(e) && e@ == internal(),
    }
}

/// What a build has learnt from an event, and that the rest of it stays.
pub open spec fn has_learnt(old_job: BuildJob, event: BuildEvent, job: BuildJob) -> bool {
    let good = verdict(old_job, event) is Ok;
    &&& job.state_dir == old_job.state_dir
    &&& job.build_uid == old_job.build_uid
    &&& job.profile == old_job.profile
    &&& job.tag == old_job.tag
    &&& job.uid == (if old_job.phase == BuildPhase::Owner && good {
        match old_job.build_uid {
            Some(uid) => uid,
            None => event->Number_0->0,
        }
    } else {
        old_job.uid
    })
    &&& match (old_job.phase, event) {
        (BuildPhase::Accounts, BuildEvent::Text(Some(passwd))) => match user_entry(
            "/etc/passwd"@,
            old_job.uid,
            lines(passwd@),
        ) {
            Ok(entry) => job.gid as nat == entry.0 && job.home@ == entry.1,
            Err(_) => job.gid == old_job.gid && job.home@ == old_job.home@,
        },
        _ => job.gid == old_job.gid && job.home@ == old_job.home@,
    }
    &&& match (old_job.phase, event) {
        (BuildPhase::Latest, BuildEvent::Text(Some(target))) => match file_name(target@) {
            Some(name) => job.digest@ == name,
            None => job.digest@ == old_job.digest@,
        },
        _ => job.digest@ == old_job.digest@,
    }
}

impl BuildJob {
    /// Takes up the request to build the image of a profile. The first thing to read is its
    /// manifest.
    pub fn begin(state_dir: String, build_uid: Option<u32>, profile: String, tag: String) -> (r:
        BuildJob)
        ensures
            r.state_dir == state_dir,
            r.build_uid == build_uid,
            r.profile == profile,
            r.tag == tag,
            r.phase == BuildPhase::Manifest,
            r.uid == 0 && r.gid == 0,
            r.home@.len() == 0 && r.digest@.len() == 0,
    {
        BuildJob {
            state_dir,
            build_uid,
            profile,
            tag,
            phase: BuildPhase::Manifest,
            uid: 0,
            gid: 0,
            home: String::new(),
            digest: String::new(),
        }
    }

    fn staging(&self) -> (r: String)
        ensures
            r@ == staging_of(*self),
    {
        let dir = path_join(self.state_dir.as_str(), "templates");
        let dir = path_join(dir.as_str(), ".staging");
        let name = self.profile.clone().concat("-").concat(self.tag.as_str());
        path_join(dir.as_str(), name.as_str())
    }

    fn in_staging(&self, name: &str) -> (r: String)
        ensures
            r@ == join_path(join_path(staging_of(*self), self.profile@), name@),
    {
        let dir = self.staging();
        let dir = path_join(dir.as_str(), self.profile.as_str());
        path_join(dir.as_str(), name)
    }

    fn target(&self) -> (r: String)
        ensures
            r@ == template_dir_of(self.state_dir@, self.profile@, self.digest@),
    {
        template_dir_path(self.state_dir.as_str(), self.profile.as_str(), self.digest.as_str())
    }

    fn refuse_with(&mut self, e: Refusal) -> (r: BuildAction)
        ensures
            *final(self) == (BuildJob { phase: BuildPhase::Done, ..*old(self) }),
            r matches BuildAction::Refuse(x) && x@ == e@,
    {
        self.phase = BuildPhase::Done;
        BuildAction::Refuse(e)
    }

    fn unstage(&mut self, phase: BuildPhase) -> (r: BuildAction)
        ensures
            *final(self) == (BuildJob { phase, ..*old(self) }),
            is_action(r, BuildMove::Unstage, *final(self), Ok(())),
    {
        self.phase = phase;
        BuildAction::Unstage { dir: self.staging() }
    }

    fn reply(&self) -> (r: BuildAction)
        ensures
            is_action(r, BuildMove::Reply, *self, Ok(())),
    {
        let path = self.target();
        let mut f: Vec<(String, Json)> = Vec::new();
        assert(fields_view(f@) =~= seq![]);
        put(&mut f, "profile", Json::Str(self.profile.clone()));
        put(&mut f, "digest", Json::Str(self.digest.clone()));
        put(&mut f, "path", Json::Str(path.clone()));
        assert(fields_view(f@) =~= build_reply(self.profile@, self.digest@, path@)->Object_0);
        BuildAction::Reply(object(f))
    }

    /// Goes on from what came of the last action.
    pub fn step(&mut self, event: BuildEvent) -> (r: BuildAction)
        ensures
            has_learnt(*old(self), event, *final(self)),
            ({
                let v = verdict(*old(self), event);
                let (next, m) = advance(old(self).phase, v is Ok);
                final(self).phase == next && is_action(r, m, *final(self), v)
            }),
    {
        let good = match event {
            BuildEvent::Flag(b) => b,
            _ => false,
        };
        match self.phase {
            BuildPhase::Manifest => {
                match event {
                    BuildEvent::Manifest(read) => {
                        match load_manifest(self.profile.as_str(), read) {
                            Ok(_) => {
                                self.phase = BuildPhase::Owner;
                                BuildAction::AskOwner
                            },
                            Err(e) => self.refuse_with(e),
                        }
                    },
                    _ => self.refuse_with(internal_error()),
                }
            },
            BuildPhase::Owner => {
                match event {
                    BuildEvent::Number(owner) => {
                        match resolve_build_uid(self.build_uid, owner) {
                            Ok(uid) => {
                                self.uid = uid;
                                self.phase = BuildPhase::Accounts;
                                BuildAction::ReadAccounts
                            },
                            Err(e) => self.refuse_with(e),
                        }
                    },
                    _ => self.refuse_with(internal_error()),
                }
            },
            BuildPhase::Accounts => {
                match event {
                    BuildEvent::Text(Some(passwd)) => {
                        match lookup_passwd_entry("/etc/passwd", passwd.as_str(), self.uid) {
                            Ok(entry) => {
                                self.gid = entry.gid;
                                self.home = entry.home;
                                self.phase = BuildPhase::Stage;
                                BuildAction::Stage { dir: self.staging(), uid: self.uid }
                            },
                            Err(_) => self.refuse_with(internal_error()),
                        }
                    },
                    _ => self.refuse_with(internal_error()),
                }
            },
            BuildPhase::Stage => {
                if good {
                    self.phase = BuildPhase::Builder;
                    let dir = path_join(self.state_dir.as_str(), "profiles");
                    let dir = path_join(dir.as_str(), self.profile.as_str());
                    BuildAction::RunBuilder {
                        argv: build_argv(self.uid, self.gid, dir.as_str()),
                        out_dir: self.staging(),
                        home: self.home.clone(),
                    }
                } else {
                    self.refuse_with(internal_error())
                }
            },
            BuildPhase::Builder => {
                if good {
                    self.phase = BuildPhase::Latest;
                    BuildAction::ReadLink { path: self.in_staging("latest") }
                } else {
                    self.unstage(BuildPhase::Failed)
                }
            },
            BuildPhase::Latest => {
                let target = match &event {
                    BuildEvent::Text(Some(t)) => Some(t.as_str()),
                    _ => None,
                };
                let latest = self.in_staging("latest");
                match digest_from_out_dir(latest.as_str(), target) {
                    Ok(digest) => {
                        self.digest = digest;
                        self.phase = BuildPhase::Place;
                        BuildAction::Place {
                            built: self.in_staging(self.digest.as_str()),
                            target: self.target(),
                        }
                    },
                    Err(_) => self.unstage(BuildPhase::Failed),
                }
            },
            BuildPhase::Place => {
                if good {
                    self.phase = BuildPhase::Link;
                    BuildAction::Link {
                        dir: templates_dir(self.state_dir.as_str(), self.profile.as_str()),
                        digest: self.digest.clone(),
                    }
                } else {
                    self.unstage(BuildPhase::Failed)
                }
            },
            BuildPhase::Link => self.unstage(BuildPhase::Cleared),
            BuildPhase::Failed => self.refuse_with(internal_error()),
            BuildPhase::Cleared => {
                self.phase = BuildPhase::Done;
                self.reply()
            },
            BuildPhase::Done => self.refuse_with(internal_error()),
        }
    }
}

} // verus!
