//! Making the volumes of a space anew: the system layer, or everything, or the system layer on
//! top of the current image.
use crate::daemon::ops::shared::{
    create_volumes, internal, internal_error, latest_digest, load_manifest, must_stop_first,
    no_profile, no_template, not_found, overlay_steps, passphrase_problem, recreate_overlay,
    refusal, reject_if_running, require_passphrase_matches_encryption, resolve_latest_digest,
    is_complete, space_dir_of, space_dir_path, space_or_not_found, step_views, template_dir_is_complete,
    template_dir_of, template_dir_path, template_files, template_missing, volume_steps, Manifest,
    ManifestRead, Refusal, RefusalView, VolumeStep,
};
use crate::daemon::qemu::SpaceState;
use crate::daemon::store::{
    config_document, index_of_id, render_config, space_with_id, ConfigView, SpaceConfig, Store,
};
use crate::json::{fields_view, object, put, text, Json, JsonView};
use crate::paths::join_path;
use crate::text::{opt_text, str_equal, texts};
use crate::toml::is_written;
use vstd::prelude::*;

verus! {

#[derive(Debug, Clone, Copy, PartialEq, Eq, Structural)]
pub enum VolumeOp {
    /// The system layer, on the image that the space runs on. The data stays.
    ResetSystem,
    /// All volumes. The data is lost, and nothing is put in its place.
    ResetAll,
    /// The system layer, on the current image of the profile. The data stays.
    UpdateImage,
}

/// What the operation waits for.
#[derive(Debug, Clone, Copy, PartialEq, Eq, Structural)]
pub enum VolumePhase {
    /// Whether the machine runs.
    State,
    /// The manifest of the profile.
    Manifest,
    /// Where the link `latest` of the profile points.
    Latest,
    /// Which files of the image are there.
    Template,
    /// The file of the passphrase for the image commands.
    Secret,
    /// The volumes.
    Volumes,
    /// The document of the space on disk.
    Config,
    /// Nothing: the operation is over.
    Done,
}

/// The kinds of what the operation does next.
#[derive(Debug, Clone, Copy, PartialEq, Eq, Structural)]
pub enum VolumeMove {
    ReadManifest,
    ReadLatest,
    CheckTemplate,
    WriteSecret,
    MakeVolumes,
    WriteConfig,
    Reply,
    /// The space is on the current image already.
    ReplyUnchanged,
    Refuse,
}

/// How an event answers what the operation waits for.
#[derive(Debug, Clone, Copy, PartialEq, Eq, Structural)]
pub enum VolumeSignal {
    Good,
    Bad,
    /// The image is the one that the space runs on.
    Unchanged,
}

/// From here on the volumes are made, with the passphrase first where there is one.
pub open spec fn to_volumes(encrypted: bool) -> (VolumePhase, VolumeMove) {
    if encrypted {
        (VolumePhase::Secret, VolumeMove::WriteSecret)
    } else {
        (VolumePhase::Volumes, VolumeMove::MakeVolumes)
    }
}

/// The course of the operation.
pub open spec fn advance(
    op: VolumeOp,
    phase: VolumePhase,
    signal: VolumeSignal,
    encrypted: bool,
) -> (VolumePhase, VolumeMove) {
    let good = signal == VolumeSignal::Good;
    match phase {
        VolumePhase::State => if !good {
            (VolumePhase::Done, VolumeMove::Refuse)
        } else {
            match op {
                VolumeOp::ResetSystem => to_volumes(encrypted),
                VolumeOp::ResetAll => (VolumePhase::Manifest, VolumeMove::ReadManifest),
                VolumeOp::UpdateImage => (VolumePhase::Latest, VolumeMove::ReadLatest),
            }
        },
        VolumePhase::Manifest => if good {
            to_volumes(encrypted)
        } else {
            (VolumePhase::Done, VolumeMove::Refuse)
        },
        VolumePhase::Latest => match signal {
            VolumeSignal::Good => (VolumePhase::Template, VolumeMove::CheckTemplate),
            VolumeSignal::Unchanged => (VolumePhase::Done, VolumeMove::ReplyUnchanged),
            VolumeSignal::Bad => (VolumePhase::Done, VolumeMove::Refuse),
        },
        VolumePhase::Template => if good {
            to_volumes(encrypted)
        } else {
            (VolumePhase::Done, VolumeMove::Refuse)
        },
        VolumePhase::Secret => if good {
            (VolumePhase::Volumes, VolumeMove::MakeVolumes)
        } else {
            (VolumePhase::Done, VolumeMove::Refuse)
        },
        VolumePhase::Volumes => if !good {
            (VolumePhase::Done, VolumeMove::Refuse)
        } else if op == VolumeOp::UpdateImage {
            (VolumePhase::Config, VolumeMove::WriteConfig)
        } else {
            (VolumePhase::Done, VolumeMove::Reply)
        },
        VolumePhase::Config => if good {
            (VolumePhase::Done, VolumeMove::Reply)
        } else {
            (VolumePhase::Done, VolumeMove::Refuse)
        },
        VolumePhase::Done => (VolumePhase::Done, VolumeMove::Refuse),
    }
}

/// The layer is replaced before the new image is recorded: after a failure in between, the
/// record still names the old image, and a repetition does the rest. The other order would
/// claim a move that has not happened.
pub proof fn the_image_is_recorded_last(
    op: VolumeOp,
    phase: VolumePhase,
    signal: VolumeSignal,
    encrypted: bool,
)
    ensures
        ({
            let (next, m) = advance(op, phase, signal, encrypted);
            &&& m == VolumeMove::WriteConfig ==> phase == VolumePhase::Volumes && signal
                == VolumeSignal::Good && op == VolumeOp::UpdateImage
            &&& m == VolumeMove::MakeVolumes ==> signal == VolumeSignal::Good
        }),
{
}

// ---------------------------------------------------------------------------------------------
// The job
// ---------------------------------------------------------------------------------------------

/// What the operation wants done.
pub enum VolumeAction {
    ReadManifest { profile: String },
    ReadLatest { profile: String },
    CheckFiles { paths: Vec<String> },
    WriteSecret { passphrase: String },
    /// Takes the steps, and removes the file of the passphrase whatever came of them.
    MakeVolumes { steps: Vec<VolumeStep>, remove_after: Option<String> },
    WriteConfig { dir: String, text: String },
    Reply(Json),
    Refuse(Refusal),
}

/// What came of it.
pub enum VolumeEvent {
    State(SpaceState),
    Manifest(ManifestRead),
    Latest(Option<String>),
    Flags(Vec<bool>),
    Text(Option<String>),
    Flag(bool),
}

pub struct VolumeJob {
    pub op: VolumeOp,
    pub state_dir: String,
    pub store: Store,
    pub space: SpaceConfig,
    pub passphrase: Option<String>,
    pub phase: VolumePhase,
    pub manifest: Manifest,
    /// The image on which the system layer is made.
    pub digest: String,
    pub secret_file: Option<String>,
}

pub open spec fn template_of(job: VolumeJob) -> Seq<char> {
    template_dir_of(job.state_dir@, job.space.profile@, job.digest@)
}

pub open spec fn signal_of(job: VolumeJob, event: VolumeEvent) -> VolumeSignal {
    let good = match (job.phase, event) {
        (VolumePhase::State, VolumeEvent::State(s)) => s != SpaceState::Running,
        (VolumePhase::Manifest, VolumeEvent::Manifest(read)) => read is Found,
        (VolumePhase::Latest, VolumeEvent::Latest(target)) => latest_digest(
            job.state_dir@,
            job.space.profile@,
            opt_text(target),
        ) is Ok,
        (VolumePhase::Template, VolumeEvent::Flags(present)) => is_complete(present@),
        (VolumePhase::Secret, VolumeEvent::Text(t)) => t is Some,
        (VolumePhase::Volumes, VolumeEvent::Flag(b)) => b,
        (VolumePhase::Config, VolumeEvent::Flag(b)) => b,
        _ => false,
    };
    if !good {
        VolumeSignal::Bad
    } else if job.phase == VolumePhase::Latest && latest_digest(
        job.state_dir@,
        job.space.profile@,
        opt_text(event->Latest_0),
    ) == Ok::<Seq<char>, RefusalView>(job.space.digest@) {
        VolumeSignal::Unchanged
    } else {
        VolumeSignal::Good
    }
}

/// The refusal that follows from an event.
pub open spec fn volume_refusal(job: VolumeJob, event: VolumeEvent) -> RefusalView {
    match (job.phase, event) {
        (VolumePhase::State, _) => must_stop_first(job.space.id@),
        (VolumePhase::Manifest, VolumeEvent::Manifest(ManifestRead::Missing)) => no_profile(
            job.space.profile@,
        ),
        (VolumePhase::Latest, VolumeEvent::Latest(target)) => match latest_digest(
            job.state_dir@,
            job.space.profile@,
            opt_text(target),
        ) {
            Err(e) => e,
            Ok(_) => internal(),
        },
        (VolumePhase::Template, _) => no_template(template_of(job)),
        _ => internal(),
    }
}

/// The steps of the operation. The data volume is among them only where everything is reset.
pub open spec fn op_steps(job: VolumeJob) -> Seq<crate::daemon::ops::shared::StepView> {
    let space_dir = space_dir_of(job.state_dir@, job.space.id@);
    match job.op {
        VolumeOp::ResetAll => volume_steps(
            template_of(job),
            space_dir,
            job.space.uid,
            job.manifest.data_mb,
            None,
            opt_text(job.secret_file),
        ),
        _ => overlay_steps(template_of(job), space_dir, job.space.uid, opt_text(job.secret_file)),
    }
}

pub open spec fn id_reply(id: Seq<char>) -> JsonView {
    JsonView::Object(seq![("id"@, JsonView::Str(id))])
}

pub open spec fn update_reply(
    id: Seq<char>,
    from: Seq<char>,
    to: Seq<char>,
    detail: Seq<char>,
) -> JsonView {
    JsonView::Object(
        seq![
            ("id"@, JsonView::Str(id)),
            ("from"@, JsonView::Str(from)),
            ("to"@, JsonView::Str(to)),
            ("detail"@, JsonView::Str(detail)),
        ],
    )
}

/// The reply of an operation that succeeded.
pub open spec fn op_reply(job: VolumeJob) -> JsonView {
    if job.op == VolumeOp::UpdateImage {
        update_reply(
            job.space.id@,
            job.space.digest@,
            job.digest@,
            "образ обновлён, /data не тронут"@,
        )
    } else {
        id_reply(job.space.id@)
    }
}

/// The action of a kind, for a job and the refusal that the event would give.
pub open spec fn is_action(a: VolumeAction, m: VolumeMove, job: VolumeJob, e: RefusalView) -> bool {
    match m {
        VolumeMove::ReadManifest => a matches VolumeAction::ReadManifest { profile } && profile@
            == job.space.profile@,
        VolumeMove::ReadLatest => a matches VolumeAction::ReadLatest { profile } && profile@
            == job.space.profile@,
        VolumeMove::CheckTemplate => a matches VolumeAction::CheckFiles { paths } && texts(paths@)
            == seq![
            join_path(template_of(job), "root.qcow2"@),
            join_path(template_of(job), "vmlinuz"@),
            join_path(template_of(job), "initrd.img"@),
            join_path(template_of(job), "MANIFEST"@),
        ],
        VolumeMove::WriteSecret => a matches VolumeAction::WriteSecret { passphrase } && Some(
            passphrase@,
        ) == opt_text(job.passphrase),
        VolumeMove::MakeVolumes => a matches VolumeAction::MakeVolumes { steps, remove_after }
            && step_views(steps@) == op_steps(job) && opt_text(remove_after) == opt_text(
            job.secret_file,
        ),
        VolumeMove::WriteConfig => a matches VolumeAction::WriteConfig { dir, text } && dir@
            == space_dir_of(job.state_dir@, job.space.id@) && is_written(
            text@,
            config_document((ConfigView { digest: job.digest@, ..job.space@ })),
        ),
        VolumeMove::Reply => a matches VolumeAction::Reply(value) && value@ == op_reply(job),
        VolumeMove::ReplyUnchanged => a matches VolumeAction::Reply(value) && value@
            == update_reply(
            job.space.id@,
            job.space.digest@,
            job.space.digest@,
            "спейс уже на текущем образе"@,
        ),
        VolumeMove::Refuse => a matches VolumeAction::Refuse(x) && x@ == e,
    }
}

/// What a job has learnt from an event, and that the rest of it stays.
pub open spec fn has_learnt(old_job: VolumeJob, event: VolumeEvent, job: VolumeJob) -> bool {
    let good = signal_of(old_job, event) != VolumeSignal::Bad;
    &&& job.op == old_job.op
    &&& job.state_dir == old_job.state_dir
    &&& job.space == old_job.space
    &&& job.passphrase == old_job.passphrase
    &&& job.manifest == (if old_job.phase == VolumePhase::Manifest && good {
        event->Manifest_0->Found_0
    } else {
        old_job.manifest
    })
    &&& if old_job.phase == VolumePhase::Latest && good {
        latest_digest(old_job.state_dir@, old_job.space.profile@, opt_text(event->Latest_0)) == Ok::<
            Seq<char>,
            RefusalView,
        >(job.digest@)
    } else {
        job.digest@ == old_job.digest@
    }
    &&& opt_text(job.secret_file) == (if old_job.phase == VolumePhase::Secret && good {
        opt_text(event->Text_0)
    } else {
        opt_text(old_job.secret_file)
    })
    &&& if old_job.phase == VolumePhase::Volumes && good && old_job.op == VolumeOp::UpdateImage {
        match index_of_id(old_job.store@, old_job.space.id@) {
            Some(i) => job.store@ == old_job.store@.update(
                i,
                (ConfigView { digest: old_job.digest@, ..old_job.store@[i] }),
            ),
            None => job.store@ == old_job.store@,
        }
    } else {
        job.store@ == old_job.store@
    }
}

/// The job of an operation on a space whose data it keeps names no step on the data volume.
pub proof fn data_is_kept(job: VolumeJob)
    requires
        job.op != VolumeOp::ResetAll,
    ensures
        op_steps(job) == overlay_steps(
            template_of(job),
            space_dir_of(job.state_dir@, job.space.id@),
            job.space.uid,
            opt_text(job.secret_file),
        ),
        op_steps(job).len() == 2,
{
}

impl VolumeJob {
    /// Takes up the request. The first thing to find out is the state of the machine.
    pub fn begin(
        op: VolumeOp,
        state_dir: String,
        store: Store,
        id: &str,
        passphrase: Option<String>,
    ) -> (r: Result<VolumeJob, Refusal>)
        ensures
            match space_with_id(store@, id@) {
                None => r matches Err(e) && e@ == not_found(id@),
                Some(c) => match passphrase_problem(c.encrypted, passphrase is Some) {
                    Some(p) => r matches Err(e) && e@ == p,
                    None => {
                        &&& r matches Ok(job)
                        &&& job.op == op
                        &&& job.state_dir == state_dir
                        &&& job.store == store
                        &&& job.space@ == c
                        &&& job.passphrase == passphrase
                        &&& job.phase == VolumePhase::State
                        &&& job.digest@ == c.digest
                        &&& job.secret_file is None
                    },
                },
            },
    {
        let space = space_or_not_found(&store, id)?;
        require_passphrase_matches_encryption(space.encrypted, &passphrase)?;
        let digest = space.digest.clone();
        Ok(
            VolumeJob {
                op,
                state_dir,
                store,
                space,
                passphrase,
                phase: VolumePhase::State,
                manifest: Manifest::empty(),
                digest,
                secret_file: None,
            },
        )
    }

    fn template_dir(&self) -> (r: String)
        ensures
            r@ == template_of(*self),
    {
        template_dir_path(
            self.state_dir.as_str(),
            self.space.profile.as_str(),
            self.digest.as_str(),
        )
    }

    fn make_volumes(&self) -> (r: VolumeAction)
        ensures
            is_action(r, VolumeMove::MakeVolumes, *self, internal()),
    {
        let template_dir = self.template_dir();
        let space_dir = space_dir_path(self.state_dir.as_str(), self.space.id.as_str());
        let secret = match &self.secret_file {
            Some(path) => Some(path.as_str()),
            None => None,
        };
        let steps = match self.op {
            VolumeOp::ResetAll => create_volumes(
                template_dir.as_str(),
                space_dir.as_str(),
                self.space.uid,
                self.manifest.data_mb,
                None,
                secret,
            ),
            _ => recreate_overlay(
                template_dir.as_str(),
                space_dir.as_str(),
                self.space.uid,
                secret,
            ),
        };
        let remove_after = match &self.secret_file {
            Some(path) => Some(path.clone()),
            None => None,
        };
        VolumeAction::MakeVolumes { steps, remove_after }
    }

    fn go_to_volumes(&mut self) -> (r: VolumeAction)
        ensures
            *final(self) == (VolumeJob { phase: final(self).phase, ..*old(self) }),
            ({
                let (next, m) = to_volumes(old(self).passphrase is Some);
                final(self).phase == next && is_action(r, m, *final(self), internal())
            }),
    {
        match &self.passphrase {
            Some(p) => {
                let action = VolumeAction::WriteSecret { passphrase: p.clone() };
                self.phase = VolumePhase::Secret;
                action
            },
            None => {
                self.phase = VolumePhase::Volumes;
                self.make_volumes()
            },
        }
    }

    fn refuse_with(&mut self, e: Refusal) -> (r: VolumeAction)
        ensures
            *final(self) == (VolumeJob { phase: VolumePhase::Done, ..*old(self) }),
            r matches VolumeAction::Refuse(x) && x@ == e@,
    {
        self.phase = VolumePhase::Done;
        VolumeAction::Refuse(e)
    }

    fn reply_update(&self, to: &str, detail: &str) -> (r: Json)
        ensures
            r@ == update_reply(self.space.id@, self.space.digest@, to@, detail@),
    {
        let mut f: Vec<(String, Json)> = Vec::new();
        assert(fields_view(f@) =~= seq![]);
        put(&mut f, "id", Json::Str(self.space.id.clone()));
        put(&mut f, "from", Json::Str(self.space.digest.clone()));
        put(&mut f, "to", text(to));
        put(&mut f, "detail", text(detail));
        assert(fields_view(f@) =~= update_reply(
            self.space.id@,
            self.space.digest@,
            to@,
            detail@,
        )->Object_0);
        object(f)
    }

    fn reply(&self) -> (r: VolumeAction)
        ensures
            is_action(r, VolumeMove::Reply, *self, internal()),
    {
        match self.op {
            VolumeOp::UpdateImage => VolumeAction::Reply(
                self.reply_update(self.digest.as_str(), "образ обновлён, /data не тронут"),
            ),
            _ => VolumeAction::Reply(reply_with_id(self.space.id.as_str())),
        }
    }

    /// Goes on from what came of the last action.
    pub fn step(&mut self, event: VolumeEvent) -> (r: VolumeAction)
        ensures
            has_learnt(*old(self), event, *final(self)),
            ({
                let (next, m) = advance(
                    old(self).op,
                    old(self).phase,
                    signal_of(*old(self), event),
                    old(self).passphrase is Some,
                );
                final(self).phase == next && is_action(
                    r,
                    m,
                    *final(self),
                    volume_refusal(*old(self), event),
                )
            }),
    {
        match self.phase {
            VolumePhase::State => {
                let state = match event {
                    VolumeEvent::State(s) => s,
                    _ => SpaceState::Running,
                };
                match reject_if_running(self.space.id.as_str(), state) {
                    Err(e) => self.refuse_with(e),
                    Ok(()) => match self.op {
                        VolumeOp::ResetSystem => self.go_to_volumes(),
                        VolumeOp::ResetAll => {
                            self.phase = VolumePhase::Manifest;
                            VolumeAction::ReadManifest { profile: self.space.profile.clone() }
                        },
                        VolumeOp::UpdateImage => {
                            self.phase = VolumePhase::Latest;
                            VolumeAction::ReadLatest { profile: self.space.profile.clone() }
                        },
                    },
                }
            },
            VolumePhase::Manifest => {
                match event {
                    VolumeEvent::Manifest(read) => {
                        match load_manifest(self.space.profile.as_str(), read) {
                            Ok(m) => {
                                self.manifest = m;
                                self.go_to_volumes()
                            },
                            Err(e) => self.refuse_with(e),
                        }
                    },
                    _ => self.refuse_with(internal_error()),
                }
            },
            VolumePhase::Latest => {
                match event {
                    VolumeEvent::Latest(target) => {
                        let link = match &target {
                            Some(t) => Some(t.as_str()),
                            None => None,
                        };
                        match resolve_latest_digest(
                            self.state_dir.as_str(),
                            self.space.profile.as_str(),
                            link,
                        ) {
                            Ok(digest) => {
                                let same = str_equal(digest.as_str(), self.space.digest.as_str());
                                self.digest = digest;
                                if same {
                                    self.phase = VolumePhase::Done;
                                    let json = self.reply_update(
                                        self.space.digest.as_str(),
                                        "спейс уже на текущем образе",
                                    );
                                    VolumeAction::Reply(json)
                                } else {
                                    self.phase = VolumePhase::Template;
                                    let dir = self.template_dir();
                                    VolumeAction::CheckFiles {
                                        paths: template_files(dir.as_str()),
                                    }
                                }
                            },
                            Err(e) => self.refuse_with(e),
                        }
                    },
                    _ => self.refuse_with(internal_error()),
                }
            },
            VolumePhase::Template => {
                let complete = match &event {
                    VolumeEvent::Flags(present) => template_dir_is_complete(present),
                    _ => false,
                };
                if complete {
                    self.go_to_volumes()
                } else {
                    let dir = self.template_dir();
                    self.refuse_with(template_missing(dir.as_str()))
                }
            },
            VolumePhase::Secret => {
                match event {
                    VolumeEvent::Text(Some(path)) => {
                        self.secret_file = Some(path);
                        self.phase = VolumePhase::Volumes;
                        self.make_volumes()
                    },
                    _ => self.refuse_with(internal_error()),
                }
            },
            VolumePhase::Volumes => {
                match event {
                    VolumeEvent::Flag(true) => {
                        match self.op {
                            VolumeOp::UpdateImage => {
                                let recorded = self.store.set_digest(
                                    self.space.id.as_str(),
                                    self.digest.clone(),
                                );
                                let mut config = self.space.copy();
                                config.digest = self.digest.clone();
                                let text = render_config(&config);
                                assert(config@ =~= ConfigView {
                                    digest: self.digest@,
                                    ..self.space@
                                });
                                self.phase = VolumePhase::Config;
                                VolumeAction::WriteConfig {
                                    dir: space_dir_path(
                                        self.state_dir.as_str(),
                                        self.space.id.as_str(),
                                    ),
                                    text,
                                }
                            },
                            _ => {
                                self.phase = VolumePhase::Done;
                                self.reply()
                            },
                        }
                    },
                    _ => self.refuse_with(internal_error()),
                }
            },
            VolumePhase::Config => {
                match event {
                    VolumeEvent::Flag(true) => {
                        self.phase = VolumePhase::Done;
                        self.reply()
                    },
                    _ => self.refuse_with(internal_error()),
                }
            },
            VolumePhase::Done => self.refuse_with(internal_error()),
        }
    }
}

/// A reply that names a space and nothing else.
pub fn reply_with_id(id: &str) -> (r: Json)
    ensures
        r@ == id_reply(id@),
{
    let mut f: Vec<(String, Json)> = Vec::new();
    assert(fields_view(f@) =~= seq![]);
    put(&mut f, "id", text(id));
    assert(fields_view(f@) =~= id_reply(id@)->Object_0);
    object(f)
}

} // verus!
