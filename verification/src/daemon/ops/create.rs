//! Creating a space.
use crate::accounts::user_entry;
use crate::daemon::ops::shared::{
    create_volumes, internal, internal_error, load_manifest, no_profile, refusal, refuse,
    resolve_build_gid, resolve_build_uid, resolve_template_digest, seed_problem, space_dir_of,
    space_dir_path, step_views, template_digest, template_dir_of, template_dir_path,
    validate_seed_dir, volume_steps, ErrorCode, Manifest, ManifestRead, PathKind, Refusal,
    RefusalView, SeedSpec, VolumeStep,
};
use crate::daemon::render::{
    first_oversized, nft_text, oversized_text, registry_document, registry_rows, MIYORI_NET_ID,
};
use crate::daemon::store::{
    by_id, config_document, creation, is_created, refresh, registry_rows_of, render_config,
    space_with_id, ConfigView, NewSpace, SpaceConfig, Store,
};
use crate::json::{fields_view, object, put, Json, JsonView};
use crate::order::insert_by;
use crate::text::{lines, opt_text, str_equal, texts};
use crate::toml::is_written;
use vstd::prelude::*;

verus! {

/// What a creation waits for.
#[derive(Debug, Clone, Copy, PartialEq, Eq, Structural)]
pub enum CreatePhase {
    /// The spaces that exist.
    Store,
    /// The manifest of the profile.
    Manifest,
    /// The images of the profile.
    Templates,
    /// What stands where the files for the data are said to be.
    Seed,
    /// The owner of the profiles.
    Owner,
    /// The accounts of the host.
    Accounts,
    /// The links and accounts of the host, and the time.
    Host,
    /// The document of the space on disk.
    Config,
    /// The file of the passphrase for the image commands.
    Secret,
    /// The volumes.
    Volumes,
    /// The registry and the rules of the bridge.
    Publish,
    /// The removal of the space that could not be finished.
    Undone,
    /// Nothing: the creation is over.
    Done,
}

/// The kinds of what a creation does next.
#[derive(Debug, Clone, Copy, PartialEq, Eq, Structural)]
pub enum CreateMove {
    ReadManifest,
    ReadTemplates,
    StatSeed,
    AskOwner,
    ReadAccounts,
    AskHost,
    WriteConfig,
    WriteSecret,
    MakeVolumes,
    Publish,
    RemoveSpace,
    Reply,
    /// The refusal comes from the event itself.
    RefuseEvent,
    RefuseInternal,
}

/// The course of a creation.
pub open spec fn advance(
    phase: CreatePhase,
    good: bool,
    seeded: bool,
    encrypted: bool,
) -> (CreatePhase, CreateMove) {
    match phase {
        CreatePhase::Store => if good {
            (CreatePhase::Manifest, CreateMove::ReadManifest)
        } else {
            (CreatePhase::Done, CreateMove::RefuseEvent)
        },
        CreatePhase::Manifest => if good {
            (CreatePhase::Templates, CreateMove::ReadTemplates)
        } else {
            (CreatePhase::Done, CreateMove::RefuseEvent)
        },
        CreatePhase::Templates => if !good {
            (CreatePhase::Done, CreateMove::RefuseEvent)
        } else if seeded {
            (CreatePhase::Seed, CreateMove::StatSeed)
        } else {
            (CreatePhase::Host, CreateMove::AskHost)
        },
        CreatePhase::Seed => if good {
            (CreatePhase::Owner, CreateMove::AskOwner)
        } else {
            (CreatePhase::Done, CreateMove::RefuseEvent)
        },
        CreatePhase::Owner => if good {
            (CreatePhase::Accounts, CreateMove::ReadAccounts)
        } else {
            (CreatePhase::Done, CreateMove::RefuseInternal)
        },
        CreatePhase::Accounts => if good {
            (CreatePhase::Host, CreateMove::AskHost)
        } else {
            (CreatePhase::Done, CreateMove::RefuseInternal)
        },
        CreatePhase::Host => if good {
            (CreatePhase::Config, CreateMove::WriteConfig)
        } else {
            (CreatePhase::Done, CreateMove::RefuseInternal)
        },
        CreatePhase::Config => if !good {
            (CreatePhase::Done, CreateMove::RefuseInternal)
        } else if encrypted {
            (CreatePhase::Secret, CreateMove::WriteSecret)
        } else {
            (CreatePhase::Volumes, CreateMove::MakeVolumes)
        },
        CreatePhase::Secret => if good {
            (CreatePhase::Volumes, CreateMove::MakeVolumes)
        } else {
            (CreatePhase::Undone, CreateMove::RemoveSpace)
        },
        CreatePhase::Volumes => if good {
            (CreatePhase::Publish, CreateMove::Publish)
        } else {
            (CreatePhase::Undone, CreateMove::RemoveSpace)
        },
        CreatePhase::Publish => if good {
            (CreatePhase::Done, CreateMove::Reply)
        } else {
            (CreatePhase::Undone, CreateMove::RemoveSpace)
        },
        CreatePhase::Undone => (CreatePhase::Done, CreateMove::RefuseInternal),
        CreatePhase::Done => (CreatePhase::Done, CreateMove::RefuseInternal),
    }
}

/// The document of the space is on disk.
pub open spec fn is_on_disk(phase: CreatePhase) -> bool {
    phase == CreatePhase::Secret || phase == CreatePhase::Volumes || phase == CreatePhase::Publish
}

/// A space without sound volumes is worse than none: once its document is written, a creation
/// is refused only after the space has been removed.
pub proof fn a_refused_creation_leaves_no_space(
    phase: CreatePhase,
    good: bool,
    seeded: bool,
    encrypted: bool,
)
    ensures
        ({
            let (next, m) = advance(phase, good, seeded, encrypted);
            &&& m == CreateMove::RefuseEvent || m == CreateMove::RefuseInternal ==> !is_on_disk(
                phase,
            ) && next == CreatePhase::Done
            &&& is_on_disk(phase) && !is_on_disk(next) ==> m == CreateMove::RemoveSpace || m
                == CreateMove::Reply
            &&& m == CreateMove::Reply ==> phase == CreatePhase::Publish && good
        }),
{
}

// ---------------------------------------------------------------------------------------------
// The job
// ---------------------------------------------------------------------------------------------

/// What a creation wants done.
pub enum CreateAction {
    ReadManifest { profile: String },
    /// Reads where `latest` points, if it is a link, and which directories stand beside it.
    ReadTemplates { profile: String },
    StatPath { path: String },
    AskOwner,
    ReadAccounts,
    AskHost,
    /// Makes the directory and writes the document in it, both at once or not at all.
    WriteConfig { dir: String, text: String },
    WriteSecret { passphrase: String },
    /// Takes the steps, and removes the file of the passphrase whatever came of them.
    MakeVolumes { steps: Vec<VolumeStep>, remove_after: Option<String> },
    /// Writes the registry, then applies the rules, if there are any.
    Publish { registry: String, rules: Result<String, String> },
    RemoveSpace { dir: String },
    Reply(Json),
    Refuse(Refusal),
}

/// What came of it.
pub enum CreateEvent {
    Store(Option<Store>),
    Manifest(ManifestRead),
    Templates { latest: Option<String>, dirs: Vec<String> },
    Kind(PathKind),
    Number(Option<u32>),
    Text(Option<String>),
    Host { links: Vec<String>, passwd: Option<String>, now_secs: u64 },
    Flag(bool),
    Done,
}

pub struct CreateJob {
    pub state_dir: String,
    pub build_uid: Option<u32>,
    pub new: NewSpace,
    pub seed: Option<String>,
    pub passphrase: Option<String>,
    pub phase: CreatePhase,
    pub store: Store,
    pub manifest: Manifest,
    pub seed_uid: u32,
    pub seed_gid: u32,
    pub config: Option<SpaceConfig>,
    pub secret_file: Option<String>,
}

/// Why a request is refused before anything is looked at.
pub open spec fn request_problem(id: Seq<char>, passphrase: Option<Seq<char>>) -> Option<
    RefusalView,
> {
    if passphrase matches Some(p) && p.len() == 0 {
        Some(refusal(ErrorCode::BadRequest, "пароль спейса не может быть пустым"@))
    } else if id == MIYORI_NET_ID@ {
        Some(
            refusal(ErrorCode::BadRequest, "id \""@ + id + "\" зарезервирован за сетевой VM"@),
        )
    } else {
        None
    }
}

/// What an event means for a job: that it can go on, or the refusal that follows.
pub open spec fn verdict(job: CreateJob, event: CreateEvent) -> Result<(), RefusalView> {
    match (job.phase, event) {
        (CreatePhase::Store, CreateEvent::Store(Some(store))) => if space_with_id(
            store@,
            job.new.id@,
        ) is Some {
            Err(
                refusal(
                    ErrorCode::SpaceExists,
                    "спейс \""@ + job.new.id@ + "\" уже существует"@,
                ),
            )
        } else {
            Ok(())
        },
        (CreatePhase::Manifest, CreateEvent::Manifest(read)) => match read {
            ManifestRead::Missing => Err(no_profile(job.new.profile@)),
            ManifestRead::Unreadable => Err(internal()),
            ManifestRead::Found(_) => Ok(()),
        },
        (CreatePhase::Templates, CreateEvent::Templates { latest, dirs }) => match template_digest(
            job.state_dir@,
            job.new.profile@,
            opt_text(latest),
            texts(dirs@),
        ) {
            Ok(_) => Ok(()),
            Err(e) => Err(e),
        },
        (CreatePhase::Seed, CreateEvent::Kind(kind)) => match job.seed {
            Some(raw) => match seed_problem(raw@, job.manifest.data_mb, kind) {
                Some(e) => Err(e),
                None => Ok(()),
            },
            None => Err(internal()),
        },
        (CreatePhase::Owner, CreateEvent::Number(owner)) => if job.build_uid is Some || owner
            is Some {
            Ok(())
        } else {
            Err(internal())
        },
        (CreatePhase::Accounts, CreateEvent::Text(Some(passwd))) => match user_entry(
            "/etc/passwd"@,
            job.seed_uid,
            lines(passwd@),
        ) {
            Ok(_) => Ok(()),
            Err(_) => Err(internal()),
        },
        (CreatePhase::Host, CreateEvent::Host { links, passwd: Some(passwd), now_secs }) => match creation(
            job.store@,
            job.new.id@,
            texts(links@),
            passwd@,
            job.store.passwd_path@,
        ) {
            Ok(_) => Ok(()),
            Err(_) => Err(internal()),
        },
        (CreatePhase::Secret, CreateEvent::Text(Some(_))) => Ok(()),
        (CreatePhase::Config, CreateEvent::Flag(true)) => Ok(()),
        (CreatePhase::Volumes, CreateEvent::Flag(true)) => Ok(()),
        (CreatePhase::Publish, CreateEvent::Flag(true)) => Ok(()),
        _ => Err(internal()),
    }
}

/// The reply to a creation that succeeded.
pub open spec fn create_reply(c: ConfigView) -> JsonView {
    JsonView::Object(
        seq![
            ("id"@, JsonView::Str(c.id)),
            ("cid"@, JsonView::Unsigned(c.cid as u64)),
            ("uid"@, JsonView::Unsigned(c.uid as u64)),
        ],
    )
}

pub open spec fn opt_config(c: Option<SpaceConfig>) -> Option<ConfigView> {
    match c {
        Some(c) => Some(c@),
        None => None,
    }
}

/// The account and the directory from which the data of the new space is filled.
pub open spec fn is_seed(seed: Option<SeedSpec>, job: CreateJob) -> bool {
    match (seed, job.seed) {
        (Some(s), Some(dir)) => s.dir@ == dir@ && s.build_uid == job.seed_uid && s.build_gid
            == job.seed_gid,
        (None, None) => true,
        _ => false,
    }
}

/// The steps that make the volumes of the space that a job creates.
pub open spec fn are_steps(steps: Seq<VolumeStep>, job: CreateJob, c: ConfigView) -> bool {
    exists|seed: Option<SeedSpec>|
        {
            &&& #[trigger] is_seed(seed, job)
            &&& step_views(steps) == volume_steps(
                template_dir_of(job.state_dir@, job.new.profile@, job.new.digest@),
                space_dir_of(job.state_dir@, job.new.id@),
                c.uid,
                job.manifest.data_mb,
                seed,
                opt_text(job.secret_file),
            )
        }
}

/// The action of a kind, for a job.
pub open spec fn is_action(
    a: CreateAction,
    m: CreateMove,
    job: CreateJob,
    verdict: Result<(), RefusalView>,
) -> bool {
    let dir = space_dir_of(job.state_dir@, job.new.id@);
    match m {
        CreateMove::ReadManifest => a matches CreateAction::ReadManifest { profile } && profile@
            == job.new.profile@,
        CreateMove::ReadTemplates => a matches CreateAction::ReadTemplates { profile } && profile@
            == job.new.profile@,
        CreateMove::StatSeed => a matches CreateAction::StatPath { path } && Some(path@)
            == opt_text(job.seed),
        CreateMove::AskOwner => a is AskOwner,
        CreateMove::ReadAccounts => a is ReadAccounts,
        CreateMove::AskHost => a is AskHost,
        CreateMove::WriteConfig => a matches CreateAction::WriteConfig { dir: d, text } && d@ == dir
            && (opt_config(job.config) matches Some(c) && is_written(text@, config_document(c))),
        CreateMove::WriteSecret => a matches CreateAction::WriteSecret { passphrase } && Some(
            passphrase@,
        ) == opt_text(job.passphrase),
        CreateMove::MakeVolumes => a matches CreateAction::MakeVolumes { steps, remove_after }
            && opt_text(remove_after) == opt_text(job.secret_file) && (opt_config(
            job.config,
        ) matches Some(c) && are_steps(steps@, job, c)),
        CreateMove::Publish => a matches CreateAction::Publish { registry, rules } && is_written(
            registry@,
            registry_document(registry_rows(registry_rows_of(job.store@))),
        ) && (
        match first_oversized(registry_rows_of(job.store@)) {
            Some(cid) => rules matches Err(words) && words@ == oversized_text(cid),
            None => rules matches Ok(text) && text@ == nft_text(registry_rows_of(job.store@)),
        }),
        CreateMove::RemoveSpace => a matches CreateAction::RemoveSpace { dir: d } && d@ == dir,
        CreateMove::Reply => a matches CreateAction::Reply(value) && (opt_config(
            job.config,
        ) matches Some(c) && value@ == create_reply(c)),
        CreateMove::RefuseEvent => a matches CreateAction::Refuse(e) && (verdict matches Err(v)
            && e@ == v),
        CreateMove::RefuseInternal => a matches CreateAction::Refuse(e) && e@ == internal(),
    }
}

/// What a job has learnt from an event that lets it go on, and that the rest of it stays.
pub open spec fn has_learnt(old_job: CreateJob, event: CreateEvent, job: CreateJob) -> bool {
    let good = verdict(old_job, event) is Ok;
    &&& job.state_dir == old_job.state_dir
    &&& job.build_uid == old_job.build_uid
    &&& job.seed == old_job.seed
    &&& job.passphrase == old_job.passphrase
    &&& job.new.id == old_job.new.id
    &&& job.new.profile == old_job.new.profile
    &&& job.new.label == old_job.new.label
    &&& job.new.color == old_job.new.color
    &&& job.new.encrypted == old_job.new.encrypted
    &&& match (old_job.phase, event) {
        (CreatePhase::Templates, CreateEvent::Templates { latest, dirs }) => match template_digest(
            old_job.state_dir@,
            old_job.new.profile@,
            opt_text(latest),
            texts(dirs@),
        ) {
            Ok(digest) => job.new.digest@ == digest,
            Err(_) => job.new.digest == old_job.new.digest,
        },
        _ => job.new.digest == old_job.new.digest,
    }
    &&& job.manifest == (if old_job.phase == CreatePhase::Manifest && good {
        event->Manifest_0->Found_0
    } else {
        old_job.manifest
    })
    &&& job.seed_uid == (if old_job.phase == CreatePhase::Owner && good {
        match old_job.build_uid {
            Some(uid) => uid,
            None => event->Number_0->0,
        }
    } else {
        old_job.seed_uid
    })
    &&& match (old_job.phase, event) {
        (CreatePhase::Accounts, CreateEvent::Text(Some(passwd))) => match user_entry(
            "/etc/passwd"@,
            old_job.seed_uid,
            lines(passwd@),
        ) {
            Ok(entry) => job.seed_gid as nat == entry.0,
            Err(_) => job.seed_gid == old_job.seed_gid,
        },
        _ => job.seed_gid == old_job.seed_gid,
    }
    &&& opt_text(job.secret_file) == (if old_job.phase == CreatePhase::Secret && good {
        opt_text(event->Text_0)
    } else {
        opt_text(old_job.secret_file)
    })
    &&& match (old_job.phase, event) {
        (CreatePhase::Store, CreateEvent::Store(Some(store))) => job.store@ == store@
            && job.config == old_job.config,
        (CreatePhase::Host, CreateEvent::Host { links, passwd: Some(passwd), now_secs }) => match creation(
            old_job.store@,
            old_job.new.id@,
            texts(links@),
            passwd@,
            old_job.store.passwd_path@,
        ) {
            Ok(cid) => {
                &&& opt_config(job.config) matches Some(c)
                &&& is_created(c, old_job.new, cid, now_secs)
                &&& job.store@ == insert_by(old_job.store@, c, by_id())
            },
            Err(_) => job.store@ == old_job.store@ && job.config == old_job.config,
        },
        _ => job.store@ == old_job.store@ && job.config == old_job.config,
    }
}

/// The space of a job exists once its numbers are given.
pub open spec fn is_sound(job: CreateJob) -> bool {
    &&& is_on_disk(job.phase) || job.phase == CreatePhase::Config ==> job.config is Some
    &&& job.phase == CreatePhase::Seed ==> job.seed is Some
    &&& job.new.encrypted == (job.passphrase is Some)
}

fn empty_store() -> (r: Store) {
    Store::load("", Vec::new())
}

impl CreateJob {
    /// Takes up the request to create a space. The first thing to read is the store.
    pub fn begin(
        state_dir: String,
        build_uid: Option<u32>,
        id: String,
        profile: String,
        label: String,
        color: String,
        seed: Option<String>,
        passphrase: Option<String>,
    ) -> (r: Result<CreateJob, Refusal>)
        ensures
            match request_problem(id@, opt_text(passphrase)) {
                Some(p) => r matches Err(e) && e@ == p,
                None => {
                    &&& r matches Ok(job)
                    &&& is_sound(job)
                    &&& job.phase == CreatePhase::Store
                    &&& job.state_dir == state_dir
                    &&& job.build_uid == build_uid
                    &&& job.new.id == id
                    &&& job.new.profile == profile
                    &&& job.new.label == label
                    &&& job.new.color == color
                    &&& job.new.encrypted == (passphrase is Some)
                    &&& job.seed == seed
                    &&& job.passphrase == passphrase
                    &&& job.secret_file is None
                },
            },
    {
        let encrypted = match &passphrase {
            Some(p) => {
                if p.as_str().is_empty() {
                    return Err(
                        refuse(
                            ErrorCode::BadRequest,
                            "пароль спейса не может быть пустым".to_owned(),
                        ),
                    );
                }
                true
            },
            None => false,
        };
        if str_equal(id.as_str(), MIYORI_NET_ID) {
            return Err(
                refuse(
                    ErrorCode::BadRequest,
                    "id \"".to_owned().concat(id.as_str()).concat(
                        "\" зарезервирован за сетевой VM",
                    ),
                ),
            );
        }
        let new = NewSpace { id, profile, digest: String::new(), label, color, encrypted };
        Ok(
            CreateJob {
                state_dir,
                build_uid,
                new,
                seed,
                passphrase,
                phase: CreatePhase::Store,
                store: empty_store(),
                manifest: Manifest::empty(),
                seed_uid: 0,
                seed_gid: 0,
                config: None,
                secret_file: None,
            },
        )
    }

    fn space_dir(&self) -> (r: String)
        ensures
            r@ == space_dir_of(self.state_dir@, self.new.id@),
    {
        space_dir_path(self.state_dir.as_str(), self.new.id.as_str())
    }

    fn make_volumes(&self) -> (r: CreateAction)
        requires
            self.config is Some,
        ensures
            is_action(r, CreateMove::MakeVolumes, *self, Ok(())),
    {
        let template_dir = template_dir_path(
            self.state_dir.as_str(),
            self.new.profile.as_str(),
            self.new.digest.as_str(),
        );
        let space_dir = self.space_dir();
        let uid: u32 = match &self.config {
            Some(c) => c.uid,
            None => 0,
        };
        let spec = match &self.seed {
            Some(dir) => Some(
                SeedSpec {
                    dir: dir.clone(),
                    build_uid: self.seed_uid,
                    build_gid: self.seed_gid,
                },
            ),
            None => None,
        };
        let secret = match &self.secret_file {
            Some(path) => Some(path.as_str()),
            None => None,
        };
        let steps = match &spec {
            Some(s) => create_volumes(
                template_dir.as_str(),
                space_dir.as_str(),
                uid,
                self.manifest.data_mb,
                Some(s),
                secret,
            ),
            None => create_volumes(
                template_dir.as_str(),
                space_dir.as_str(),
                uid,
                self.manifest.data_mb,
                None,
                secret,
            ),
        };
        assert(is_seed(spec, *self));
        let remove_after = match &self.secret_file {
            Some(path) => Some(path.clone()),
            None => None,
        };
        CreateAction::MakeVolumes { steps, remove_after }
    }

    fn reply(&self) -> (r: CreateAction)
        requires
            self.config is Some,
        ensures
            is_action(r, CreateMove::Reply, *self, Ok(())),
    {
        let mut f: Vec<(String, Json)> = Vec::new();
        assert(fields_view(f@) =~= seq![]);
        match &self.config {
            Some(c) => {
                put(&mut f, "id", Json::Str(c.id.clone()));
                put(&mut f, "cid", Json::Unsigned(c.cid as u64));
                put(&mut f, "uid", Json::Unsigned(c.uid as u64));
                assert(fields_view(f@) =~= create_reply(c@)->Object_0);
            },
            None => {},
        }
        CreateAction::Reply(object(f))
    }

    fn remove_space(&self) -> (r: CreateAction)
        ensures
            is_action(r, CreateMove::RemoveSpace, *self, Ok(())),
    {
        CreateAction::RemoveSpace { dir: self.space_dir() }
    }

    fn refuse_with(&mut self, e: Refusal) -> (r: CreateAction)
        ensures
            *final(self) == (CreateJob { phase: CreatePhase::Done, ..*old(self) }),
            r matches CreateAction::Refuse(x) && x@ == e@,
    {
        self.phase = CreatePhase::Done;
        CreateAction::Refuse(e)
    }

    /// Goes on from what came of the last action.
    #[verifier::rlimit(60)]
    pub fn step(&mut self, event: CreateEvent) -> (r: CreateAction)
        requires
            is_sound(*old(self)),
        ensures
            is_sound(*final(self)),
            has_learnt(*old(self), event, *final(self)),
            ({
                let v = verdict(*old(self), event);
                let (next, m) = advance(
                    old(self).phase,
                    v is Ok,
                    old(self).seed is Some,
                    old(self).passphrase is Some,
                );
                final(self).phase == next && is_action(r, m, *final(self), v)
            }),
    {
        match self.phase {
            CreatePhase::Store => {
                match event {
                    CreateEvent::Store(Some(store)) => {
                        let exists = store.get(self.new.id.as_str()).is_some();
                        self.store = store;
                        if exists {
                            let e = refuse(
                                ErrorCode::SpaceExists,
                                "спейс \"".to_owned().concat(self.new.id.as_str()).concat(
                                    "\" уже существует",
                                ),
                            );
                            return self.refuse_with(e);
                        }
                        self.phase = CreatePhase::Manifest;
                        CreateAction::ReadManifest { profile: self.new.profile.clone() }
                    },
                    _ => self.refuse_with(internal_error()),
                }
            },
            CreatePhase::Manifest => {
                match event {
                    CreateEvent::Manifest(read) => {
                        match load_manifest(self.new.profile.as_str(), read) {
                            Ok(m) => {
                                self.manifest = m;
                                self.phase = CreatePhase::Templates;
                                CreateAction::ReadTemplates { profile: self.new.profile.clone() }
                            },
                            Err(e) => self.refuse_with(e),
                        }
                    },
                    _ => self.refuse_with(internal_error()),
                }
            },
            CreatePhase::Templates => {
                match event {
                    CreateEvent::Templates { latest, dirs } => {
                        let target = match &latest {
                            Some(t) => Some(t.as_str()),
                            None => None,
                        };
                        match resolve_template_digest(
                            self.state_dir.as_str(),
                            self.new.profile.as_str(),
                            target,
                            &dirs,
                        ) {
                            Ok(digest) => {
                                self.new.digest = digest;
                                match &self.seed {
                                    Some(raw) => {
                                        let action = CreateAction::StatPath { path: raw.clone() };
                                        self.phase = CreatePhase::Seed;
                                        action
                                    },
                                    None => {
                                        self.phase = CreatePhase::Host;
                                        CreateAction::AskHost
                                    },
                                }
                            },
                            Err(e) => self.refuse_with(e),
                        }
                    },
                    _ => self.refuse_with(internal_error()),
                }
            },
            CreatePhase::Seed => {
                match event {
                    CreateEvent::Kind(kind) => {
                        let checked = match &self.seed {
                            Some(raw) => validate_seed_dir(
                                raw.as_str(),
                                self.manifest.data_mb,
                                kind,
                            ),
                            None => Err(internal_error()),
                        };
                        match checked {
                            Ok(_) => {
                                self.phase = CreatePhase::Owner;
                                CreateAction::AskOwner
                            },
                            Err(e) => self.refuse_with(e),
                        }
                    },
                    _ => self.refuse_with(internal_error()),
                }
            },
            CreatePhase::Owner => {
                match event {
                    CreateEvent::Number(owner) => {
                        match resolve_build_uid(self.build_uid, owner) {
                            Ok(uid) => {
                                self.seed_uid = uid;
                                self.phase = CreatePhase::Accounts;
                                CreateAction::ReadAccounts
                            },
                            Err(e) => self.refuse_with(e),
                        }
                    },
                    _ => self.refuse_with(internal_error()),
                }
            },
            CreatePhase::Accounts => {
                match event {
                    CreateEvent::Text(Some(passwd)) => {
                        match resolve_build_gid(passwd.as_str(), self.seed_uid) {
                            Ok(gid) => {
                                self.seed_gid = gid;
                                self.phase = CreatePhase::Host;
                                CreateAction::AskHost
                            },
                            Err(e) => self.refuse_with(e),
                        }
                    },
                    _ => self.refuse_with(internal_error()),
                }
            },
            CreatePhase::Host => {
                match event {
                    CreateEvent::Host { links, passwd: Some(passwd), now_secs } => {
                        match self.store.create_space(
                            &self.new,
                            &links,
                            passwd.as_str(),
                            now_secs,
                        ) {
                            Ok(c) => {
                                let text = render_config(&c);
                                self.config = Some(c);
                                self.phase = CreatePhase::Config;
                                CreateAction::WriteConfig { dir: self.space_dir(), text }
                            },
                            Err(_) => self.refuse_with(internal_error()),
                        }
                    },
                    _ => self.refuse_with(internal_error()),
                }
            },
            CreatePhase::Config => {
                match event {
                    CreateEvent::Flag(true) => {
                        match &self.passphrase {
                            Some(p) => {
                                let action = CreateAction::WriteSecret { passphrase: p.clone() };
                                self.phase = CreatePhase::Secret;
                                action
                            },
                            None => {
                                self.phase = CreatePhase::Volumes;
                                self.make_volumes()
                            },
                        }
                    },
                    _ => self.refuse_with(internal_error()),
                }
            },
            CreatePhase::Secret => {
                match event {
                    CreateEvent::Text(Some(path)) => {
                        self.secret_file = Some(path);
                        self.phase = CreatePhase::Volumes;
                        self.make_volumes()
                    },
                    _ => {
                        self.phase = CreatePhase::Undone;
                        self.remove_space()
                    },
                }
            },
            CreatePhase::Volumes => {
                match event {
                    CreateEvent::Flag(true) => {
                        self.phase = CreatePhase::Publish;
                        let (registry, rules) = refresh(&self.store);
                        CreateAction::Publish { registry, rules }
                    },
                    _ => {
                        self.phase = CreatePhase::Undone;
                        self.remove_space()
                    },
                }
            },
            CreatePhase::Publish => {
                match event {
                    CreateEvent::Flag(true) => {
                        let action = self.reply();
                        self.phase = CreatePhase::Done;
                        action
                    },
                    _ => {
                        self.phase = CreatePhase::Undone;
                        self.remove_space()
                    },
                }
            },
            CreatePhase::Undone => self.refuse_with(internal_error()),
            CreatePhase::Done => self.refuse_with(internal_error()),
        }
    }
}

} // verus!
