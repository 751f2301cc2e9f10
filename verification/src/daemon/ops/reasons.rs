//! What lets an operation go on, and the reasons for which it is refused.
use crate::accounts::user_entry;
use crate::daemon::net::BRIDGE;
use crate::daemon::ops::create::{self, CreateEvent, CreateJob, CreatePhase};
use crate::daemon::ops::destroy::{self, DestroyEvent, DestroyPhase};
use crate::daemon::ops::image::{self, BuildEvent, BuildJob, BuildPhase};
use crate::daemon::ops::shared::{
    candidates, code_text, internal, latest_digest, must_stop_first, no_profile, no_template,
    not_found, not_running, passphrase_problem, seed_problem, state_text, template_digest,
    ErrorCode, ManifestRead, PathKind, RefusalView,
};
use crate::daemon::ops::start::{self, Move, Signal, StartEvent, StartJob, StartPhase};
use crate::daemon::ops::stop::{self, StopEvent, StopJob, StopPhase};
use crate::daemon::ops::volumes::{
    self, VolumeAction, VolumeEvent, VolumeJob, VolumeMove, VolumePhase, VolumeSignal,
};
use crate::daemon::qemu::SpaceState;
use crate::daemon::store::lemma_index_of_id;
use crate::paths::{file_name, is_absolute, join_path};
use crate::text::{lines, texts};
use vstd::prelude::*;

verus! {

// ---------------------------------------------------------------------------------------------
// Codes
// ---------------------------------------------------------------------------------------------

spec fn code_mark(text: Seq<char>) -> (nat, char, char) {
    (text.len(), text[0], text[6])
}

proof fn lemma_code_texts()
    ensures
        code_mark("bad-request"@) == (11nat, 'b', 'q'),
        code_mark("space-exists"@) == (12nat, 's', 'e'),
        code_mark("space-not-found"@) == (15nat, 's', 'n'),
        code_mark("profile-not-found"@) == (17nat, 'p', 'e'),
        code_mark("template-not-found"@) == (18nat, 't', 't'),
        code_mark("space-running"@) == (13nat, 's', 'r'),
        code_mark("space-stopped"@) == (13nat, 's', 's'),
        code_mark("no-bridge"@) == (9nat, 'n', 'd'),
        code_mark("wrong-passphrase"@) == (16nat, 'w', 'p'),
        code_mark("agent-timeout"@) == (13nat, 'a', 't'),
        code_mark("internal"@) == (8nat, 'i', 'a'),
{
    reveal_strlit("bad-request");
    reveal_strlit("space-exists");
    reveal_strlit("space-not-found");
    reveal_strlit("profile-not-found");
    reveal_strlit("template-not-found");
    reveal_strlit("space-running");
    reveal_strlit("space-stopped");
    reveal_strlit("no-bridge");
    reveal_strlit("wrong-passphrase");
    reveal_strlit("agent-timeout");
    reveal_strlit("internal");
}

/// A client tells the reasons of refusals apart by their codes alone.
pub proof fn a_code_stands_for_one_reason(a: ErrorCode, b: ErrorCode)
    requires
        code_text(a) == code_text(b),
    ensures
        a == b,
{
    lemma_code_texts();
}

/// The code of a space that is in the wrong state names the state, as a list of spaces does; the
/// code of something that is not there names what is missing.
pub proof fn a_code_names_its_reason(state: SpaceState, code: ErrorCode)
    ensures
        code_text(code) == "space-"@ + state_text(state) ==> {
            ||| state == SpaceState::Running && code == ErrorCode::SpaceRunning
            ||| state == SpaceState::Stopped && code == ErrorCode::SpaceStopped
        },
        code_text(ErrorCode::SpaceRunning) == "space-"@ + state_text(SpaceState::Running),
        code_text(ErrorCode::SpaceStopped) == "space-"@ + state_text(SpaceState::Stopped),
        code_text(ErrorCode::SpaceNotFound) == "space"@ + "-not-found"@,
        code_text(ErrorCode::ProfileNotFound) == "profile"@ + "-not-found"@,
        code_text(ErrorCode::TemplateNotFound) == "template"@ + "-not-found"@,
{
    lemma_code_texts();
    reveal_strlit("space-");
    reveal_strlit("running");
    reveal_strlit("stopped");
    reveal_strlit("unresponsive");
    reveal_strlit("space");
    reveal_strlit("profile");
    reveal_strlit("template");
    reveal_strlit("-not-found");
    reveal_strlit("space-running");
    reveal_strlit("space-stopped");
    reveal_strlit("space-not-found");
    reveal_strlit("profile-not-found");
    reveal_strlit("template-not-found");
    assert("space-running"@ =~= "space-"@ + "running"@);
    assert("space-stopped"@ =~= "space-"@ + "stopped"@);
    assert("space-not-found"@ =~= "space"@ + "-not-found"@);
    assert("profile-not-found"@ =~= "profile"@ + "-not-found"@);
    assert("template-not-found"@ =~= "template"@ + "-not-found"@);
    let named = "space-"@ + state_text(state);
    assert(named.len() == 6 + state_text(state).len());
    assert(named[0] == 's');
    assert(named[6] == state_text(state)[0]);
    assert(code_text(code) == named ==> code_mark(code_text(code)) == code_mark(named));
}

// ---------------------------------------------------------------------------------------------
// Refusals
// ---------------------------------------------------------------------------------------------

/// A refusal names the space, the profile or the image that it is about.
pub proof fn a_refusal_names_what_it_is_about(name: Seq<char>)
    ensures
        not_found(name).code == ErrorCode::SpaceNotFound,
        not_found(name).message == "спейс \""@ + name + "\" не найден"@,
        must_stop_first(name).code == ErrorCode::SpaceRunning,
        must_stop_first(name).message == "спейс \""@ + name + "\" запущен, сначала stop"@,
        not_running(name).code == ErrorCode::SpaceStopped,
        not_running(name).message == "спейс \""@ + name + "\" не запущен"@,
        no_profile(name).code == ErrorCode::ProfileNotFound,
        no_profile(name).message == "профиль \""@ + name + "\" не найден"@,
        no_template(name).code == ErrorCode::TemplateNotFound,
        no_template(name).message == "шаблон "@ + name + " отсутствует или неполон"@,
{
}

/// A passphrase is owed for an encrypted space and for no other one.
pub proof fn a_passphrase_belongs_to_encryption(encrypted: bool, given: bool)
    ensures
        passphrase_problem(encrypted, given) is None <==> encrypted == given,
        passphrase_problem(encrypted, given) matches Some(p) ==> {
            &&& p.code == ErrorCode::BadRequest
            &&& encrypted ==> p.message == "спейсу нужен пароль"@
            &&& given ==> p.message == "спейс не зашифрован"@
        },
{
}

/// A directory seeds the data of a space if it stands at an absolute path and there is a data
/// volume to take its files; the refusal names the path.
pub proof fn a_seed_needs_a_directory_and_a_volume(raw: Seq<char>, data_mb: u32, kind: PathKind)
    ensures
        seed_problem(raw, data_mb, kind) is None <==> data_mb > 0 && is_absolute(raw) && kind
            == PathKind::Directory,
        seed_problem(raw, data_mb, kind) matches Some(p) ==> {
            &&& p.code == ErrorCode::BadRequest
            &&& data_mb > 0 && !is_absolute(raw) ==> p.message == "seed \""@ + raw
                + "\" должен быть абсолютным путём"@
            &&& data_mb > 0 && is_absolute(raw) && kind == PathKind::Missing ==> p.message
                == "seed \""@ + raw + "\" не существует"@
            &&& data_mb > 0 && is_absolute(raw) && kind == PathKind::Other ==> p.message
                == "seed \""@ + raw + "\" не является каталогом"@
        },
{
}

// ---------------------------------------------------------------------------------------------
// Images
// ---------------------------------------------------------------------------------------------

proof fn lemma_candidates(dirs: Seq<Seq<char>>)
    ensures
        forall|d: Seq<char>|
            #[trigger] candidates(dirs).contains(d) <==> dirs.contains(d) && d != "latest"@,
        candidates(dirs).len() <= dirs.len(),
    decreases dirs.len(),
{
    if dirs.len() > 0 {
        let front = dirs.drop_last();
        lemma_candidates(front);
        let all = candidates(dirs);
        assert forall|d: Seq<char>| #[trigger] all.contains(d) <==> dirs.contains(d) && d
            != "latest"@ by {
            if all.contains(d) {
                let i = choose|i: int| 0 <= i < all.len() && all[i] == d;
                if dirs.last() != "latest"@ && i == all.len() - 1 {
                    assert(dirs[dirs.len() - 1] == d);
                } else {
                    assert(candidates(front)[i] == d);
                    assert(candidates(front).contains(d));
                    let k = choose|k: int| 0 <= k < front.len() && front[k] == d;
                    assert(dirs[k] == d);
                }
            }
            if dirs.contains(d) && d != "latest"@ {
                let k = choose|k: int| 0 <= k < dirs.len() && dirs[k] == d;
                if k < front.len() {
                    assert(front[k] == d);
                    assert(candidates(front).contains(d));
                    let i = choose|i: int|
                        0 <= i < candidates(front).len() && candidates(front)[i] == d;
                    assert(all[i] == d);
                } else {
                    assert(all[all.len() - 1] == d);
                }
            }
        }
    }
}

/// A new space takes the image at which `latest` points. Without such a link it takes the image
/// that stands alone, and none where there are two.
pub proof fn a_new_space_takes_the_only_image(
    state_dir: Seq<char>,
    profile: Seq<char>,
    latest: Option<Seq<char>>,
    dirs: Seq<Seq<char>>,
)
    ensures
        ({
            let r = template_digest(state_dir, profile, latest, dirs);
            &&& (latest is Some && file_name(latest->0) is Some) ==> (r matches Ok(d) && Some(d)
                == file_name(latest->0))
            &&& latest is None && r is Ok ==> dirs.contains(r->Ok_0) && r->Ok_0 != "latest"@
            &&& latest is None ==> (r matches Ok(d) ==> forall|e: Seq<char>|
                dirs.contains(e) && e != "latest"@ ==> e == d)
            &&& r matches Err(refused) ==> refused.code == ErrorCode::TemplateNotFound
        }),
        latest is None ==> (latest_digest(state_dir, profile, latest) matches Err(refused)
            && refused.code == ErrorCode::TemplateNotFound),
{
    lemma_candidates(dirs);
    let only = candidates(dirs);
    if only.len() == 1 {
        assert(only.contains(only[0]));
        assert forall|e: Seq<char>| dirs.contains(e) && e != "latest"@ implies e == only[0] by {
            assert(only.contains(e));
        }
    }
}

/// Where there is no image to take, the refusal names the profile, the directory that was looked
/// into, and the command that builds one.
pub proof fn a_missing_image_is_told(
    state_dir: Seq<char>,
    profile: Seq<char>,
    dirs: Seq<Seq<char>>,
)
    ensures
        ({
            let dir = join_path(join_path(state_dir, "templates"@), profile);
            &&& (latest_digest(state_dir, profile, None) matches Err(p) && p.message
                == "для профиля \""@ + profile + "\" нет latest в "@ + dir
                + "; собери: bash tools/build-profile.sh profiles/"@ + profile)
            &&& (template_digest(state_dir, profile, None, dirs) matches Err(p) ==> p.message
                == "для профиля \""@ + profile + "\" не найден ровно один шаблон в "@ + dir
                + "; собери: bash tools/build-profile.sh profiles/"@ + profile)
            &&& template_digest(state_dir, profile, None, seq![]) is Err
        }),
{
    assert(candidates(seq![]).len() == 0);
}

/// Before a space moves to another image, everything that its machine boots from is looked for
/// there.
pub proof fn an_image_is_checked_for_what_is_booted(
    a: VolumeAction,
    job: VolumeJob,
    e: RefusalView,
)
    requires
        volumes::is_action(a, VolumeMove::CheckTemplate, job, e),
    ensures
        a matches VolumeAction::CheckFiles { paths } && ({
            let image = join_path(
                join_path(join_path(job.state_dir@, "templates"@), job.space.profile@),
                job.digest@,
            );
            let looked_for = texts(paths@);
            &&& looked_for.len() == 4
            &&& looked_for.contains(join_path(image, "root.qcow2"@))
            &&& looked_for.contains(join_path(image, "vmlinuz"@))
            &&& looked_for.contains(join_path(image, "initrd.img"@))
            &&& looked_for.contains(join_path(image, "MANIFEST"@))
        }),
{
    let paths = a->CheckFiles_paths;
    assert(texts(paths@)[0] == texts(paths@)[0int]);
    assert(texts(paths@).len() == 4);
    assert(texts(paths@)[1] == texts(paths@)[1int]);
    assert(texts(paths@)[2] == texts(paths@)[2int]);
    assert(texts(paths@)[3] == texts(paths@)[3int]);
}

// ---------------------------------------------------------------------------------------------
// What lets an operation go on
// ---------------------------------------------------------------------------------------------

/// A reset or an update goes on only from what succeeded: the machine does not run, the manifest
/// was read, every file of the image is there, the passphrase lies in its file, the volumes are
/// made. It is refused with the code of what failed.
pub proof fn a_reset_goes_on_from_success(job: VolumeJob, event: VolumeEvent)
    ensures
        ({
            let goes_on = volumes::signal_of(job, event) != VolumeSignal::Bad;
            let code = volumes::volume_refusal(job, event).code;
            match job.phase {
                VolumePhase::State => {
                    &&& goes_on <==> (event == VolumeEvent::State(SpaceState::Stopped) || event
                        == VolumeEvent::State(SpaceState::Unresponsive))
                    &&& code == ErrorCode::SpaceRunning
                },
                VolumePhase::Manifest => {
                    &&& goes_on <==> (event matches VolumeEvent::Manifest(read) && read is Found)
                    &&& event == VolumeEvent::Manifest(ManifestRead::Missing) ==> code
                        == ErrorCode::ProfileNotFound
                    &&& event == VolumeEvent::Manifest(ManifestRead::Unreadable) ==> code
                        == ErrorCode::Internal
                },
                VolumePhase::Latest => {
                    &&& goes_on <==> (event matches VolumeEvent::Latest(Some(target)) && file_name(
                        target@,
                    ) is Some)
                    &&& event is Latest && !goes_on ==> code == ErrorCode::TemplateNotFound
                    &&& volumes::signal_of(job, event) == VolumeSignal::Unchanged <==> goes_on
                        && file_name(event->Latest_0->0@) == Some(job.space.digest@)
                },
                VolumePhase::Template => {
                    &&& goes_on <==> (event matches VolumeEvent::Flags(present) && present@.len()
                        == 4 && present@[0] && present@[1] && present@[2] && present@[3])
                    &&& code == ErrorCode::TemplateNotFound
                },
                VolumePhase::Secret => {
                    &&& goes_on <==> (event matches VolumeEvent::Text(file) && file is Some)
                    &&& code == ErrorCode::Internal
                },
                VolumePhase::Volumes | VolumePhase::Config => {
                    &&& goes_on <==> event == VolumeEvent::Flag(true)
                    &&& code == ErrorCode::Internal
                },
                VolumePhase::Done => !goes_on,
            }
        }),
{
}

/// A space is destroyed only while its machine does not run, and every step of it counts only if
/// it succeeded. A stop is for a machine that runs.
pub proof fn a_running_space_is_stopped_and_not_destroyed(
    phase: DestroyPhase,
    event: DestroyEvent,
    job: StopJob,
    heard: StopEvent,
)
    ensures
        phase == DestroyPhase::State ==> (destroy::is_good(phase, event) <==> (event
            == DestroyEvent::State(SpaceState::Stopped) || event == DestroyEvent::State(
            SpaceState::Unresponsive,
        ))),
        phase != DestroyPhase::State ==> (destroy::is_good(phase, event) <==> event
            == DestroyEvent::Flag(true)),
        job.phase == StopPhase::State ==> (stop::stop_good(job, heard) <==> heard
            == StopEvent::State(SpaceState::Running)),
        job.phase == StopPhase::Tap || job.phase == StopPhase::Config ==> (stop::stop_good(
            job,
            heard,
        ) <==> heard == StopEvent::Flag(true)),
{
}

/// A start goes on only from what succeeded: the machine does not run yet, there is a manifest, a
/// group, a nonce, a file for the passphrase, and every step that only can or cannot be done was
/// done.
pub proof fn a_start_goes_on_from_success(phase: StartPhase, nonce: Seq<char>, event: StartEvent)
    ensures
        ({
            let goes_on = start::signal_of(phase, nonce, event) == Signal::Good;
            match phase {
                StartPhase::State => goes_on <==> (event == StartEvent::State(SpaceState::Stopped)
                    || event == StartEvent::State(SpaceState::Unresponsive)),
                StartPhase::Manifest => {
                    &&& goes_on <==> (event matches StartEvent::Manifest(read) && read is Found)
                    &&& start::signal_of(phase, nonce, event) == Signal::Bad <==> event
                        == StartEvent::Manifest(ManifestRead::Missing)
                },
                StartPhase::Group => goes_on <==> (event matches StartEvent::Number(gid) && gid
                    is Some),
                StartPhase::Nonce => goes_on <==> (event matches StartEvent::Bytes(random)
                    && random is Some),
                StartPhase::Secret => goes_on <==> (event matches StartEvent::Text(file) && file
                    is Some),
                StartPhase::Bridge
                | StartPhase::Template
                | StartPhase::RunDir
                | StartPhase::Reap
                | StartPhase::Tap
                | StartPhase::Spawn
                | StartPhase::Settle
                | StartPhase::Alive => goes_on <==> event == StartEvent::Flag(true),
                _ => true,
            }
        }),
{
}

/// The refusal of a start names what was in the way.
pub proof fn a_refused_start_says_why(job: StartJob)
    ensures
        ({
            let id = job.space.id@;
            let running = start::start_refusal(Move::RefuseRunning, job);
            let bridge = start::start_refusal(Move::RefuseNoBridge, job);
            let profile = start::start_refusal(Move::RefuseNoProfile, job);
            let template = start::start_refusal(Move::RefuseNoTemplate, job);
            let wrong = start::start_refusal(Move::RefuseWrongPassphrase, job);
            let dead = start::start_refusal(Move::RefuseDead, job);
            let lost = start::start_refusal(Move::RefuseLost, job);
            &&& running.code == ErrorCode::SpaceRunning
            &&& running.message == "спейс \""@ + id + "\" уже запущен"@
            &&& bridge.code == ErrorCode::NoBridge
            &&& bridge.message == "нет моста \""@ + BRIDGE@
                + "\": сначала подними фикстуру — sudo bash components/net/net-fixture.sh up"@
            &&& profile == no_profile(job.space.profile@)
            &&& template == no_template(
                join_path(
                    join_path(join_path(job.state_dir@, "templates"@), job.space.profile@),
                    job.space.digest@,
                ),
            )
            &&& wrong.code == ErrorCode::WrongPassphrase
            &&& wrong.message == "неверный пароль спейса \""@ + id + "\""@
            &&& dead.code == ErrorCode::Internal && lost.code == ErrorCode::Internal
            &&& dead.message == "QEMU спейса \""@ + id
                + "\" завершился сразу после запуска; причина в журнале последнего запуска"@
            &&& lost.message == "QEMU спейса \""@ + id
                + "\" умер во время запуска; причина в журнале последнего запуска"@
        }),
{
}

/// An id that is taken, or that is the network machine's own, names no new space; an empty
/// passphrase encrypts none.
pub proof fn a_new_space_has_an_id_of_its_own(
    job: CreateJob,
    event: CreateEvent,
    id: Seq<char>,
    passphrase: Option<Seq<char>>,
)
    ensures
        create::request_problem(id, passphrase) is None <==> id != "miyori-net"@ && passphrase
            != Some(Seq::<char>::empty()),
        create::request_problem(id, passphrase) matches Some(p) ==> p.code
            == ErrorCode::BadRequest,
        job.phase == CreatePhase::Store ==> (event matches CreateEvent::Store(Some(store)) ==> (
        create::verdict(job, event) is Ok <==> forall|i: int|
            0 <= i < store@.len() ==> (#[trigger] store@[i]).id != job.new.id@)),
        job.phase == CreatePhase::Store ==> (event matches CreateEvent::Store(Some(store)) ==> (
        create::verdict(job, event) matches Err(p) ==> p.code == ErrorCode::SpaceExists)),
{
    if let CreateEvent::Store(Some(store)) = event {
        lemma_index_of_id(store@, job.new.id@);
    }
    if let Some(p) = passphrase {
        assert(p.len() == 0 ==> p =~= Seq::<char>::empty());
    }
}

/// A creation goes on only from what succeeded, and is refused with the code of what failed.
pub proof fn a_creation_goes_on_from_success(job: CreateJob, event: CreateEvent)
    ensures
        ({
            let r = create::verdict(job, event);
            match job.phase {
                CreatePhase::Manifest => {
                    &&& r is Ok <==> (event matches CreateEvent::Manifest(read) && read is Found)
                    &&& event == CreateEvent::Manifest(ManifestRead::Missing) ==> (r matches Err(p)
                        && p.code == ErrorCode::ProfileNotFound)
                    &&& event == CreateEvent::Manifest(ManifestRead::Unreadable) ==> (
                    r matches Err(p) && p.code == ErrorCode::Internal)
                },
                CreatePhase::Seed => r is Ok <==> (event == CreateEvent::Kind(PathKind::Directory)
                    && (job.seed matches Some(raw) && is_absolute(raw@)) && job.manifest.data_mb
                    > 0),
                CreatePhase::Owner => r is Ok <==> event is Number && (job.build_uid is Some
                    || event != CreateEvent::Number(None)),
                CreatePhase::Accounts => r is Ok <==> (event matches CreateEvent::Text(Some(passwd))
                    && user_entry("/etc/passwd"@, job.seed_uid, lines(passwd@)) is Ok),
                CreatePhase::Secret => r is Ok <==> (event matches CreateEvent::Text(file) && file
                    is Some),
                CreatePhase::Config
                | CreatePhase::Volumes
                | CreatePhase::Publish => r is Ok <==> event == CreateEvent::Flag(true),
                _ => true,
            }
        }),
{
}

/// A build goes on only from what succeeded.
pub proof fn a_build_goes_on_from_success(job: BuildJob, event: BuildEvent)
    ensures
        ({
            let r = image::verdict(job, event);
            match job.phase {
                BuildPhase::Manifest => {
                    &&& r is Ok <==> (event matches BuildEvent::Manifest(read) && read is Found)
                    &&& event == BuildEvent::Manifest(ManifestRead::Missing) ==> (r matches Err(p)
                        && p.code == ErrorCode::ProfileNotFound)
                },
                BuildPhase::Owner => r is Ok <==> event is Number && (job.build_uid is Some
                    || event != BuildEvent::Number(None)),
                BuildPhase::Accounts => r is Ok <==> (event matches BuildEvent::Text(Some(passwd))
                    && user_entry("/etc/passwd"@, job.uid, lines(passwd@)) is Ok),
                BuildPhase::Latest => r is Ok <==> (event matches BuildEvent::Text(Some(target))
                    && file_name(target@) is Some),
                BuildPhase::Stage
                | BuildPhase::Builder
                | BuildPhase::Place => r is Ok <==> event == BuildEvent::Flag(true),
                _ => true,
            }
        }),
{
}

/// What a client hears of a failure of the daemon itself is the same whatever failed: nothing of
/// a path, a profile or an account gets out with it.
pub proof fn an_inner_failure_tells_nothing(
    made: CreateJob,
    came: CreateEvent,
    built: BuildJob,
    heard: BuildEvent,
    changed: VolumeJob,
    seen: VolumeEvent,
)
    ensures
        create::verdict(made, came) matches Err(p) ==> p.code == ErrorCode::Internal ==> p
            == internal(),
        image::verdict(built, heard) matches Err(p) ==> p.code == ErrorCode::Internal ==> p
            == internal(),
        volumes::volume_refusal(changed, seen).code == ErrorCode::Internal
            ==> volumes::volume_refusal(changed, seen) == internal(),
        internal().code == ErrorCode::Internal,
        internal().message == "внутренняя ошибка демона"@,
{
}

} // verus!
