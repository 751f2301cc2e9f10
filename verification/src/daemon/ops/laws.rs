//! What the operations are for: what they leave on the host, and how one relates to another.
use crate::daemon::machine::{
    is_passed, is_set_to, the_devices_are_those_of_the_space, the_disks_are_those_of_the_space,
    the_machine_boots_the_image_of_its_space,
};
use crate::daemon::net::{tap_down_command, tap_up_commands};
use crate::daemon::ops::create;
use crate::daemon::ops::create::{
    is_seed, opt_config, CreateAction, CreateEvent, CreateJob, CreateMove, CreatePhase,
};
use crate::daemon::ops::destroy;
use crate::daemon::ops::destroy::{DestroyAction, DestroyJob, DestroyMove, DestroyPhase};
use crate::daemon::ops::image;
use crate::daemon::ops::image::{BuildAction, BuildEvent, BuildJob, BuildMove, BuildPhase};
use crate::daemon::ops::shared::{
    blank_args, convert_args, latest_digest, mkfs_args, overlay_args, overlay_steps, step_views,
    template_digest, volume_steps, RefusalView, SeedSpec, StepView,
};
use crate::daemon::ops::start;
use crate::daemon::ops::start::{Move, StartAction, StartJob};
use crate::daemon::ops::stop::{
    is_stop_action, stop_has_learnt, StopAction, StopEvent, StopJob, StopMove,
    StopPhase,
};
use crate::daemon::ops::volumes;
use crate::daemon::ops::volumes::{
    VolumeAction, VolumeEvent, VolumeJob, VolumeMove, VolumeOp, VolumePhase, VolumeSignal,
};
use crate::daemon::qemu::{machine_argv, privileges_are_dropped_first};
use crate::daemon::render::{
    registry_document, registry_holds_the_network_machine_once, registry_roundtrip, registry_rows,
    row_is_valid, rows_of_document, RegistryRow,
};
use crate::daemon::store::{
    config_is_valid, config_of, config_roundtrip, ids_differ, index_of_id, lemma_index_of_id,
    registry_rows_of, space_with_id, the_lowest_free_cid, ConfigView,
};
use crate::guest::{nonce_in, the_guest_reads_the_nonce};
use crate::json::{find_field, get, JsonView};
use crate::names::tap_name;
use crate::paths::{file_name, join_path};
use crate::text::{dec, is_white, opt_text, texts, trim};
use crate::toml::toml_read;
use vstd::prelude::*;

verus! {

// ---------------------------------------------------------------------------------------------
// Volumes
// ---------------------------------------------------------------------------------------------

/// An image command has the passphrase of the space at hand, and encrypts with it what it makes;
/// without a passphrase it does neither.
pub open spec fn is_encrypted_with(argv: Seq<Seq<char>>, secret: Option<Seq<char>>) -> bool {
    match secret {
        Some(path) => is_passed(argv, "--object"@, "secret,id=sec0,file="@ + path + ",format=raw"@)
            && is_passed(argv, "-o"@, "encrypt.format=luks,encrypt.key-secret=sec0"@),
        None => forall|i: int|
            0 <= i < argv.len() ==> #[trigger] argv[i] != "--object"@ && argv[i] != "-o"@,
    }
}

/// The command that makes an empty image of that many mebibytes at a path.
pub open spec fn makes_blank(
    argv: Seq<Seq<char>>,
    path: Seq<char>,
    size_mb: nat,
    secret: Option<Seq<char>>,
) -> bool {
    &&& argv.len() >= 6
    &&& argv[0] == "qemu-img"@
    &&& argv[1] == "create"@
    &&& is_passed(argv, "-f"@, "qcow2"@)
    &&& argv[argv.len() - 2] == path
    &&& argv.last() == dec(size_mb) + "M"@
    &&& is_encrypted_with(argv, secret)
    &&& forall|i: int| 0 <= i < argv.len() ==> #[trigger] argv[i] != "-b"@
}

/// The command that makes an image on top of another one at a path.
pub open spec fn makes_layer(
    argv: Seq<Seq<char>>,
    backing: Seq<char>,
    path: Seq<char>,
    secret: Option<Seq<char>>,
) -> bool {
    &&& argv.len() >= 9
    &&& argv[0] == "qemu-img"@
    &&& argv[1] == "create"@
    &&& is_passed(argv, "-f"@, "qcow2"@)
    &&& is_passed(argv, "-b"@, backing)
    &&& is_passed(argv, "-F"@, "qcow2"@)
    &&& argv.last() == path
    &&& is_encrypted_with(argv, secret)
}

/// The command that turns a raw file into an image at a path.
pub open spec fn makes_image_of(
    argv: Seq<Seq<char>>,
    raw: Seq<char>,
    path: Seq<char>,
    secret: Option<Seq<char>>,
) -> bool {
    &&& argv.len() >= 6
    &&& argv[0] == "qemu-img"@
    &&& argv[1] == "convert"@
    &&& is_passed(argv, "-O"@, "qcow2"@)
    &&& argv[argv.len() - 2] == raw
    &&& argv.last() == path
    &&& is_encrypted_with(argv, secret)
}

/// The command that fills a raw file with the files of a directory, under the account that may
/// read them.
pub open spec fn fills_from(argv: Seq<Seq<char>>, seed: SeedSpec, raw: Seq<char>) -> bool {
    &&& argv.len() == 12
    &&& argv[0] == "setpriv"@
    &&& is_passed(argv, "--reuid"@, dec(seed.build_uid as nat))
    &&& is_passed(argv, "--regid"@, dec(seed.build_gid as nat))
    &&& argv[5] == "--clear-groups"@
    &&& argv[6] == "--"@
    &&& argv[7] == "mkfs.ext4"@
    &&& is_passed(argv, "-d"@, seed.dir@)
    &&& argv.last() == raw
}

/// The paths among the arguments of an image command end in a digit.
spec fn ends_in_two(s: Seq<char>) -> bool {
    s.len() > 0 && s.last() == '2'
}

proof fn lemma_image_words()
    ensures
        "--object"@.len() == 8 && "--object"@.last() == 't',
        "-o"@.len() == 2 && "-o"@.last() == 'o',
        "-b"@.len() == 2 && "-b"@.last() == 'b',
        "qemu-img"@.len() == 8 && "qemu-img"@.last() == 'g',
        "create"@.last() == 'e',
        "convert"@.len() == 7 && "convert"@.last() == 't',
        "-f"@.last() == 'f',
        "-F"@.last() == 'F',
        "-O"@.last() == 'O',
        "qcow2"@.last() == '2',
        "root.qcow2"@.len() > 0 && "root.qcow2"@.last() == '2',
        "data.qcow2"@.len() > 0 && "data.qcow2"@.last() == '2',
        "system-overlay.qcow2"@.len() > 0 && "system-overlay.qcow2"@.last() == '2',
        "data.raw"@.len() > 0 && "data.raw"@.last() == 'w',
        "M"@.len() == 1 && "M"@.last() == 'M',
        ",format=raw"@.len() > 0 && ",format=raw"@.last() == 'w',
        "encrypt.format=luks,encrypt.key-secret=sec0"@.last() == '0',
{
    reveal_strlit("--object");
    reveal_strlit("-o");
    reveal_strlit("-b");
    reveal_strlit("qemu-img");
    reveal_strlit("create");
    reveal_strlit("convert");
    reveal_strlit("-f");
    reveal_strlit("-F");
    reveal_strlit("-O");
    reveal_strlit("qcow2");
    reveal_strlit("root.qcow2");
    reveal_strlit("data.qcow2");
    reveal_strlit("system-overlay.qcow2");
    reveal_strlit("data.raw");
    reveal_strlit("M");
    reveal_strlit(",format=raw");
    reveal_strlit("encrypt.format=luks,encrypt.key-secret=sec0");
}

proof fn lemma_layer(backing: Seq<char>, path: Seq<char>, secret: Option<Seq<char>>)
    requires
        ends_in_two(backing),
        ends_in_two(path),
    ensures
        makes_layer(overlay_args(backing, path, secret), backing, path, secret),
{
    lemma_image_words();
    let a = overlay_args(backing, path, secret);
    match secret {
        Some(p) => {
            assert(a[2] == "--object"@ && a[2int + 1] == "secret,id=sec0,file="@ + p + ",format=raw"@);
            assert(a[4] == "-f"@ && a[4int + 1] == "qcow2"@);
            assert(a[6] == "-b"@ && a[6int + 1] == backing);
            assert(a[8] == "-F"@ && a[8int + 1] == "qcow2"@);
            assert(a[10] == "-o"@ && a[10int + 1] == "encrypt.format=luks,encrypt.key-secret=sec0"@);
        },
        None => {
            assert(a[2] == "-f"@ && a[2int + 1] == "qcow2"@);
            assert(a[4] == "-b"@ && a[4int + 1] == backing);
            assert(a[6] == "-F"@ && a[6int + 1] == "qcow2"@);
            assert forall|i: int| 0 <= i < a.len() implies #[trigger] a[i] != "--object"@ && a[i]
                != "-o"@ by {
                assert(a[i].last() != 't' && a[i].last() != 'o');
            }
        },
    }
}

proof fn lemma_blank(path: Seq<char>, size_mb: u32, secret: Option<Seq<char>>)
    requires
        ends_in_two(path),
    ensures
        makes_blank(blank_args(path, size_mb, secret), path, size_mb as nat, secret),
{
    lemma_image_words();
    let a = blank_args(path, size_mb, secret);
    let size = dec(size_mb as nat) + "M"@;
    assert(size.last() == 'M');
    match secret {
        Some(p) => {
            let key = "secret,id=sec0,file="@ + p + ",format=raw"@;
            assert(key.last() == 'w');
            assert(a[2] == "--object"@ && a[2int + 1] == key);
            assert(a[4] == "-f"@ && a[4int + 1] == "qcow2"@);
            assert(a[6] == "-o"@ && a[6int + 1] == "encrypt.format=luks,encrypt.key-secret=sec0"@);
        },
        None => {
            assert(a[2] == "-f"@ && a[2int + 1] == "qcow2"@);
            assert forall|i: int| 0 <= i < a.len() implies #[trigger] a[i] != "--object"@ && a[i]
                != "-o"@ by {
                assert(a[i].last() != 't' && a[i].last() != 'o');
            }
        },
    }
    assert forall|i: int| 0 <= i < a.len() implies #[trigger] a[i] != "-b"@ by {
        assert(a[i].last() != 'b');
    }
}

proof fn lemma_image_of(raw: Seq<char>, path: Seq<char>, secret: Option<Seq<char>>)
    requires
        raw.len() > 0 && raw.last() == 'w',
        ends_in_two(path),
    ensures
        makes_image_of(convert_args(raw, path, secret), raw, path, secret),
{
    lemma_image_words();
    let a = convert_args(raw, path, secret);
    match secret {
        Some(p) => {
            assert(a[2] == "--object"@ && a[2int + 1] == "secret,id=sec0,file="@ + p + ",format=raw"@);
            assert(a[4] == "-O"@ && a[4int + 1] == "qcow2"@);
            assert(a[6] == "-o"@ && a[6int + 1] == "encrypt.format=luks,encrypt.key-secret=sec0"@);
        },
        None => {
            assert(a[2] == "-O"@ && a[2int + 1] == "qcow2"@);
            assert forall|i: int| 0 <= i < a.len() implies #[trigger] a[i] != "--object"@ && a[i]
                != "-o"@ by {
                assert(a[i].last() != 'o');
                assert(a[i].len() != 8 || a[i].last() != 't');
            }
        },
    }
}

proof fn lemma_fills(seed: SeedSpec, raw: Seq<char>)
    ensures
        fills_from(mkfs_args(seed, raw), seed, raw),
{
    let a = mkfs_args(seed, raw);
    assert(a[1] == "--reuid"@ && a[1int + 1] == dec(seed.build_uid as nat));
    assert(a[3] == "--regid"@ && a[3int + 1] == dec(seed.build_gid as nat));
    assert(a[9] == "-d"@ && a[9int + 1] == seed.dir@);
}

/// A space gets a system layer of its own on top of the image of its profile, which its account
/// alone may open, and, if the profile asks for data, a data volume of that many mebibytes: an empty
/// one, or one that was filled with the files of the operator while nobody else could see them.
/// Seeded or not, the data volume is equally large.
pub proof fn a_space_gets_its_volumes(
    template_dir: Seq<char>,
    space_dir: Seq<char>,
    uid: u32,
    data_mb: u32,
    seed: Option<SeedSpec>,
    secret: Option<Seq<char>>,
)
    ensures
        ({
            let steps = volume_steps(template_dir, space_dir, uid, data_mb, seed, secret);
            let layer = join_path(space_dir, "system-overlay.qcow2"@);
            let data = join_path(space_dir, "data.qcow2"@);
            &&& steps.len() >= 2
            &&& steps[0] matches StepView::Run(argv) && makes_layer(
                argv,
                join_path(template_dir, "root.qcow2"@),
                layer,
                secret,
            )
            &&& steps[1] == (StepView::Own { path: layer, uid })
            &&& data_mb == 0 ==> steps.len() == 2
            &&& data_mb > 0 ==> steps.last() == (StepView::Own { path: data, uid })
            &&& data_mb > 0 && seed is None ==> steps.len() == 4 && (
            steps[2] matches StepView::Run(argv) && makes_blank(argv, data, data_mb as nat, secret))
            &&& data_mb > 0 ==> (seed matches Some(s) ==> {
                let dir = join_path(space_dir, ".seed-staging"@);
                let raw = join_path(dir, "data.raw"@);
                &&& steps.len() == 8
                &&& steps[2] == (StepView::Stage { dir, uid: s.build_uid })
                &&& steps[3] matches StepView::Blank { path, bytes, uid: u, gid: g } && path == raw
                    && bytes == data_mb * 1048576 && u == s.build_uid && g == s.build_gid
                &&& steps[4] matches StepView::Run(argv) && fills_from(argv, s, raw)
                &&& steps[5] matches StepView::Run(argv) && makes_image_of(argv, raw, data, secret)
                &&& steps[6] == (StepView::Unstage { dir })
            })
        }),
{
    lemma_image_words();
    reveal_strlit(".seed-staging");
    let layer = join_path(space_dir, "system-overlay.qcow2"@);
    let data = join_path(space_dir, "data.qcow2"@);
    let raw = join_path(join_path(space_dir, ".seed-staging"@), "data.raw"@);
    lemma_layer(join_path(template_dir, "root.qcow2"@), layer, secret);
    lemma_blank(data, data_mb, secret);
    lemma_image_of(raw, data, secret);
    match seed {
        Some(s) => {
            lemma_fills(s, raw);
        },
        None => {},
    }
    let steps = volume_steps(template_dir, space_dir, uid, data_mb, seed, secret);
    assert(data_mb as int * 1024 * 1024 == data_mb * 1048576);
}

/// The directory of a space.
pub open spec fn home_of(state_dir: Seq<char>, id: Seq<char>) -> Seq<char> {
    join_path(join_path(state_dir, "spaces"@), id)
}

/// The directory of an image.
pub open spec fn image_of(state_dir: Seq<char>, profile: Seq<char>, digest: Seq<char>) -> Seq<
    char,
> {
    join_path(join_path(join_path(state_dir, "templates"@), profile), digest)
}

/// A reset makes the system layer anew on the image of the space. The data volume is replaced by
/// an empty one of the size that the profile asks for exactly where everything is reset; in every
/// other case no step touches it. The file of the passphrase is removed afterwards.
pub proof fn a_reset_replaces_what_it_names(
    job: VolumeJob,
    a: VolumeAction,
    e: RefusalView,
)
    requires
        volumes::is_action(a, VolumeMove::MakeVolumes, job, e),
    ensures
        a matches VolumeAction::MakeVolumes { steps, remove_after } && ({
            let done = step_views(steps@);
            let home = home_of(job.state_dir@, job.space.id@);
            let layer = join_path(home, "system-overlay.qcow2"@);
            let data = join_path(home, "data.qcow2"@);
            let secret = opt_text(job.secret_file);
            &&& opt_text(remove_after) == secret
            &&& done.len() >= 2
            &&& done[0] matches StepView::Run(argv) && makes_layer(
                argv,
                join_path(
                    image_of(job.state_dir@, job.space.profile@, job.digest@),
                    "root.qcow2"@,
                ),
                layer,
                secret,
            )
            &&& done[1] == (StepView::Own { path: layer, uid: job.space.uid })
            &&& if job.op == VolumeOp::ResetAll && job.manifest.data_mb > 0 {
                &&& done.len() == 4
                &&& done[2] matches StepView::Run(argv) && makes_blank(
                    argv,
                    data,
                    job.manifest.data_mb as nat,
                    secret,
                )
                &&& done[3] == (StepView::Own { path: data, uid: job.space.uid })
            } else {
                done.len() == 2
            }
        }),
{
    let home = home_of(job.state_dir@, job.space.id@);
    let image = image_of(job.state_dir@, job.space.profile@, job.digest@);
    let secret = opt_text(job.secret_file);
    a_space_gets_its_volumes(image, home, job.space.uid, job.manifest.data_mb, None, secret);
    a_space_gets_its_volumes(image, home, job.space.uid, 0, None, secret);
    assert(overlay_steps(image, home, job.space.uid, secret) =~= volume_steps(
        image,
        home,
        job.space.uid,
        0,
        None,
        secret,
    ));
}

/// Success is told only once the volumes are made, and the volumes are made only of a machine that
/// does not run.
pub proof fn a_reset_that_succeeds_has_happened(
    op: VolumeOp,
    phase: VolumePhase,
    signal: VolumeSignal,
    encrypted: bool,
)
    ensures
        ({
            let (next, m) = volumes::advance(op, phase, signal, encrypted);
            &&& next == VolumePhase::Volumes <==> m == VolumeMove::MakeVolumes
            &&& m == VolumeMove::Reply ==> signal == VolumeSignal::Good && (phase
                == VolumePhase::Config || phase == VolumePhase::Volumes && op
                != VolumeOp::UpdateImage)
            &&& next == VolumePhase::Config <==> m == VolumeMove::WriteConfig
            &&& next == VolumePhase::Config ==> op == VolumeOp::UpdateImage
            &&& phase == VolumePhase::State && signal != VolumeSignal::Good ==> m
                == VolumeMove::Refuse
            &&& next == VolumePhase::Latest ==> op == VolumeOp::UpdateImage
            &&& encrypted && m == VolumeMove::MakeVolumes ==> phase == VolumePhase::Secret
            &&& next == VolumePhase::Manifest ==> op == VolumeOp::ResetAll
            &&& op == VolumeOp::ResetAll && phase == VolumePhase::State && signal
                == VolumeSignal::Good ==> m == VolumeMove::ReadManifest
        }),
{
}

/// The image changes in an update alone, and then to the one at which the link `latest` points.
pub proof fn an_update_takes_the_latest_image(
    old_job: VolumeJob,
    event: VolumeEvent,
    job: VolumeJob,
)
    requires
        volumes::has_learnt(old_job, event, job),
    ensures
        old_job.phase != VolumePhase::Latest ==> job.digest@ == old_job.digest@,
        old_job.phase == VolumePhase::Latest && volumes::signal_of(old_job, event)
            == VolumeSignal::Good ==> (event matches VolumeEvent::Latest(Some(target))
            && file_name(target@) == Some(job.digest@) && job.digest@ != old_job.space.digest@),
        job.space == old_job.space,
        job.op == old_job.op,
{
}

/// An update changes one record of the store, and of it the image alone; a reset changes none.
pub proof fn an_update_changes_one_record(
    old_job: VolumeJob,
    event: VolumeEvent,
    job: VolumeJob,
    i: int,
)
    requires
        volumes::has_learnt(old_job, event, job),
        0 <= i < old_job.store@.len(),
    ensures
        job.store@.len() == old_job.store@.len(),
        old_job.op != VolumeOp::UpdateImage || old_job.phase != VolumePhase::Volumes
            ==> job.store@ == old_job.store@,
        old_job.store@[i].id != old_job.space.id@ ==> job.store@[i] == old_job.store@[i],
        job.store@[i] == (ConfigView { digest: job.store@[i].digest, ..old_job.store@[i] }),
        job.store@[i].digest == old_job.store@[i].digest || job.store@[i].digest == old_job.digest@,
        old_job.op == VolumeOp::UpdateImage && old_job.phase == VolumePhase::Volumes && event
            == VolumeEvent::Flag(true) && ids_differ(old_job.store@) && old_job.store@[i].id
            == old_job.space.id@ ==> job.store@[i].digest == old_job.digest@,
{
    lemma_index_of_id(old_job.store@, old_job.space.id@);
    if index_of_id(old_job.store@, old_job.space.id@) is Some {
        let k = index_of_id(old_job.store@, old_job.space.id@)->0;
        if old_job.store@[i].id == old_job.space.id@ && ids_differ(old_job.store@) {
            assert(k == i);
        }
    }
}

/// The document that an update leaves on disk reads back as the space on its new image, and as
/// nothing else; the store holds the same.
pub proof fn an_update_records_the_image(
    job: VolumeJob,
    a: VolumeAction,
    e: RefusalView,
)
    requires
        volumes::is_action(a, VolumeMove::WriteConfig, job, e),
        config_is_valid(job.space@),
    ensures
        a matches VolumeAction::WriteConfig { dir, text } && ({
            &&& dir@ == home_of(job.state_dir@, job.space.id@)
            &&& toml_read(text@) matches Some(document)
            &&& config_of(document) matches Some(c)
            &&& c.digest == job.digest@
            &&& c.id == job.space.id@ && c.profile == job.space.profile@ && c.cid == job.space.cid
            &&& c.uid == job.space.uid && c.label == job.space.label@ && c.color
                == job.space.color@
            &&& c.created == job.space.created@ && c.clean_shutdown == job.space.clean_shutdown
            &&& c.encrypted == job.space.encrypted
        }),
{
    let c = ConfigView { digest: job.digest@, ..job.space@ };
    config_roundtrip(c);
}

// ---------------------------------------------------------------------------------------------
// Stop
// ---------------------------------------------------------------------------------------------

/// The document that a stop leaves on disk reads back as the space with the outcome of this stop,
/// and otherwise as it was.
pub proof fn a_stop_records_its_outcome(job: StopJob, a: StopAction)
    requires
        is_stop_action(a, StopMove::WriteConfig, job),
        config_is_valid(job.space@),
    ensures
        a matches StopAction::WriteConfig { dir, text } && ({
            &&& dir@ == home_of(job.state_dir@, job.space.id@)
            &&& toml_read(text@) matches Some(document)
            &&& config_of(document) matches Some(c)
            &&& c.clean_shutdown == Some(job.graceful)
            &&& c.id == job.space.id@ && c.profile == job.space.profile@ && c.cid == job.space.cid
            &&& c.uid == job.space.uid && c.label == job.space.label@ && c.color
                == job.space.color@
            &&& c.digest == job.space.digest@ && c.created == job.space.created@
            &&& c.encrypted == job.space.encrypted
        }),
{
    let c = ConfigView { clean_shutdown: Some(job.graceful), ..job.space@ };
    config_roundtrip(c);
}

/// The outcome of a stop is what the reply of the agent came to, if it was asked, and nothing
/// changes it from then on: what is recorded in the store, what is written and what is told are
/// the same.
pub proof fn a_stop_has_one_outcome(old_job: StopJob, event: StopEvent, job: StopJob)
    requires
        stop_has_learnt(old_job, event, job),
    ensures
        old_job.phase == StopPhase::Agent ==> (event matches StopEvent::Agent(reply)
            ==> (job.graceful <==> (reply matches Ok(r) && trim(old_job.nonce@).len() > 0 && r.nonce@
            == trim(old_job.nonce@) && r.ok && r.data_unmounted == Some(true)))),
        old_job.phase == StopPhase::Agent && !(event is Agent) ==> job.graceful
            == old_job.graceful,
        old_job.phase != StopPhase::Agent ==> job.graceful == old_job.graceful || !job.graceful,
        old_job.phase != StopPhase::Agent && old_job.phase != StopPhase::Nonce ==> job.graceful
            == old_job.graceful && job.detail@ == old_job.detail@,
        old_job.phase == StopPhase::Secret ==> (space_with_id(
            old_job.store@,
            old_job.space.id@,
        ) is Some ==> (space_with_id(job.store@, job.space.id@) matches Some(c)
            && c.clean_shutdown == Some(job.graceful))),
{
    if old_job.phase == StopPhase::Secret {
        let id = old_job.space.id@;
        lemma_index_of_id(old_job.store@, id);
        lemma_index_of_id(job.store@, id);
        match index_of_id(old_job.store@, id) {
            Some(i) => {
                let c = job.store@[i];
                assert(c.id == id);
                let k = index_of_id(job.store@, id)->0;
                if k < i {
                    assert(job.store@[k] == old_job.store@[k]);
                }
            },
            None => {},
        }
    }
}

/// What a stop replies: that the space is stopped, and whether its guest was.
pub proof fn a_stop_tells_its_outcome(job: StopJob, a: StopAction)
    requires
        is_stop_action(a, StopMove::Reply, job),
    ensures
        a matches StopAction::Reply(v) && ({
            &&& get(v@, "id"@) == Some(JsonView::Str(job.space.id@))
            &&& get(v@, "state"@) == Some(JsonView::Str("stopped"@))
            &&& get(v@, "clean-shutdown"@) == Some(JsonView::Bool(job.graceful))
            &&& get(v@, "detail"@) == Some(JsonView::Str(job.detail@))
        }),
{
    reveal_strlit("id");
    reveal_strlit("state");
    reveal_strlit("clean-shutdown");
    reveal_strlit("detail");
    assert("id"@.len() == 2 && "state"@.len() == 5 && "detail"@.len() == 6);
    assert("clean-shutdown"@.len() == 14);
    reveal_with_fuel(find_field, 5);
}

// ---------------------------------------------------------------------------------------------
// Start
// ---------------------------------------------------------------------------------------------

/// What is started is the machine of the space: under its account, on its own layer of the image
/// that it was made on, with its data if the profile asks for any, on its own tap, with what its
/// profile asks for, and with the nonce of this run.
pub proof fn a_start_runs_the_machine_of_the_space(job: StartJob, a: StartAction)
    requires
        start::is_action(a, Move::Spawn, job),
    ensures
        a matches StartAction::Spawn { run, argv } && ({
            let args = texts(argv@);
            let home = home_of(job.state_dir@, job.space.id@);
            let image = image_of(job.state_dir@, job.space.profile@, job.space.digest@);
            let key = if job.secret_file is Some {
                ",encrypt.key-secret=sec0"@
            } else {
                ""@
            };
            &&& run.id@ == job.space.id@
            &&& args[0] == "setpriv"@ && args[2] == dec(job.space.uid as nat) && args[4] == dec(
                job.kvm_gid as nat,
            )
            &&& is_set_to(args, "-kernel"@, join_path(image, "vmlinuz"@))
            &&& is_set_to(args, "-initrd"@, join_path(image, "initrd.img"@))
            &&& is_set_to(args, "-m"@, dec(job.manifest.memory_mb as nat))
            &&& is_set_to(args, "-smp"@, dec(job.manifest.cpus as nat))
            &&& is_passed(
                args,
                "-drive"@,
                "id=root,file="@ + join_path(home, "system-overlay.qcow2"@)
                    + ",format=qcow2,if=none,readonly=off"@ + key,
            )
            &&& job.manifest.data_mb > 0 ==> is_passed(
                args,
                "-drive"@,
                "id=data,file="@ + join_path(home, "data.qcow2"@)
                    + ",format=qcow2,if=none,readonly=off"@ + key,
            )
            &&& is_passed(
                args,
                "-device"@,
                "vhost-vsock-device,guest-cid="@ + dec(job.space.cid as nat),
            )
            &&& is_set_to(
                args,
                "-netdev"@,
                "tap,id=net0,ifname="@ + tap_name(job.space.cid) + ",script=no,downscript=no"@,
            )
            &&& (forall|i: int| 0 <= i < job.nonce@.len() ==> !is_white(#[trigger] job.nonce@[i]))
                ==> exists|line: Seq<char>|
                #[trigger] is_set_to(args, "-append"@, line) && nonce_in(line + "\n"@)
                    == job.nonce@
            &&& run.gpu@ == job.manifest.isolation_gpu@
            &&& run.app_command@ == job.manifest.app_command@
        }),
{
    match a {
        StartAction::Spawn { run, argv } => {
            let secret = opt_text(job.secret_file);
            privileges_are_dropped_first(run, secret);
            let args = machine_argv(run, secret);
            assert(args.take(9)[0] == args[0] && args.take(9)[2] == args[2] && args.take(9)[4]
                == args[4]);
            the_machine_boots_the_image_of_its_space(run, secret);
            the_devices_are_those_of_the_space(run, secret);
            the_disks_are_those_of_the_space(run, secret);
            if forall|i: int| 0 <= i < job.nonce@.len() ==> !is_white(#[trigger] job.nonce@[i]) {
                the_guest_reads_the_nonce(run, seq![]);
            }
        },
        _ => {},
    }
}

/// What a start looks for and makes before it runs the machine belongs to the space: the image
/// that its layer rests on, its directory with the nonce of this run, its tap for its account, and
/// its passphrase, for its account alone.
pub proof fn a_start_prepares_the_space(job: StartJob, a: StartAction)
    ensures
        start::is_action(a, Move::AskManifest, job) ==> (
        a matches StartAction::ReadManifest { profile } && profile@ == job.space.profile@),
        start::is_action(a, Move::AskTemplate, job) ==> (
        a matches StartAction::CheckFile { path } && path@ == join_path(
            image_of(job.state_dir@, job.space.profile@, job.space.digest@),
            "root.qcow2"@,
        )),
        start::is_action(a, Move::MakeRunDir, job) ==> (
        a matches StartAction::MakeRunDir { dir, nonce } && dir@ == join_path(
            job.run_dir@,
            job.space.id@,
        ) && nonce@ == job.nonce@),
        start::is_action(a, Move::ReapTap, job) ==> (a matches StartAction::ReapTap { cid } && cid
            == job.space.cid),
        start::is_action(a, Move::RaiseTap, job) ==> (
        a matches StartAction::RaiseTap { cid, uid } && cid == job.space.cid && uid
            == job.space.uid),
        start::is_action(a, Move::WriteSecret, job) ==> (
        a matches StartAction::WriteSecret { uid, passphrase } && uid == job.space.uid && Some(
            passphrase@,
        ) == opt_text(job.passphrase)),
        start::is_action(a, Move::AskHealth, job) ==> (a matches StartAction::AskHealth { cid }
            && cid == job.space.cid),
        start::is_action(a, Move::ExecApp, job) ==> (a matches StartAction::ExecApp { cid } && cid
            == job.space.cid),
{
}

/// What a start replies: that the space runs, under which context id, and what became of its
/// application.
pub proof fn a_start_tells_what_runs(job: StartJob, a: StartAction)
    requires
        start::is_action(a, Move::ReplyRunning, job),
    ensures
        a matches StartAction::Reply(v) && ({
            &&& get(v@, "id"@) == Some(JsonView::Str(job.space.id@))
            &&& get(v@, "state"@) == Some(JsonView::Str("running"@))
            &&& get(v@, "cid"@) == Some(JsonView::Unsigned(job.space.cid as u64))
            &&& get(v@, "app"@) == Some(JsonView::Str(job.report@))
        }),
{
    reveal_strlit("id");
    reveal_strlit("state");
    reveal_strlit("cid");
    reveal_strlit("app");
    assert("id"@.len() == 2 && "state"@.len() == 5 && "cid"@.len() == 3 && "app"@.len() == 3);
    assert("cid"@[0] == 'c' && "app"@[0] == 'a');
    reveal_with_fuel(find_field, 5);
}

/// The tap of a space belongs to its account, hangs on the bridge of the spaces, is isolated from
/// its neighbours before it comes up, and is the one that is taken down.
pub proof fn a_tap_is_isolated_before_it_is_up(cid: u32, uid: u32)
    ensures
        ({
            let up = tap_up_commands(cid, uid);
            let tap = tap_name(cid);
            &&& up.len() == 4
            &&& up[0].len() == 9 && up[0][0] == "ip"@ && up[0][1] == "tuntap"@ && up[0][2] == "add"@
            &&& is_passed(up[0], "dev"@, tap) && is_passed(up[0], "mode"@, "tap"@) && is_passed(
                up[0],
                "user"@,
                dec(uid as nat),
            )
            &&& up[1].len() == 6 && up[1][0] == "ip"@ && up[1][1] == "link"@ && up[1][2] == "set"@
                && is_passed(up[1], "set"@, tap) && is_passed(up[1], "master"@, "br-spaces"@)
            &&& up[2].len() == 7 && up[2][0] == "bridge"@ && up[2][1] == "link"@ && up[2][2]
                == "set"@ && is_passed(up[2], "dev"@, tap) && is_passed(
                up[2],
                "isolated"@,
                "on"@,
            )
            &&& up[3].len() == 5 && up[3][0] == "ip"@ && is_passed(up[3], "set"@, tap)
                && up[3].last() == "up"@
            &&& tap_down_command(cid).len() == 4 && is_passed(tap_down_command(cid), "del"@, tap)
        }),
{
    let up = tap_up_commands(cid, uid);
    assert(up[0][3] == "dev"@ && up[0][3int + 1] == tap_name(cid));
    assert(up[0][5] == "mode"@ && up[0][5int + 1] == "tap"@);
    assert(up[0][7] == "user"@ && up[0][7int + 1] == dec(uid as nat));
    assert(up[1][2] == "set"@ && up[1][2int + 1] == tap_name(cid));
    assert(up[1][4] == "master"@ && up[1][4int + 1] == "br-spaces"@);
    assert(up[2][3] == "dev"@ && up[2][3int + 1] == tap_name(cid));
    assert(up[2][5] == "isolated"@ && up[2][5int + 1] == "on"@);
    assert(up[3][2] == "set"@ && up[3][2int + 1] == tap_name(cid));
    let down = tap_down_command(cid);
    assert(down[2] == "del"@ && down[2int + 1] == tap_name(cid));
}

// ---------------------------------------------------------------------------------------------
// Create and destroy
// ---------------------------------------------------------------------------------------------

/// The space that a creation takes up is what was asked for, under numbers that nothing else on
/// the host has.
pub proof fn a_creation_takes_up_what_was_asked_for(
    old_job: CreateJob,
    event: CreateEvent,
    job: CreateJob,
)
    requires
        create::has_learnt(old_job, event, job),
        old_job.phase == CreatePhase::Host,
        create::verdict(old_job, event) is Ok,
    ensures
        event matches CreateEvent::Host { links, passwd: Some(passwd), now_secs } && (
        opt_config(job.config) matches Some(c) && ({
            &&& c.id == old_job.new.id@
            &&& c.profile == old_job.new.profile@
            &&& c.digest == old_job.new.digest@
            &&& c.label == old_job.new.label@
            &&& c.color == old_job.new.color@
            &&& c.encrypted == old_job.new.encrypted
            &&& c.clean_shutdown is None
            &&& 3 <= c.cid <= 255 && c.cid != 9
            &&& c.uid == 70000 + c.cid
            &&& !texts(links@).contains(tap_name(c.cid))
            &&& forall|i: int| 0 <= i < old_job.store@.len() ==> (#[trigger] old_job.store@[i]).cid
                != c.cid && old_job.store@[i].id != c.id
            &&& c.id != "miyori-net"@
            &&& job.store@.contains(c)
            &&& forall|i: int| 0 <= i < old_job.store@.len() ==> job.store@.contains(
                #[trigger] old_job.store@[i],
            )
        })),
{
    match event {
        CreateEvent::Host { links, passwd: Some(passwd), now_secs } => {
            let c = opt_config(job.config)->0;
            the_lowest_free_cid(old_job.store@, texts(links@));
            lemma_index_of_id(old_job.store@, old_job.new.id@);
            crate::order::lemma_insert_by_contains(
                old_job.store@,
                c,
                crate::daemon::store::by_id(),
                c,
            );
            assert forall|i: int| 0 <= i < old_job.store@.len() implies job.store@.contains(
                #[trigger] old_job.store@[i],
            ) by {
                crate::order::lemma_insert_by_contains(
                    old_job.store@,
                    c,
                    crate::daemon::store::by_id(),
                    old_job.store@[i],
                );
                assert(old_job.store@.contains(old_job.store@[i]));
            }
        },
        _ => {},
    }
}

/// The document of a new space lies in its directory and reads back as the space.
pub proof fn a_creation_writes_its_space(
    job: CreateJob,
    a: CreateAction,
    v: Result<(), RefusalView>,
)
    requires
        create::is_action(a, CreateMove::WriteConfig, job, v),
        opt_config(job.config) matches Some(c) && config_is_valid(c),
    ensures
        a matches CreateAction::WriteConfig { dir, text } && dir@ == home_of(
            job.state_dir@,
            job.new.id@,
        ) && (toml_read(text@) matches Some(document) && config_of(document) == opt_config(
            job.config,
        )),
{
    config_roundtrip(opt_config(job.config)->0);
}

/// The volumes of a new space are those that its machine will be run on, see
/// `a_start_runs_the_machine_of_the_space`: they lie in its directory, belong to its account, rest on
/// the image that is on its record, and hold the files of the operator if there were any.
pub proof fn a_creation_makes_the_volumes(
    job: CreateJob,
    a: CreateAction,
    v: Result<(), RefusalView>,
)
    requires
        create::is_action(a, CreateMove::MakeVolumes, job, v),
    ensures
        a matches CreateAction::MakeVolumes { steps, remove_after } && (
        opt_config(job.config) matches Some(c) && ({
            let done = step_views(steps@);
            let home = home_of(job.state_dir@, job.new.id@);
            let image = image_of(job.state_dir@, job.new.profile@, job.new.digest@);
            let layer = join_path(home, "system-overlay.qcow2"@);
            let data = join_path(home, "data.qcow2"@);
            let raw = join_path(join_path(home, ".seed-staging"@), "data.raw"@);
            let secret = opt_text(job.secret_file);
            &&& opt_text(remove_after) == secret
            &&& done.len() >= 2
            &&& done[0] matches StepView::Run(argv) && makes_layer(
                argv,
                join_path(image, "root.qcow2"@),
                layer,
                secret,
            )
            &&& done[1] == (StepView::Own { path: layer, uid: c.uid })
            &&& job.manifest.data_mb == 0 ==> done.len() == 2
            &&& job.manifest.data_mb > 0 ==> done.last() == (StepView::Own {
                path: data,
                uid: c.uid,
            })
            &&& job.manifest.data_mb > 0 && job.seed is None ==> (
            done[2] matches StepView::Run(argv) && makes_blank(
                argv,
                data,
                job.manifest.data_mb as nat,
                secret,
            ))
            &&& job.manifest.data_mb > 0 ==> (job.seed matches Some(dir) ==> {
                &&& done[3] matches StepView::Blank { path, bytes, uid, gid } && path == raw
                    && bytes == job.manifest.data_mb * 1048576 && uid == job.seed_uid && gid
                    == job.seed_gid
                &&& done[4] matches StepView::Run(argv) && is_passed(argv, "-d"@, dir@)
                    && is_passed(argv, "--reuid"@, dec(job.seed_uid as nat)) && argv.last() == raw
                &&& done[5] matches StepView::Run(argv) && makes_image_of(argv, raw, data, secret)
            })
        })),
{
    match a {
        CreateAction::MakeVolumes { steps, remove_after } => {
            let c = opt_config(job.config)->0;
            let home = home_of(job.state_dir@, job.new.id@);
            let image = image_of(job.state_dir@, job.new.profile@, job.new.digest@);
            let seed = choose|seed: Option<SeedSpec>|
                {
                    &&& #[trigger] is_seed(seed, job)
                    &&& step_views(steps@) == volume_steps(
                        image,
                        home,
                        c.uid,
                        job.manifest.data_mb,
                        seed,
                        opt_text(job.secret_file),
                    )
                };
            a_space_gets_its_volumes(
                image,
                home,
                c.uid,
                job.manifest.data_mb,
                seed,
                opt_text(job.secret_file),
            );
        },
        _ => {},
    }
}

/// The rows that a published registry is read as.
pub open spec fn published(registry: Seq<char>) -> Option<Seq<RegistryRow>> {
    match toml_read(registry) {
        Some(document) => match rows_of_document(document) {
            Ok(rows) => Some(rows),
            Err(_) => None,
        },
        None => None,
    }
}

proof fn lemma_published(spaces: Seq<ConfigView>, registry: Seq<char>)
    requires
        crate::toml::is_written(registry, registry_document(registry_rows(registry_rows_of(spaces)))),
        forall|i: int| 0 <= i < spaces.len() ==> config_is_valid(#[trigger] spaces[i]),
    ensures
        published(registry) == Some(registry_rows(registry_rows_of(spaces))),
{
    let rows = registry_rows_of(spaces);
    assert forall|i: int| 0 <= i < rows.len() implies row_is_valid(#[trigger] rows[i]) by {
        assert(config_is_valid(spaces[i]));
    }
    registry_roundtrip(rows);
}

/// A new space is published with the identity that was asked for: the registry is read as one that
/// holds it, and everything that it held before.
pub proof fn a_creation_publishes_its_space(
    job: CreateJob,
    a: CreateAction,
    v: Result<(), RefusalView>,
    c: ConfigView,
)
    requires
        create::is_action(a, CreateMove::Publish, job, v),
        forall|i: int| 0 <= i < job.store@.len() ==> config_is_valid(#[trigger] job.store@[i]),
        job.store@.contains(c),
        c.id != "miyori-net"@,
    ensures
        a matches CreateAction::Publish { registry, rules } && (
        published(registry@) matches Some(rows) && rows.contains(
            RegistryRow { id: c.id, cid: c.cid, label: c.label, color: c.color },
        )),
{
    match a {
        CreateAction::Publish { registry, rules } => {
            lemma_published(job.store@, registry@);
            let rows = registry_rows_of(job.store@);
            registry_holds_the_network_machine_once(rows);
            let k = choose|k: int| 0 <= k < job.store@.len() && job.store@[k] == c;
            assert(rows[k] == RegistryRow { id: c.id, cid: c.cid, label: c.label, color: c.color });
        },
        _ => {},
    }
}

/// A space that could not be finished is removed as a whole.
pub proof fn a_creation_removes_what_it_wrote(
    job: CreateJob,
    a: CreateAction,
    v: Result<(), RefusalView>,
)
    requires
        create::is_action(a, CreateMove::RemoveSpace, job, v),
    ensures
        a matches CreateAction::RemoveSpace { dir } && dir@ == home_of(job.state_dir@, job.new.id@),
{
}

/// A destroyed space is gone: its tap, its directory and its place in the registry, in this order.
/// A space that runs is not destroyed.
pub proof fn a_destroyed_space_is_gone(job: DestroyJob, a: DestroyAction)
    requires
        forall|i: int| 0 <= i < job.store@.len() ==> config_is_valid(#[trigger] job.store@[i]),
        forall|i: int|
            0 <= i < job.store@.len() ==> (#[trigger] job.store@[i]).id != job.space.id@,
        job.space.id@ != "miyori-net"@,
    ensures
        destroy::is_action(a, DestroyMove::AskLink, job) ==> (a matches DestroyAction::AskLink {
            name,
        } && name@ == tap_name(job.space.cid)),
        destroy::is_action(a, DestroyMove::DropTap, job) ==> (a matches DestroyAction::DropTap {
            cid,
        } && cid == job.space.cid),
        destroy::is_action(a, DestroyMove::RemoveSpace, job) ==> (
        a matches DestroyAction::RemoveSpace { dir } && dir@ == home_of(
            job.state_dir@,
            job.space.id@,
        )),
        destroy::is_action(a, DestroyMove::Publish, job) ==> (a matches DestroyAction::Publish {
            registry,
            rules,
        } && (published(registry@) matches Some(rows) && forall|i: int|
            0 <= i < rows.len() ==> (#[trigger] rows[i]).id != job.space.id@)),
{
    if destroy::is_action(a, DestroyMove::Publish, job) {
        match a {
            DestroyAction::Publish { registry, rules } => {
                lemma_published(job.store@, registry@);
                let given = registry_rows_of(job.store@);
                let rows = registry_rows(given);
                crate::daemon::render::writing_again_changes_nothing(given);
                assert forall|i: int| 0 <= i < rows.len() implies (#[trigger] rows[i]).id
                    != job.space.id@ by {
                    lemma_row_origin(given, i);
                    if rows[i].id != "miyori-net"@ {
                        let k = choose|k: int| 0 <= k < given.len() && given[k] == rows[i];
                        assert(job.store@[k].id != job.space.id@);
                    }
                }
            },
            _ => {},
        }
    }
}

/// A row of the registry is that of the network machine or one that was given.
proof fn lemma_row_origin(given: Seq<RegistryRow>, i: int)
    requires
        0 <= i < registry_rows(given).len(),
    ensures
        registry_rows(given)[i].id == "miyori-net"@ || exists|k: int|
            0 <= k < given.len() && given[k] == registry_rows(given)[i],
{
    let rows = registry_rows(given);
    let plain = crate::daemon::render::space_rows(given).push(crate::daemon::render::net_row());
    assert(rows.contains(rows[i]));
    crate::order::lemma_sort_by_contains(plain, crate::daemon::render::by_cid(), rows[i]);
    let p = choose|p: int| 0 <= p < plain.len() && plain[p] == rows[i];
    if p < crate::daemon::render::space_rows(given).len() {
        crate::daemon::render::lemma_space_rows_among(given, p);
    }
}

/// The order of a destruction, and that success is told only at its end.
pub proof fn a_destruction_ends_with_the_registry(phase: DestroyPhase, good: bool)
    ensures
        ({
            let (next, m) = destroy::advance(phase, good);
            &&& m == DestroyMove::Reply ==> phase == DestroyPhase::Publish && good
            &&& next == DestroyPhase::Publish <==> m == DestroyMove::Publish
            &&& m == DestroyMove::Publish ==> phase == DestroyPhase::Directory && good
            &&& next == DestroyPhase::Directory <==> m == DestroyMove::RemoveSpace
            &&& m == DestroyMove::RemoveSpace ==> phase == DestroyPhase::Tap && good || phase
                == DestroyPhase::Link && !good
            &&& m == DestroyMove::DropTap <==> phase == DestroyPhase::Link && good
            &&& next == DestroyPhase::Link <==> m == DestroyMove::AskLink
            &&& m == DestroyMove::AskLink <==> phase == DestroyPhase::State && good
        }),
{
}

/// The order of a creation: the document, then the volumes, with the passphrase at hand where there
/// is one, then the registry, and only then success. Where files were sent they are looked at
/// before anything is written.
pub proof fn a_creation_goes_in_order(
    phase: CreatePhase,
    good: bool,
    seeded: bool,
    encrypted: bool,
)
    ensures
        ({
            let (next, m) = create::advance(phase, good, seeded, encrypted);
            &&& m == CreateMove::Reply <==> phase == CreatePhase::Publish && good
            &&& next == CreatePhase::Publish <==> m == CreateMove::Publish
            &&& m == CreateMove::Publish <==> phase == CreatePhase::Volumes && good
            &&& next == CreatePhase::Volumes <==> m == CreateMove::MakeVolumes
            &&& m == CreateMove::MakeVolumes <==> good && (if encrypted {
                phase == CreatePhase::Secret
            } else {
                phase == CreatePhase::Config || phase == CreatePhase::Secret
            }) || good && phase == CreatePhase::Secret
            &&& m == CreateMove::WriteSecret <==> phase == CreatePhase::Config && good && encrypted
            &&& next == CreatePhase::Config <==> m == CreateMove::WriteConfig
            &&& m == CreateMove::WriteConfig <==> phase == CreatePhase::Host && good
            &&& m == CreateMove::AskHost <==> good && (phase == CreatePhase::Accounts || phase
                == CreatePhase::Templates && !seeded)
            &&& m == CreateMove::StatSeed <==> good && phase == CreatePhase::Templates && seeded
            &&& next == CreatePhase::Undone <==> m == CreateMove::RemoveSpace
            &&& m == CreateMove::RemoveSpace <==> !good && create::is_on_disk(phase)
        }),
{
}

/// The order of a start: every step waits for the one before it, the application is asked for only
/// once the agent has answered, and success is told only of a machine that lives.
pub proof fn a_start_goes_in_order(phase: start::StartPhase, signal: start::Signal, encrypted: bool)
    ensures
        ({
            let (next, m) = start::advance(phase, signal, encrypted);
            let good = signal == start::Signal::Good;
            &&& m == Move::AskBridge <==> phase == start::StartPhase::State && good
            &&& m == Move::AskManifest <==> phase == start::StartPhase::Bridge && good
            &&& m == Move::AskTemplate <==> phase == start::StartPhase::Manifest && good
            &&& m == Move::AskGroup <==> phase == start::StartPhase::Template && good
            &&& m == Move::AskRandom <==> phase == start::StartPhase::Group && good
            &&& m == Move::MakeRunDir <==> phase == start::StartPhase::Nonce && good
            &&& m == Move::ReapTap <==> phase == start::StartPhase::RunDir && good
            &&& m == Move::RaiseTap <==> phase == start::StartPhase::Reap && good
            &&& m == Move::WriteSecret <==> phase == start::StartPhase::Tap && good && encrypted
            &&& m == Move::Spawn <==> good && (phase == start::StartPhase::Secret || phase
                == start::StartPhase::Tap && !encrypted)
            &&& m == Move::Settle <==> phase == start::StartPhase::Spawn && good
            &&& m == Move::AskHealth <==> phase == start::StartPhase::Pause || phase
                == start::StartPhase::Settle && good
            &&& m == Move::ExecApp <==> phase == start::StartPhase::Health && good
            &&& m == Move::ReplyRunning <==> good && (phase == start::StartPhase::Exec || phase
                == start::StartPhase::Verdict)
            &&& m == Move::RefuseWrongPassphrase <==> good && (phase == start::StartPhase::Dead
                || phase == start::StartPhase::Lost)
            &&& m == Move::RefuseRunning <==> phase == start::StartPhase::State && !good
            &&& m == Move::RefuseNoBridge <==> phase == start::StartPhase::Bridge && !good
            &&& m == Move::RefuseNoTemplate <==> phase == start::StartPhase::Template && !good
        }),
{
}

// ---------------------------------------------------------------------------------------------
// Build
// ---------------------------------------------------------------------------------------------

/// An image is built under the account of the operator, in a directory of its own, from the
/// directory of its profile, and is put where a space of that profile looks for the image of that
/// digest; the link of the profile then names the digest.
pub proof fn a_build_puts_the_image_where_spaces_look(
    job: BuildJob,
    a: BuildAction,
    v: Result<(), RefusalView>,
)
    ensures
        ({
            let staging = join_path(
                join_path(join_path(job.state_dir@, "templates"@), ".staging"@),
                job.profile@ + "-"@ + job.tag@,
            );
            &&& image::is_action(a, BuildMove::Stage, job, v) ==> (a matches BuildAction::Stage {
                dir,
                uid,
            } && dir@ == staging && uid == job.uid)
            &&& image::is_action(a, BuildMove::RunBuilder, job, v) ==> (
            a matches BuildAction::RunBuilder { argv, out_dir, home } && ({
                let args = texts(argv@);
                &&& args.len() == 10
                &&& args[0] == "setpriv"@
                &&& is_passed(args, "--reuid"@, dec(job.uid as nat))
                &&& is_passed(args, "--regid"@, dec(job.gid as nat))
                &&& args[5] == "--clear-groups"@ && args[6] == "--"@
                &&& is_passed(args, "bash"@, "tools/build-profile.sh"@)
                &&& args.last() == join_path(join_path(job.state_dir@, "profiles"@), job.profile@)
                &&& out_dir@ == staging
                &&& home@ == job.home@
            }))
            &&& image::is_action(a, BuildMove::ReadLatest, job, v) ==> (
            a matches BuildAction::ReadLink { path } && path@ == join_path(
                join_path(staging, job.profile@),
                "latest"@,
            ))
            &&& image::is_action(a, BuildMove::Place, job, v) ==> (a matches BuildAction::Place {
                built,
                target,
            } && built@ == join_path(join_path(staging, job.profile@), job.digest@) && target@
                == image_of(job.state_dir@, job.profile@, job.digest@))
            &&& image::is_action(a, BuildMove::Link, job, v) ==> (a matches BuildAction::Link {
                dir,
                digest,
            } && dir@ == join_path(join_path(job.state_dir@, "templates"@), job.profile@) && digest@
                == job.digest@)
            &&& image::is_action(a, BuildMove::Unstage, job, v) ==> (
            a matches BuildAction::Unstage { dir } && dir@ == staging)
            &&& image::is_action(a, BuildMove::Reply, job, v) ==> (a matches BuildAction::Reply(r)
                && get(r@, "profile"@) == Some(JsonView::Str(job.profile@)) && get(r@, "digest"@)
                == Some(JsonView::Str(job.digest@)) && get(r@, "path"@) == Some(
                JsonView::Str(image_of(job.state_dir@, job.profile@, job.digest@)),
            ))
        }),
{
    reveal_strlit("profile");
    reveal_strlit("digest");
    reveal_strlit("path");
    assert("profile"@.len() == 7 && "digest"@.len() == 6 && "path"@.len() == 4);
    reveal_with_fuel(find_field, 4);
    if image::is_action(a, BuildMove::RunBuilder, job, v) {
        match a {
            BuildAction::RunBuilder { argv, out_dir, home } => {
                let args = texts(argv@);
                assert(args[1] == "--reuid"@ && args[1int + 1] == dec(job.uid as nat));
                assert(args[3] == "--regid"@ && args[3int + 1] == dec(job.gid as nat));
                assert(args[7] == "bash"@ && args[7int + 1] == "tools/build-profile.sh"@);
            },
            _ => {},
        }
    }
}

/// What a build learns of the account it runs under and of the image it made.
pub proof fn a_build_runs_under_an_account_of_the_host(
    old_job: BuildJob,
    event: BuildEvent,
    job: BuildJob,
)
    requires
        image::has_learnt(old_job, event, job),
        image::verdict(old_job, event) is Ok,
    ensures
        old_job.phase == BuildPhase::Owner ==> (match old_job.build_uid {
            Some(uid) => job.uid == uid,
            None => event == BuildEvent::Number(Some(job.uid)),
        }),
        old_job.phase == BuildPhase::Latest ==> (event matches BuildEvent::Text(Some(target))
            && file_name(target@) == Some(job.digest@)),
        old_job.phase != BuildPhase::Owner ==> job.uid == old_job.uid,
        old_job.phase != BuildPhase::Latest ==> job.digest@ == old_job.digest@,
{
}

/// The image that the link of a profile names is the one that a new space takes and that an update
/// goes to; without the link a new space takes the only image there is, and an update none.
pub proof fn the_link_names_the_image(
    state_dir: Seq<char>,
    profile: Seq<char>,
    latest: Option<Seq<char>>,
    dirs: Seq<Seq<char>>,
    digest: Seq<char>,
)
    ensures
        latest matches Some(target) && file_name(target) == Some(digest) ==> template_digest(
            state_dir,
            profile,
            latest,
            dirs,
        ) == Ok::<Seq<char>, RefusalView>(digest) && latest_digest(state_dir, profile, latest)
            == Ok::<Seq<char>, RefusalView>(digest),
        latest is None ==> latest_digest(state_dir, profile, latest) is Err,
        latest is None && digest != "latest"@ ==> template_digest(
            state_dir,
            profile,
            latest,
            seq![digest],
        ) == Ok::<Seq<char>, RefusalView>(digest),
        latest is None ==> template_digest(state_dir, profile, latest, seq![]) is Err,
        latest is None ==> (template_digest(state_dir, profile, latest, dirs) matches Ok(d)
            ==> dirs.contains(d)),
{
    let one = seq![digest];
    let none = Seq::<Seq<char>>::empty();
    assert(one.drop_last() =~= none);
    assert(crate::daemon::ops::shared::candidates(none) =~= none);
    if digest != "latest"@ {
        assert(crate::daemon::ops::shared::candidates(one) =~= one);
    }
    if latest is None && crate::daemon::ops::shared::candidates(dirs).len() == 1 {
        lemma_candidate(dirs, 0);
    }
}

proof fn lemma_candidate(dirs: Seq<Seq<char>>, k: int)
    requires
        0 <= k < crate::daemon::ops::shared::candidates(dirs).len(),
    ensures
        dirs.contains(crate::daemon::ops::shared::candidates(dirs)[k]),
    decreases dirs.len(),
{
    let front = dirs.drop_last();
    if dirs.last() != "latest"@ && k == crate::daemon::ops::shared::candidates(front).len() {
        assert(dirs[dirs.len() - 1] == dirs.last());
    } else {
        lemma_candidate(front, k);
        let i = choose|i: int|
            0 <= i < front.len() && front[i] == crate::daemon::ops::shared::candidates(front)[k];
        assert(dirs[i] == front[i]);
    }
}

/// The order of a build, and that success is told only once the image is in its place.
pub proof fn a_build_goes_in_order(phase: BuildPhase, good: bool)
    ensures
        ({
            let (next, m) = image::advance(phase, good);
            &&& m == BuildMove::Stage <==> phase == BuildPhase::Accounts && good
            &&& m == BuildMove::RunBuilder <==> phase == BuildPhase::Stage && good
            &&& m == BuildMove::ReadLatest <==> phase == BuildPhase::Builder && good
            &&& m == BuildMove::Place <==> phase == BuildPhase::Latest && good
            &&& m == BuildMove::Link <==> phase == BuildPhase::Place && good
            &&& next == BuildPhase::Cleared <==> phase == BuildPhase::Link
            &&& m == BuildMove::Reply <==> phase == BuildPhase::Cleared
            &&& next == BuildPhase::Failed <==> !good && (phase == BuildPhase::Builder || phase
                == BuildPhase::Latest || phase == BuildPhase::Place)
        }),
{
}

} // verus!
