//! What the operations share.
use crate::accounts::{lookup_gid, lookup_passwd_entry, same_gid, user_entry, group_gid};
use crate::daemon::qemu::{opt_str, SpaceState};
use crate::daemon::store::{space_with_id, SpaceConfig, Store};
use crate::paths::{file_name, is_absolute, join_path, path_file_name, path_is_absolute, path_join};
use crate::text::{
    char_texts, chars_lines, chars_of, dec, hex2, join, join_chars, lines, occurs, opt_text,
    push_text, str_contains, str_equal, str_trim, texts, trim, u32_to_hex2, u32_to_string,
};
use vstd::prelude::*;

verus! {

#[derive(Debug, Clone, Copy, PartialEq, Eq, Structural)]
pub enum ErrorCode {
    BadRequest,
    SpaceExists,
    SpaceNotFound,
    ProfileNotFound,
    TemplateNotFound,
    SpaceRunning,
    SpaceStopped,
    NoBridge,
    WrongPassphrase,
    AgentTimeout,
    Internal,
}

/// The name of a code on the wire.
pub open spec fn code_text(code: ErrorCode) -> Seq<char> {
    match code {
        ErrorCode::BadRequest => "bad-request"@,
        ErrorCode::SpaceExists => "space-exists"@,
        ErrorCode::SpaceNotFound => "space-not-found"@,
        ErrorCode::ProfileNotFound => "profile-not-found"@,
        ErrorCode::TemplateNotFound => "template-not-found"@,
        ErrorCode::SpaceRunning => "space-running"@,
        ErrorCode::SpaceStopped => "space-stopped"@,
        ErrorCode::NoBridge => "no-bridge"@,
        ErrorCode::WrongPassphrase => "wrong-passphrase"@,
        ErrorCode::AgentTimeout => "agent-timeout"@,
        ErrorCode::Internal => "internal"@,
    }
}

impl ErrorCode {
    pub fn text(self) -> (r: &'static str)
        ensures
            r@ == code_text(self),
    {
        match self {
            ErrorCode::BadRequest => "bad-request",
            ErrorCode::SpaceExists => "space-exists",
            ErrorCode::SpaceNotFound => "space-not-found",
            ErrorCode::ProfileNotFound => "profile-not-found",
            ErrorCode::TemplateNotFound => "template-not-found",
            ErrorCode::SpaceRunning => "space-running",
            ErrorCode::SpaceStopped => "space-stopped",
            ErrorCode::NoBridge => "no-bridge",
            ErrorCode::WrongPassphrase => "wrong-passphrase",
            ErrorCode::AgentTimeout => "agent-timeout",
            ErrorCode::Internal => "internal",
        }
    }
}

/// Why an operation was not done, in words for the client.
#[derive(Debug, PartialEq, Eq)]
pub struct Refusal {
    pub code: ErrorCode,
    pub message: String,
}

#[verifier::ext_equal]
pub struct RefusalView {
    pub code: ErrorCode,
    pub message: Seq<char>,
}

impl View for Refusal {
    type V = RefusalView;

    open spec fn view(&self) -> RefusalView {
        RefusalView { code: self.code, message: self.message@ }
    }
}

pub open spec fn refusal(code: ErrorCode, message: Seq<char>) -> RefusalView {
    RefusalView { code, message }
}

/// What a client hears of a failure of the daemon itself: nothing of its paths or its state.
pub open spec fn internal() -> RefusalView {
    refusal(ErrorCode::Internal, "внутренняя ошибка демона"@)
}

pub fn refuse(code: ErrorCode, message: String) -> (r: Refusal)
    ensures
        r@ == refusal(code, message@),
{
    Refusal { code, message }
}

pub fn internal_error() -> (r: Refusal)
    ensures
        r@ == internal(),
{
    refuse(ErrorCode::Internal, "внутренняя ошибка демона".to_owned())
}

/// The value of an outcome, or its refusal.
pub open spec fn outcome<T>(r: Result<T, Refusal>) -> Result<T, RefusalView> {
    match r {
        Ok(v) => Ok(v),
        Err(e) => Err(e@),
    }
}

// ---------------------------------------------------------------------------------------------
// Spaces and their states
// ---------------------------------------------------------------------------------------------

pub open spec fn not_found(id: Seq<char>) -> RefusalView {
    refusal(ErrorCode::SpaceNotFound, "спейс \""@ + id + "\" не найден"@)
}

pub fn space_or_not_found(store: &Store, id: &str) -> (r: Result<SpaceConfig, Refusal>)
    ensures
        match (r, space_with_id(store@, id@)) {
            (Ok(c), Some(d)) => c@ == d,
            (Err(e), None) => e@ == not_found(id@),
            _ => false,
        },
{
    match store.get(id) {
        Some(c) => Ok(c.copy()),
        None => Err(
            refuse(
                ErrorCode::SpaceNotFound,
                "спейс \"".to_owned().concat(id).concat("\" не найден"),
            ),
        ),
    }
}

/// A passphrase is owed exactly for an encrypted space.
pub open spec fn passphrase_problem(encrypted: bool, given: bool) -> Option<RefusalView> {
    if encrypted && !given {
        Some(refusal(ErrorCode::BadRequest, "спейсу нужен пароль"@))
    } else if !encrypted && given {
        Some(refusal(ErrorCode::BadRequest, "спейс не зашифрован"@))
    } else {
        None
    }
}

pub fn require_passphrase_matches_encryption(encrypted: bool, passphrase: &Option<String>) -> (r:
    Result<(), Refusal>)
    ensures
        match passphrase_problem(encrypted, passphrase is Some) {
            Some(p) => r matches Err(e) && e@ == p,
            None => r is Ok,
        },
{
    match (encrypted, passphrase.is_some()) {
        (true, false) => Err(refuse(ErrorCode::BadRequest, "спейсу нужен пароль".to_owned())),
        (false, true) => Err(refuse(ErrorCode::BadRequest, "спейс не зашифрован".to_owned())),
        _ => Ok(()),
    }
}

/// Volumes are never replaced under a running machine.
pub open spec fn must_stop_first(id: Seq<char>) -> RefusalView {
    refusal(ErrorCode::SpaceRunning, "спейс \""@ + id + "\" запущен, сначала stop"@)
}

pub fn reject_if_running(id: &str, state: SpaceState) -> (r: Result<(), Refusal>)
    ensures
        r is Ok <==> state != SpaceState::Running,
        r matches Err(e) ==> e@ == must_stop_first(id@),
{
    match state {
        SpaceState::Running => Err(
            refuse(
                ErrorCode::SpaceRunning,
                "спейс \"".to_owned().concat(id).concat("\" запущен, сначала stop"),
            ),
        ),
        _ => Ok(()),
    }
}

pub open spec fn not_running(id: Seq<char>) -> RefusalView {
    refusal(ErrorCode::SpaceStopped, "спейс \""@ + id + "\" не запущен"@)
}

pub fn reject_unless_running(id: &str, state: SpaceState) -> (r: Result<(), Refusal>)
    ensures
        r is Ok <==> state == SpaceState::Running,
        r matches Err(e) ==> e@ == not_running(id@),
{
    match state {
        SpaceState::Running => Ok(()),
        _ => Err(
            refuse(
                ErrorCode::SpaceStopped,
                "спейс \"".to_owned().concat(id).concat("\" не запущен"),
            ),
        ),
    }
}

pub open spec fn state_text(state: SpaceState) -> Seq<char> {
    match state {
        SpaceState::Running => "running"@,
        SpaceState::Stopped => "stopped"@,
        SpaceState::Unresponsive => "unresponsive"@,
    }
}

pub fn state_label(state: SpaceState) -> (r: &'static str)
    ensures
        r@ == state_text(state),
{
    match state {
        SpaceState::Running => "running",
        SpaceState::Stopped => "stopped",
        SpaceState::Unresponsive => "unresponsive",
    }
}

// ---------------------------------------------------------------------------------------------
// Profiles and templates
// ---------------------------------------------------------------------------------------------

/// What the daemon reads of the manifest of a profile.
pub struct Manifest {
    pub description: String,
    pub app_mode: String,
    pub app_command: String,
    pub memory_mb: u32,
    pub cpus: u32,
    pub disk_gb: u32,
    pub data_mb: u32,
    pub isolation_level: String,
    pub isolation_gpu: String,
    pub isolation_reason: String,
    pub network_via: String,
}

impl Manifest {
    /// A manifest that says nothing.
    pub(crate) fn empty() -> (r: Manifest)
        ensures
            r.description@.len() == 0 && r.app_mode@.len() == 0 && r.app_command@.len() == 0,
            r.memory_mb == 0 && r.cpus == 0 && r.disk_gb == 0 && r.data_mb == 0,
            r.isolation_level@.len() == 0 && r.isolation_gpu@.len() == 0,
            r.isolation_reason@.len() == 0 && r.network_via@.len() == 0,
    {
        Manifest {
            description: String::new(),
            app_mode: String::new(),
            app_command: String::new(),
            memory_mb: 0,
            cpus: 0,
            disk_gb: 0,
            data_mb: 0,
            isolation_level: String::new(),
            isolation_gpu: String::new(),
            isolation_reason: String::new(),
            network_via: String::new(),
        }
    }
}

/// What came of reading a manifest.
pub enum ManifestRead {
    Missing,
    Unreadable,
    Found(Manifest),
}

pub open spec fn no_profile(profile: Seq<char>) -> RefusalView {
    refusal(ErrorCode::ProfileNotFound, "профиль \""@ + profile + "\" не найден"@)
}

/// A profile that is not there is told apart from one that cannot be read.
pub fn load_manifest(profile: &str, read: ManifestRead) -> (r: Result<Manifest, Refusal>)
    ensures
        outcome(r) == (match read {
            ManifestRead::Missing => Err(no_profile(profile@)),
            ManifestRead::Unreadable => Err(internal()),
            ManifestRead::Found(m) => Ok(m),
        }),
{
    match read {
        ManifestRead::Missing => Err(
            refuse(
                ErrorCode::ProfileNotFound,
                "профиль \"".to_owned().concat(profile).concat("\" не найден"),
            ),
        ),
        ManifestRead::Unreadable => Err(internal_error()),
        ManifestRead::Found(m) => Ok(m),
    }
}

pub open spec fn manifest_path_of(state_dir: Seq<char>, profile: Seq<char>) -> Seq<char> {
    join_path(join_path(join_path(state_dir, "profiles"@), profile), "manifest.toml"@)
}

pub fn manifest_path(state_dir: &str, profile: &str) -> (r: String)
    ensures
        r@ == manifest_path_of(state_dir@, profile@),
{
    let dir = path_join(state_dir, "profiles");
    let dir = path_join(dir.as_str(), profile);
    path_join(dir.as_str(), "manifest.toml")
}

pub open spec fn templates_dir_of(state_dir: Seq<char>, profile: Seq<char>) -> Seq<char> {
    join_path(join_path(state_dir, "templates"@), profile)
}

pub open spec fn template_dir_of(
    state_dir: Seq<char>,
    profile: Seq<char>,
    digest: Seq<char>,
) -> Seq<char> {
    join_path(templates_dir_of(state_dir, profile), digest)
}

pub fn templates_dir(state_dir: &str, profile: &str) -> (r: String)
    ensures
        r@ == templates_dir_of(state_dir@, profile@),
{
    path_join(path_join(state_dir, "templates").as_str(), profile)
}

pub fn template_dir_path(state_dir: &str, profile: &str, digest: &str) -> (r: String)
    ensures
        r@ == template_dir_of(state_dir@, profile@, digest@),
{
    path_join(templates_dir(state_dir, profile).as_str(), digest)
}

pub open spec fn space_dir_of(state_dir: Seq<char>, id: Seq<char>) -> Seq<char> {
    join_path(join_path(state_dir, "spaces"@), id)
}

pub fn space_dir_path(state_dir: &str, id: &str) -> (r: String)
    ensures
        r@ == space_dir_of(state_dir@, id@),
{
    path_join(path_join(state_dir, "spaces").as_str(), id)
}

/// The files that make a template usable.
pub fn template_files(dir: &str) -> (r: Vec<String>)
    ensures
        texts(r@) == seq![
            join_path(dir@, "root.qcow2"@),
            join_path(dir@, "vmlinuz"@),
            join_path(dir@, "initrd.img"@),
            join_path(dir@, "MANIFEST"@),
        ],
{
    let mut v: Vec<String> = Vec::new();
    assert(texts(v@) =~= seq![]);
    push_text(&mut v, path_join(dir, "root.qcow2").as_str());
    push_text(&mut v, path_join(dir, "vmlinuz").as_str());
    push_text(&mut v, path_join(dir, "initrd.img").as_str());
    push_text(&mut v, path_join(dir, "MANIFEST").as_str());
    v
}

/// A template is complete if every one of its files is there: a flag for each of
/// `template_files`, and all of them set.
pub open spec fn is_complete(present: Seq<bool>) -> bool {
    present.len() == 4 && forall|i: int| 0 <= i < present.len() ==> present[i]
}

pub fn template_dir_is_complete(present: &Vec<bool>) -> (r: bool)
    ensures
        r == is_complete(present@),
{
    if present.len() != 4 {
        return false;
    }
    for i in 0..present.len()
        invariant
            forall|j: int| 0 <= j < i ==> present@[j],
    {
        if !present[i] {
            return false;
        }
    }
    true
}

pub open spec fn no_template(dir: Seq<char>) -> RefusalView {
    refusal(ErrorCode::TemplateNotFound, "шаблон "@ + dir + " отсутствует или неполон"@)
}

pub fn template_missing(dir: &str) -> (r: Refusal)
    ensures
        r@ == no_template(dir@),
{
    refuse(
        ErrorCode::TemplateNotFound,
        "шаблон ".to_owned().concat(dir).concat(" отсутствует или неполон"),
    )
}

/// The names other than `latest`.
pub open spec fn candidates(names: Seq<Seq<char>>) -> Seq<Seq<char>>
    decreases names.len(),
{
    if names.len() == 0 {
        seq![]
    } else if names.last() == "latest"@ {
        candidates(names.drop_last())
    } else {
        candidates(names.drop_last()).push(names.last())
    }
}

/// The name at which the link `latest` points.
pub open spec fn latest_name(target: Option<Seq<char>>) -> Option<Seq<char>> {
    match target {
        Some(t) => file_name(t),
        None => None,
    }
}

/// The digest of the image for a new space: the one that `latest` names, or the only one.
pub open spec fn template_digest(
    state_dir: Seq<char>,
    profile: Seq<char>,
    latest: Option<Seq<char>>,
    dirs: Seq<Seq<char>>,
) -> Result<Seq<char>, RefusalView> {
    match latest_name(latest) {
        Some(name) => Ok(name),
        None => if candidates(dirs).len() == 1 {
            Ok(candidates(dirs)[0])
        } else {
            Err(
                refusal(
                    ErrorCode::TemplateNotFound,
                    "для профиля \""@ + profile + "\" не найден ровно один шаблон в "@
                        + templates_dir_of(state_dir, profile)
                        + "; собери: bash tools/build-profile.sh profiles/"@ + profile,
                ),
            )
        },
    }
}

/// The digest to which an image is updated: the one that `latest` names, and no other.
pub open spec fn latest_digest(
    state_dir: Seq<char>,
    profile: Seq<char>,
    latest: Option<Seq<char>>,
) -> Result<Seq<char>, RefusalView> {
    match latest_name(latest) {
        Some(name) => Ok(name),
        None => Err(
            refusal(
                ErrorCode::TemplateNotFound,
                "для профиля \""@ + profile + "\" нет latest в "@ + templates_dir_of(
                    state_dir,
                    profile,
                ) + "; собери: bash tools/build-profile.sh profiles/"@ + profile,
            ),
        ),
    }
}

pub open spec fn same_text(
    r: Result<String, Refusal>,
    s: Result<Seq<char>, RefusalView>,
) -> bool {
    match (r, s) {
        (Ok(a), Ok(b)) => a@ == b,
        (Err(a), Err(b)) => a@ == b,
        _ => false,
    }
}

fn name_of_latest(latest: Option<&str>) -> (r: Option<String>)
    ensures
        opt_text(r) == latest_name(opt_str(latest)),
{
    match latest {
        Some(t) => path_file_name(t),
        None => None,
    }
}

fn candidates_of(dirs: &Vec<String>) -> (r: Vec<String>)
    ensures
        texts(r@) == candidates(texts(dirs@)),
{
    let ghost all = texts(dirs@);
    let mut out: Vec<String> = Vec::new();
    assert(all.take(0) =~= seq![]);
    assert(texts(out@) =~= seq![]);
    for i in 0..dirs.len()
        invariant
            all == texts(dirs@),
            texts(out@) == candidates(all.take(i as int)),
    {
        assert(all.take(i + 1).drop_last() =~= all.take(i as int));
        assert(all.take(i + 1).last() == dirs@[i as int]@);
        if !str_equal(dirs[i].as_str(), "latest") {
            push_text(&mut out, dirs[i].as_str());
        }
    }
    assert(all.take(dirs@.len() as int) =~= all);
    out
}

/// `latest` is where the link of that name points, if it is a link; `dirs` are the directories
/// beside it.
pub fn resolve_template_digest(
    state_dir: &str,
    profile: &str,
    latest: Option<&str>,
    dirs: &Vec<String>,
) -> (r: Result<String, Refusal>)
    ensures
        same_text(r, template_digest(state_dir@, profile@, opt_str(latest), texts(dirs@))),
{
    match name_of_latest(latest) {
        Some(name) => Ok(name),
        None => {
            let only = candidates_of(dirs);
            assert(texts(only@).len() == only@.len());
            if only.len() == 1 {
                assert(texts(only@)[0] == only@[0]@);
                Ok(only[0].clone())
            } else {
                let dir = templates_dir(state_dir, profile);
                Err(
                    refuse(
                        ErrorCode::TemplateNotFound,
                        "для профиля \"".to_owned().concat(profile).concat(
                            "\" не найден ровно один шаблон в ",
                        ).concat(dir.as_str()).concat(
                            "; собери: bash tools/build-profile.sh profiles/",
                        ).concat(profile),
                    ),
                )
            }
        },
    }
}

pub fn resolve_latest_digest(state_dir: &str, profile: &str, latest: Option<&str>) -> (r: Result<
    String,
    Refusal,
>)
    ensures
        same_text(r, latest_digest(state_dir@, profile@, opt_str(latest))),
{
    match name_of_latest(latest) {
        Some(name) => Ok(name),
        None => {
            let dir = templates_dir(state_dir, profile);
            Err(
                refuse(
                    ErrorCode::TemplateNotFound,
                    "для профиля \"".to_owned().concat(profile).concat("\" нет latest в ").concat(
                        dir.as_str(),
                    ).concat("; собери: bash tools/build-profile.sh profiles/").concat(profile),
                ),
            )
        },
    }
}

// ---------------------------------------------------------------------------------------------
// The accounts under which things run
// ---------------------------------------------------------------------------------------------

/// The number of the group whose members may use the virtual machine device.
pub fn lookup_kvm_gid(group: &str) -> (r: Result<u32, String>)
    ensures
        same_gid(r, group_gid("/etc/group"@, "kvm"@, lines(group@))),
{
    lookup_gid("/etc/group", group, "kvm")
}

/// The builder runs under the account that was configured, or under that of the owner of the
/// profiles.
pub fn resolve_build_uid(configured: Option<u32>, profiles_owner: Option<u32>) -> (r: Result<
    u32,
    Refusal,
>)
    ensures
        outcome(r) == (match (configured, profiles_owner) {
            (Some(uid), _) => Ok(uid),
            (None, Some(uid)) => Ok(uid),
            (None, None) => Err(internal()),
        }),
{
    match configured {
        Some(uid) => Ok(uid),
        None => match profiles_owner {
            Some(uid) => Ok(uid),
            None => Err(internal_error()),
        },
    }
}

/// The primary group of the builder, from the text of the accounts.
pub fn resolve_build_gid(passwd: &str, build_uid: u32) -> (r: Result<u32, Refusal>)
    ensures
        match user_entry("/etc/passwd"@, build_uid, lines(passwd@)) {
            Ok(entry) => r matches Ok(gid) && gid as nat == entry.0,
            Err(_) => r matches Err(e) && e@ == internal(),
        },
{
    match lookup_passwd_entry("/etc/passwd", passwd, build_uid) {
        Ok(entry) => Ok(entry.gid),
        Err(_) => Err(internal_error()),
    }
}

/// The home directory of the builder, from the text of the accounts.
pub fn resolve_build_home(passwd: &str, build_uid: u32) -> (r: Result<String, Refusal>)
    ensures
        match user_entry("/etc/passwd"@, build_uid, lines(passwd@)) {
            Ok(entry) => r matches Ok(home) && home@ == entry.1,
            Err(_) => r matches Err(e) && e@ == internal(),
        },
{
    match lookup_passwd_entry("/etc/passwd", passwd, build_uid) {
        Ok(entry) => Ok(entry.home),
        Err(_) => Err(internal_error()),
    }
}

// ---------------------------------------------------------------------------------------------
// Nonces, secrets, logs
// ---------------------------------------------------------------------------------------------

/// Bytes in hexadecimal notation, two digits each.
pub open spec fn hex_text(bytes: Seq<u8>) -> Seq<char>
    decreases bytes.len(),
{
    if bytes.len() == 0 {
        seq![]
    } else {
        hex_text(bytes.drop_last()) + hex2(bytes.last() as nat)
    }
}

/// The nonce of a boot, from random bytes.
pub fn generate_nonce(random: &Vec<u8>) -> (r: String)
    ensures
        r@ == hex_text(random@),
{
    let mut out = String::new();
    assert(random@.take(0) =~= seq![]);
    for i in 0..random.len()
        invariant
            out@ == hex_text(random@.take(i as int)),
    {
        assert(random@.take(i + 1).drop_last() =~= random@.take(i as int));
        assert(random@.take(i + 1).last() == random@[i as int]);
        out.append(u32_to_hex2(random[i] as u32).as_str());
    }
    assert(random@.take(random@.len() as int) =~= random@);
    out
}

/// The nonce of a running space, from what was read of its file: the text, or the words for
/// why it could not be read. An empty nonce would equal an empty field of any reply.
pub open spec fn nonce_of(read: Result<Seq<char>, Seq<char>>) -> Result<Seq<char>, Seq<char>> {
    match read {
        Err(message) => Err(message),
        Ok(raw) => if trim(raw).len() == 0 {
            Err("nonce спейса пуст"@)
        } else {
            Ok(trim(raw))
        },
    }
}

pub open spec fn text_or_error(read: Result<String, String>) -> Result<Seq<char>, Seq<char>> {
    match read {
        Ok(s) => Ok(s@),
        Err(s) => Err(s@),
    }
}

pub fn read_nonce(read: Result<String, String>) -> (r: Result<String, String>)
    ensures
        text_or_error(r) == nonce_of(text_or_error(read)),
{
    let raw = read?;
    let nonce = str_trim(raw.as_str());
    if nonce.as_str().is_empty() {
        return Err("nonce спейса пуст".to_owned());
    }
    Ok(nonce)
}

/// Secrets lie apart from the state of the spaces: each belongs to the account of its space.
pub open spec fn secrets_dir_of(run_dir: Seq<char>) -> Seq<char> {
    join_path(run_dir, "secrets"@)
}

pub fn secrets_dir(run_dir: &str) -> (r: String)
    ensures
        r@ == secrets_dir_of(run_dir@),
{
    path_join(run_dir, "secrets")
}

pub fn space_secret_dir(run_dir: &str, id: &str) -> (r: String)
    ensures
        r@ == join_path(secrets_dir_of(run_dir@), id@),
{
    path_join(secrets_dir(run_dir).as_str(), id)
}

/// The last five lines of a text.
pub open spec fn tail_text(text: Seq<char>) -> Seq<char> {
    let all = lines(text);
    join(
        if all.len() > 5 {
            all.skip(all.len() - 5)
        } else {
            all
        },
        "\n"@,
    )
}

pub fn tail_of(text: &str) -> (r: String)
    ensures
        r@ == tail_text(text@),
{
    let chars = chars_of(text);
    let rows = chars_lines(&chars);
    let ghost all = char_texts(rows@);
    let from: usize = if rows.len() > 5 {
        rows.len() - 5
    } else {
        0
    };
    let mut kept: Vec<Vec<char>> = Vec::new();
    assert(char_texts(kept@) =~= all.subrange(from as int, from as int));
    for i in from..rows.len()
        invariant
            from <= i <= rows@.len(),
            all == char_texts(rows@),
            char_texts(kept@) == all.subrange(from as int, i as int),
    {
        let row = crate::text::slice_of(&rows[i], 0, rows[i].len());
        assert(row@ =~= rows@[i as int]@);
        let ghost before = char_texts(kept@);
        kept.push(row);
        assert(char_texts(kept@) =~= before.push(row@));
        assert(char_texts(kept@) =~= all.subrange(from as int, i + 1));
    }
    assert(all.subrange(from as int, rows@.len() as int) =~= if all.len() > 5 {
        all.skip(all.len() - 5)
    } else {
        all
    });
    join_chars(&kept, "\n")
}

/// The words by which the machine tells a wrong passphrase from every other early death.
pub open spec fn is_wrong_passphrase(log: Seq<char>) -> bool {
    occurs(log, "Invalid password, cannot unlock any keyslot"@)
}

pub fn qemu_died_of_wrong_passphrase(log_tail: &str) -> (r: bool)
    ensures
        r == is_wrong_passphrase(log_tail@),
{
    str_contains(log_tail, "Invalid password, cannot unlock any keyslot")
}

// ---------------------------------------------------------------------------------------------
// Volumes
// ---------------------------------------------------------------------------------------------

/// The directory whose files go into the data of a new space, and the account that reads them.
pub struct SeedSpec {
    pub dir: String,
    pub build_uid: u32,
    pub build_gid: u32,
}

/// What stands at a path.
#[derive(Debug, Clone, Copy, PartialEq, Eq, Structural)]
pub enum PathKind {
    Missing,
    Directory,
    Other,
}

/// Why a directory cannot seed the data of a space with `data_mb` of it.
pub open spec fn seed_problem(raw: Seq<char>, data_mb: u32, kind: PathKind) -> Option<RefusalView> {
    if data_mb == 0 {
        Some(
            refusal(
                ErrorCode::BadRequest,
                "у профиля data_mb = 0: класть присланные файлы некуда"@,
            ),
        )
    } else if !is_absolute(raw) {
        Some(
            refusal(
                ErrorCode::BadRequest,
                "seed \""@ + raw + "\" должен быть абсолютным путём"@,
            ),
        )
    } else {
        match kind {
            PathKind::Directory => None,
            PathKind::Other => Some(
                refusal(ErrorCode::BadRequest, "seed \""@ + raw + "\" не является каталогом"@),
            ),
            PathKind::Missing => Some(
                refusal(ErrorCode::BadRequest, "seed \""@ + raw + "\" не существует"@),
            ),
        }
    }
}

pub fn validate_seed_dir(raw: &str, data_mb: u32, kind: PathKind) -> (r: Result<String, Refusal>)
    ensures
        match seed_problem(raw@, data_mb, kind) {
            Some(p) => r matches Err(e) && e@ == p,
            None => r matches Ok(dir) && dir@ == raw@,
        },
{
    if data_mb == 0 {
        return Err(
            refuse(
                ErrorCode::BadRequest,
                "у профиля data_mb = 0: класть присланные файлы некуда".to_owned(),
            ),
        );
    }
    let quoted = "seed \"".to_owned().concat(raw);
    if !path_is_absolute(raw) {
        return Err(
            refuse(ErrorCode::BadRequest, quoted.concat("\" должен быть абсолютным путём")),
        );
    }
    match kind {
        PathKind::Directory => Ok(raw.to_owned()),
        PathKind::Other => Err(
            refuse(ErrorCode::BadRequest, quoted.concat("\" не является каталогом")),
        ),
        PathKind::Missing => Err(refuse(ErrorCode::BadRequest, quoted.concat("\" не существует"))),
    }
}

/// The files of the operator are read under the account of the builder, never by root.
pub open spec fn mkfs_args(spec: SeedSpec, raw: Seq<char>) -> Seq<Seq<char>> {
    seq![
        "setpriv"@,
        "--reuid"@,
        dec(spec.build_uid as nat),
        "--regid"@,
        dec(spec.build_gid as nat),
        "--clear-groups"@,
        "--"@,
        "mkfs.ext4"@,
        "-q"@,
        "-d"@,
        spec.dir@,
        raw,
    ]
}

pub fn mkfs_seed_argv(spec: &SeedSpec, raw: &str) -> (r: Vec<String>)
    ensures
        texts(r@) == mkfs_args(*spec, raw@),
{
    let mut a: Vec<String> = Vec::new();
    assert(texts(a@) =~= seq![]);
    push_text(&mut a, "setpriv");
    push_text(&mut a, "--reuid");
    push_text(&mut a, u32_to_string(spec.build_uid).as_str());
    push_text(&mut a, "--regid");
    push_text(&mut a, u32_to_string(spec.build_gid).as_str());
    push_text(&mut a, "--clear-groups");
    push_text(&mut a, "--");
    push_text(&mut a, "mkfs.ext4");
    push_text(&mut a, "-q");
    push_text(&mut a, "-d");
    push_text(&mut a, spec.dir.as_str());
    push_text(&mut a, raw);
    a
}

/// The secret of an image command stands behind its name, before everything that refers to it.
pub open spec fn img_secret_args(secret: Option<Seq<char>>) -> Seq<Seq<char>> {
    match secret {
        Some(path) => seq!["--object"@, "secret,id=sec0,file="@ + path + ",format=raw"@],
        None => seq![],
    }
}

pub open spec fn img_encrypt_args(secret: Option<Seq<char>>) -> Seq<Seq<char>> {
    match secret {
        Some(_) => seq!["-o"@, "encrypt.format=luks,encrypt.key-secret=sec0"@],
        None => seq![],
    }
}

pub open spec fn convert_args(raw: Seq<char>, qcow2: Seq<char>, secret: Option<Seq<char>>) -> Seq<
    Seq<char>,
> {
    seq!["qemu-img"@, "convert"@] + img_secret_args(secret) + seq!["-O"@, "qcow2"@]
        + img_encrypt_args(secret) + seq![raw, qcow2]
}

pub open spec fn overlay_args(
    backing: Seq<char>,
    overlay: Seq<char>,
    secret: Option<Seq<char>>,
) -> Seq<Seq<char>> {
    seq!["qemu-img"@, "create"@] + img_secret_args(secret) + seq![
        "-f"@,
        "qcow2"@,
        "-b"@,
        backing,
        "-F"@,
        "qcow2"@,
    ] + img_encrypt_args(secret) + seq![overlay]
}

pub open spec fn blank_args(path: Seq<char>, size_mb: u32, secret: Option<Seq<char>>) -> Seq<
    Seq<char>,
> {
    seq!["qemu-img"@, "create"@] + img_secret_args(secret) + seq!["-f"@, "qcow2"@]
        + img_encrypt_args(secret) + seq![path, dec(size_mb as nat) + "M"@]
}

fn push_img_secret(a: &mut Vec<String>, secret: Option<&str>)
    ensures
        texts(final(a)@) == texts(old(a)@) + img_secret_args(opt_str(secret)),
{
    match secret {
        Some(path) => {
            push_text(a, "--object");
            push_text(
                a,
                "secret,id=sec0,file=".to_owned().concat(path).concat(",format=raw").as_str(),
            );
        },
        None => {},
    }
    assert(texts(a@) =~= texts(old(a)@) + img_secret_args(opt_str(secret)));
}

fn push_img_encrypt(a: &mut Vec<String>, secret: Option<&str>)
    ensures
        texts(final(a)@) == texts(old(a)@) + img_encrypt_args(opt_str(secret)),
{
    if secret.is_some() {
        push_text(a, "-o");
        push_text(a, "encrypt.format=luks,encrypt.key-secret=sec0");
    }
    assert(texts(a@) =~= texts(old(a)@) + img_encrypt_args(opt_str(secret)));
}

pub fn qemu_img_convert_argv(raw: &str, qcow2: &str, secret: Option<&str>) -> (r: Vec<String>)
    ensures
        texts(r@) == convert_args(raw@, qcow2@, opt_str(secret)),
{
    let mut a: Vec<String> = Vec::new();
    assert(texts(a@) =~= seq![]);
    push_text(&mut a, "qemu-img");
    push_text(&mut a, "convert");
    push_img_secret(&mut a, secret);
    push_text(&mut a, "-O");
    push_text(&mut a, "qcow2");
    push_img_encrypt(&mut a, secret);
    push_text(&mut a, raw);
    push_text(&mut a, qcow2);
    assert(texts(a@) =~= convert_args(raw@, qcow2@, opt_str(secret)));
    a
}

pub fn qemu_img_overlay_argv(backing: &str, overlay: &str, secret: Option<&str>) -> (r: Vec<String>)
    ensures
        texts(r@) == overlay_args(backing@, overlay@, opt_str(secret)),
{
    let mut a: Vec<String> = Vec::new();
    assert(texts(a@) =~= seq![]);
    push_text(&mut a, "qemu-img");
    push_text(&mut a, "create");
    push_img_secret(&mut a, secret);
    push_text(&mut a, "-f");
    push_text(&mut a, "qcow2");
    push_text(&mut a, "-b");
    push_text(&mut a, backing);
    push_text(&mut a, "-F");
    push_text(&mut a, "qcow2");
    push_img_encrypt(&mut a, secret);
    push_text(&mut a, overlay);
    assert(texts(a@) =~= overlay_args(backing@, overlay@, opt_str(secret)));
    a
}

pub fn qemu_img_blank_argv(path: &str, size_mb: u32, secret: Option<&str>) -> (r: Vec<String>)
    ensures
        texts(r@) == blank_args(path@, size_mb, opt_str(secret)),
{
    let mut a: Vec<String> = Vec::new();
    assert(texts(a@) =~= seq![]);
    push_text(&mut a, "qemu-img");
    push_text(&mut a, "create");
    push_img_secret(&mut a, secret);
    push_text(&mut a, "-f");
    push_text(&mut a, "qcow2");
    push_img_encrypt(&mut a, secret);
    push_text(&mut a, path);
    push_text(&mut a, u32_to_string(size_mb).concat("M").as_str());
    assert(texts(a@) =~= blank_args(path@, size_mb, opt_str(secret)));
    a
}

/// One step of the making of volumes, which `VolumeRun` takes.
pub enum VolumeStep {
    /// Runs a command.
    Run(Vec<String>),
    /// Gives a file to the account of the space and closes it to everybody else.
    Own { path: String, uid: u32 },
    /// Makes a directory for the builder that nobody else can enter.
    Stage { dir: String, uid: u32 },
    /// Makes an empty file of that many bytes, owned by the builder.
    Blank { path: String, bytes: u64, uid: u32, gid: u32 },
    /// Removes the directory.
    Unstage { dir: String },
}

#[verifier::ext_equal]
pub enum StepView {
    Run(Seq<Seq<char>>),
    Own { path: Seq<char>, uid: u32 },
    Stage { dir: Seq<char>, uid: u32 },
    Blank { path: Seq<char>, bytes: u64, uid: u32, gid: u32 },
    Unstage { dir: Seq<char> },
}

impl View for VolumeStep {
    type V = StepView;

    open spec fn view(&self) -> StepView {
        match self {
            VolumeStep::Run(argv) => StepView::Run(texts(argv@)),
            VolumeStep::Own { path, uid } => StepView::Own { path: path@, uid: *uid },
            VolumeStep::Stage { dir, uid } => StepView::Stage { dir: dir@, uid: *uid },
            VolumeStep::Blank { path, bytes, uid, gid } => StepView::Blank {
                path: path@,
                bytes: *bytes,
                uid: *uid,
                gid: *gid,
            },
            VolumeStep::Unstage { dir } => StepView::Unstage { dir: dir@ },
        }
    }
}

pub open spec fn step_views(steps: Seq<VolumeStep>) -> Seq<StepView> {
    steps.map_values(|s: VolumeStep| s@)
}

/// The system layer on top of a template.
pub open spec fn overlay_steps(
    template_dir: Seq<char>,
    space_dir: Seq<char>,
    uid: u32,
    secret: Option<Seq<char>>,
) -> Seq<StepView> {
    let overlay = join_path(space_dir, "system-overlay.qcow2"@);
    seq![
        StepView::Run(overlay_args(join_path(template_dir, "root.qcow2"@), overlay, secret)),
        StepView::Own { path: overlay, uid },
    ]
}

/// The data volume with the files of the operator.
pub open spec fn seeded_steps(
    space_dir: Seq<char>,
    data_mb: u32,
    spec: SeedSpec,
    secret: Option<Seq<char>>,
) -> Seq<StepView> {
    let staging = join_path(space_dir, ".seed-staging"@);
    let raw = join_path(staging, "data.raw"@);
    seq![
        StepView::Stage { dir: staging, uid: spec.build_uid },
        StepView::Blank {
            path: raw,
            bytes: (data_mb as int * 1024 * 1024) as u64,
            uid: spec.build_uid,
            gid: spec.build_gid,
        },
        StepView::Run(mkfs_args(spec, raw)),
        StepView::Run(convert_args(raw, join_path(space_dir, "data.qcow2"@), secret)),
        StepView::Unstage { dir: staging },
    ]
}

/// All volumes of a space. The data volume is there only if the profile asks for one.
pub open spec fn volume_steps(
    template_dir: Seq<char>,
    space_dir: Seq<char>,
    uid: u32,
    data_mb: u32,
    seed: Option<SeedSpec>,
    secret: Option<Seq<char>>,
) -> Seq<StepView> {
    let data = join_path(space_dir, "data.qcow2"@);
    overlay_steps(template_dir, space_dir, uid, secret) + (if data_mb > 0 {
        (match seed {
            Some(spec) => seeded_steps(space_dir, data_mb, spec, secret),
            None => seq![StepView::Run(blank_args(data, data_mb, secret))],
        }) + seq![StepView::Own { path: data, uid }]
    } else {
        seq![]
    })
}

fn push_step(steps: &mut Vec<VolumeStep>, s: VolumeStep)
    ensures
        step_views(final(steps)@) == step_views(old(steps)@).push(s@),
{
    steps.push(s);
    assert(step_views(steps@) =~= step_views(old(steps)@).push(s@));
}

/// The steps that make the system layer of a space anew.
pub fn recreate_overlay(template_dir: &str, space_dir: &str, uid: u32, secret: Option<&str>) -> (r:
    Vec<VolumeStep>)
    ensures
        step_views(r@) == overlay_steps(template_dir@, space_dir@, uid, opt_str(secret)),
{
    let overlay = path_join(space_dir, "system-overlay.qcow2");
    let backing = path_join(template_dir, "root.qcow2");
    let mut steps: Vec<VolumeStep> = Vec::new();
    assert(step_views(steps@) =~= seq![]);
    push_step(
        &mut steps,
        VolumeStep::Run(qemu_img_overlay_argv(backing.as_str(), overlay.as_str(), secret)),
    );
    push_step(&mut steps, VolumeStep::Own { path: overlay, uid });
    steps
}

fn push_seeded(
    steps: &mut Vec<VolumeStep>,
    space_dir: &str,
    data: &str,
    data_mb: u32,
    spec: &SeedSpec,
    secret: Option<&str>,
)
    requires
        data@ == join_path(space_dir@, "data.qcow2"@),
    ensures
        step_views(final(steps)@) == step_views(old(steps)@) + seeded_steps(
            space_dir@,
            data_mb,
            *spec,
            opt_str(secret),
        ),
{
    let staging = path_join(space_dir, ".seed-staging");
    let raw = path_join(staging.as_str(), "data.raw");
    let bytes: u64 = data_mb as u64 * 1024 * 1024;
    push_step(steps, VolumeStep::Stage { dir: staging.clone(), uid: spec.build_uid });
    push_step(
        steps,
        VolumeStep::Blank {
            path: raw.clone(),
            bytes,
            uid: spec.build_uid,
            gid: spec.build_gid,
        },
    );
    push_step(steps, VolumeStep::Run(mkfs_seed_argv(spec, raw.as_str())));
    push_step(steps, VolumeStep::Run(qemu_img_convert_argv(raw.as_str(), data, secret)));
    push_step(steps, VolumeStep::Unstage { dir: staging });
    assert(step_views(steps@) =~= step_views(old(steps)@) + seeded_steps(
        space_dir@,
        data_mb,
        *spec,
        opt_str(secret),
    ));
}

pub open spec fn opt_seed(s: Option<&SeedSpec>) -> Option<SeedSpec> {
    match s {
        Some(s) => Some(*s),
        None => None,
    }
}

/// The steps that make the volumes of a space.
pub fn create_volumes(
    template_dir: &str,
    space_dir: &str,
    uid: u32,
    data_mb: u32,
    seed: Option<&SeedSpec>,
    secret: Option<&str>,
) -> (r: Vec<VolumeStep>)
    ensures
        step_views(r@) == volume_steps(
            template_dir@,
            space_dir@,
            uid,
            data_mb,
            opt_seed(seed),
            opt_str(secret),
        ),
{
    let mut steps = recreate_overlay(template_dir, space_dir, uid, secret);
    if data_mb > 0 {
        let data = path_join(space_dir, "data.qcow2");
        match seed {
            Some(spec) => push_seeded(
                &mut steps,
                space_dir,
                data.as_str(),
                data_mb,
                spec,
                secret,
            ),
            None => push_step(
                &mut steps,
                VolumeStep::Run(qemu_img_blank_argv(data.as_str(), data_mb, secret)),
            ),
        }
        push_step(&mut steps, VolumeStep::Own { path: data, uid });
    }
    assert(step_views(steps@) =~= volume_steps(
        template_dir@,
        space_dir@,
        uid,
        data_mb,
        opt_seed(seed),
        opt_str(secret),
    ));
    steps
}

/// The making of volumes: which step comes next. After the first step that fails none is taken,
/// but for the removal of a directory that was made.
pub struct VolumeRun {
    pub steps: Vec<VolumeStep>,
    /// How many steps have been named or passed over. The step before is the last one named.
    pub at: usize,
    pub failed: bool,
    /// A directory was made and is not removed yet.
    pub staged: bool,
}

/// Whether a step is taken.
pub open spec fn is_wanted(step: VolumeStep, failed: bool, staged: bool) -> bool {
    !failed || staged && step is Unstage
}

/// Whether the making has failed, and whether a directory is there, once the outcome of the
/// last step is known. How a removal comes out makes no difference.
pub open spec fn told(run: VolumeRun, ok: bool) -> (bool, bool) {
    if 0 < run.at <= run.steps@.len() {
        let last = run.steps@[run.at - 1];
        (
            run.failed || !ok && !(last is Unstage),
            if last is Unstage {
                false
            } else {
                run.staged || ok && last is Stage
            },
        )
    } else {
        (run.failed, run.staged)
    }
}

/// The first step from `from` on that is wanted.
pub open spec fn is_next(
    steps: Seq<VolumeStep>,
    from: int,
    failed: bool,
    staged: bool,
    next: Option<usize>,
) -> bool {
    match next {
        Some(i) => {
            &&& from <= i < steps.len()
            &&& is_wanted(steps[i as int], failed, staged)
            &&& forall|j: int| from <= j < i ==> !is_wanted(#[trigger] steps[j], failed, staged)
        },
        None => forall|j: int|
            from <= j < steps.len() ==> !is_wanted(#[trigger] steps[j], failed, staged),
    }
}

/// A directory counts as made only where a step made it.
pub open spec fn is_sound_run(run: VolumeRun) -> bool {
    &&& run.at <= run.steps@.len()
    &&& run.staged ==> exists|k: int| 0 <= k < run.at && #[trigger] run.steps@[k] is Stage
}

/// Once a step has failed, the only step that is still taken removes a directory, and only one
/// that an earlier step has made.
pub proof fn a_failure_only_clears_up(run: VolumeRun, ok: bool, next: Option<usize>)
    requires
        is_sound_run(run),
        told(run, ok).0,
        is_next(run.steps@, run.at as int, told(run, ok).0, told(run, ok).1, next),
    ensures
        next matches Some(i) ==> run.steps@[i as int] is Unstage && exists|k: int|
            0 <= k < run.at && #[trigger] run.steps@[k] is Stage,
        told(run, ok).1 && (exists|j: int|
            run.at <= j < run.steps@.len() && #[trigger] run.steps@[j] is Unstage) ==> next is Some,
{
    if next is Some && !run.staged {
        assert(run.steps@[run.at - 1] is Stage);
    }
}

/// As long as nothing fails, the steps are taken in order and none is left out.
pub proof fn every_volume_step_is_taken(run: VolumeRun, ok: bool, next: Option<usize>)
    requires
        is_sound_run(run),
        !told(run, ok).0,
        is_next(run.steps@, run.at as int, told(run, ok).0, told(run, ok).1, next),
    ensures
        next == (if run.at < run.steps@.len() {
            Some(run.at)
        } else {
            None
        }),
{
    if run.at < run.steps@.len() {
        assert(is_wanted(run.steps@[run.at as int], false, told(run, ok).1));
    }
}

impl VolumeRun {
    pub fn new(steps: Vec<VolumeStep>) -> (r: VolumeRun)
        ensures
            r.steps == steps,
            r.at == 0 && !r.failed && !r.staged,
            is_sound_run(r),
    {
        VolumeRun { steps, at: 0, failed: false, staged: false }
    }

    /// The step to take next, once it is known whether the last one came out well. Before the
    /// first step there is nothing to know.
    pub fn next(&mut self, ok: bool) -> (r: Option<usize>)
        requires
            is_sound_run(*old(self)),
        ensures
            is_sound_run(*final(self)),
            final(self).steps == old(self).steps,
            (final(self).failed, final(self).staged) == told(*old(self), ok),
            is_next(
                old(self).steps@,
                old(self).at as int,
                final(self).failed,
                final(self).staged,
                r,
            ),
            final(self).at == (match r {
                Some(i) => i + 1,
                None => old(self).steps@.len() as int,
            }),
    {
        if self.at > 0 {
            match &self.steps[self.at - 1] {
                VolumeStep::Unstage { .. } => {
                    self.staged = false;
                },
                VolumeStep::Stage { .. } => {
                    if ok {
                        assert(self.steps@[self.at - 1] is Stage);
                        self.staged = true;
                    } else {
                        self.failed = true;
                    }
                },
                _ => {
                    if !ok {
                        self.failed = true;
                    }
                },
            }
        }
        let from: usize = self.at;
        let mut i: usize = from;
        while i < self.steps.len()
            invariant
                from == old(self).at,
                from <= i <= self.steps@.len(),
                self.steps == old(self).steps,
                self.at == from,
                (self.failed, self.staged) == told(*old(self), ok),
                is_sound_run(*self),
                forall|j: int|
                    from <= j < i ==> !is_wanted(
                        #[trigger] self.steps@[j],
                        self.failed,
                        self.staged,
                    ),
            decreases self.steps@.len() - i,
        {
            let removal = match &self.steps[i] {
                VolumeStep::Unstage { .. } => true,
                _ => false,
            };
            if !self.failed || self.staged && removal {
                self.at = i + 1;
                return Some(i);
            }
            i = i + 1;
        }
        self.at = i;
        None
    }
}

} // verus!
