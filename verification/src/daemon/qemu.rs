//! The machine of a space: its command line, and how a running one is recognised.
use crate::bytes::{contains_number, contains_text, number_at};
use crate::names::{mac_of, space_mac, space_tap, tap_name};
use crate::paths::{join_path, path_join};
use crate::text::{
    dec, join, join_strings, occurs, parse_dec, push_text, str_equal, str_to_u32, str_trim, texts,
    trim, u32_to_string,
};
use vstd::prelude::*;
use vstd::utf8::encode_utf8;

verus! {

pub struct SpaceRun {
    pub id: String,
    pub cid: u32,
    pub uid: u32,
    pub template_dir: String,
    pub overlay: String,
    pub data: String,
    pub data_mb: u32,
    pub memory_mb: u32,
    pub cpus: u32,
    pub isolation_level: String,
    pub gpu: String,
    pub nonce: String,
    pub app_command: String,
    pub kvm_gid: u32,
}

#[derive(Debug, Clone, Copy, PartialEq, Eq, Structural)]
pub enum SpaceState {
    Stopped,
    Running,
    /// The machine runs but its agent does not answer.
    Unresponsive,
}

// ---------------------------------------------------------------------------------------------
// The command line of the kernel
// ---------------------------------------------------------------------------------------------

pub open spec fn append_words(run: SpaceRun) -> Seq<Seq<char>> {
    seq![
        "console=hvc0"@,
        "root=/dev/vda"@,
        "rw"@,
        "init=/usr/local/bin/miyori-init"@,
        "MIYORI_PORT=1700"@,
        "MIYORI_CID="@ + dec(run.cid as nat),
        "MIYORI_FLOOD_SECONDS=0"@,
        "MIYORI_NETROLE=none"@,
        "MIYORI_PEER_IP="@,
        "MIYORI_HOST_IPS="@,
        "MIYORI_ECHO_URL="@,
        "MIYORI_NONCE="@ + run.nonce@,
        "MIYORI_APP="@ + run.app_command@,
        "MIYORI_APP_AUTOSTART=0"@,
    ]
}

pub open spec fn append_text(run: SpaceRun) -> Seq<char> {
    join(append_words(run), " "@)
}

/// The parameters of the kernel. The daemon starts the application itself, through the agent.
pub fn build_append(run: &SpaceRun) -> (r: String)
    ensures
        r@ == append_text(*run),
{
    let mut w: Vec<String> = Vec::new();
    assert(texts(w@) =~= seq![]);
    push_text(&mut w, "console=hvc0");
    push_text(&mut w, "root=/dev/vda");
    push_text(&mut w, "rw");
    push_text(&mut w, "init=/usr/local/bin/miyori-init");
    push_text(&mut w, "MIYORI_PORT=1700");
    push_text(&mut w, "MIYORI_CID=".to_owned().concat(u32_to_string(run.cid).as_str()).as_str());
    push_text(&mut w, "MIYORI_FLOOD_SECONDS=0");
    push_text(&mut w, "MIYORI_NETROLE=none");
    push_text(&mut w, "MIYORI_PEER_IP=");
    push_text(&mut w, "MIYORI_HOST_IPS=");
    push_text(&mut w, "MIYORI_ECHO_URL=");
    push_text(&mut w, "MIYORI_NONCE=".to_owned().concat(run.nonce.as_str()).as_str());
    push_text(&mut w, "MIYORI_APP=".to_owned().concat(run.app_command.as_str()).as_str());
    push_text(&mut w, "MIYORI_APP_AUTOSTART=0");
    assert(texts(w@) =~= append_words(*run));
    join_strings(&w, " ")
}

// ---------------------------------------------------------------------------------------------
// The command line of the machine
// ---------------------------------------------------------------------------------------------

/// The privileges are dropped first, for good.
pub open spec fn head_args(run: SpaceRun) -> Seq<Seq<char>> {
    seq![
        "setpriv"@,
        "--reuid"@,
        dec(run.uid as nat),
        "--regid"@,
        dec(run.kvm_gid as nat),
        "--clear-groups"@,
        "--no-new-privs"@,
        "--"@,
        "qemu-system-x86_64"@,
        "-M"@,
        "microvm,acpi=off,rtc=off"@,
        "-enable-kvm"@,
        "-cpu"@,
        "host"@,
        "-m"@,
        dec(run.memory_mb as nat),
        "-smp"@,
        dec(run.cpus as nat),
        "-nodefaults"@,
        "-no-user-config"@,
        "-nographic"@,
        "-kernel"@,
        join_path(run.template_dir@, "vmlinuz"@),
        "-initrd"@,
        join_path(run.template_dir@, "initrd.img"@),
        "-append"@,
        append_text(run),
    ]
}

/// The secret of an encrypted space, which the drives refer to.
pub open spec fn secret_args(secret: Option<Seq<char>>) -> Seq<Seq<char>> {
    match secret {
        Some(path) => seq!["-object"@, "secret,id=sec0,file="@ + path + ",format=raw"@],
        None => seq![],
    }
}

pub open spec fn key_suffix(secret: Option<Seq<char>>) -> Seq<char> {
    if secret is Some {
        ",encrypt.key-secret=sec0"@
    } else {
        seq![]
    }
}

pub open spec fn drive_args(name: Seq<char>, file: Seq<char>, secret: Option<Seq<char>>) -> Seq<
    Seq<char>,
> {
    seq![
        "-drive"@,
        "id="@ + name + ",file="@ + file + ",format=qcow2,if=none,readonly=off"@ + key_suffix(
            secret,
        ),
        "-device"@,
        "virtio-blk-device,drive="@ + name,
    ]
}

/// The one network device is the tap of the space.
pub open spec fn device_args(cid: u32) -> Seq<Seq<char>> {
    seq![
        "-device"@,
        "vhost-vsock-device,guest-cid="@ + dec(cid as nat),
        "-netdev"@,
        "tap,id=net0,ifname="@ + tap_name(cid) + ",script=no,downscript=no"@,
        "-device"@,
        "virtio-net-device,netdev=net0,mac="@ + mac_of(cid),
        "-device"@,
        "virtio-serial-device"@,
        "-chardev"@,
        "stdio,id=con"@,
        "-device"@,
        "virtconsole,chardev=con"@,
    ]
}

pub open spec fn has_gpu(run: SpaceRun) -> bool {
    run.gpu@ == "virtio-gpu-venus"@
}

pub open spec fn gpu_args(memory_mb: u32) -> Seq<Seq<char>> {
    seq![
        "-device"@,
        "virtio-gpu-gl-device,hostmem=256M,blob=true,venus=true"@,
        "-object"@,
        "memory-backend-memfd,id=mem,size="@ + dec(memory_mb as nat) + "M,share=on"@,
        "-machine"@,
        "memory-backend=mem"@,
    ]
}

/// The command line without graphics. The system disk is the layer of the space, never the
/// template; the data disk is there only if the profile asks for one.
pub open spec fn plain_argv(run: SpaceRun, secret: Option<Seq<char>>) -> Seq<Seq<char>> {
    head_args(run) + secret_args(secret) + drive_args("root"@, run.overlay@, secret) + (
    if run.data_mb > 0 {
        drive_args("data"@, run.data@, secret)
    } else {
        seq![]
    }) + device_args(run.cid)
}

pub open spec fn machine_argv(run: SpaceRun, secret: Option<Seq<char>>) -> Seq<Seq<char>> {
    plain_argv(run, secret) + (if has_gpu(run) {
        gpu_args(run.memory_mb)
    } else {
        seq![]
    })
}

fn push_head(a: &mut Vec<String>, run: &SpaceRun)
    requires
        old(a)@.len() == 0,
    ensures
        texts(final(a)@) == head_args(*run),
{
    assert(texts(a@) =~= seq![]);
    push_text(a, "setpriv");
    push_text(a, "--reuid");
    push_text(a, u32_to_string(run.uid).as_str());
    push_text(a, "--regid");
    push_text(a, u32_to_string(run.kvm_gid).as_str());
    push_text(a, "--clear-groups");
    push_text(a, "--no-new-privs");
    push_text(a, "--");
    push_text(a, "qemu-system-x86_64");
    push_text(a, "-M");
    push_text(a, "microvm,acpi=off,rtc=off");
    push_text(a, "-enable-kvm");
    push_text(a, "-cpu");
    push_text(a, "host");
    push_text(a, "-m");
    push_text(a, u32_to_string(run.memory_mb).as_str());
    push_text(a, "-smp");
    push_text(a, u32_to_string(run.cpus).as_str());
    push_text(a, "-nodefaults");
    push_text(a, "-no-user-config");
    push_text(a, "-nographic");
    push_text(a, "-kernel");
    push_text(a, path_join(run.template_dir.as_str(), "vmlinuz").as_str());
    push_text(a, "-initrd");
    push_text(a, path_join(run.template_dir.as_str(), "initrd.img").as_str());
    push_text(a, "-append");
    push_text(a, build_append(run).as_str());
}

fn push_drive(a: &mut Vec<String>, name: &str, file: &str, encrypted: bool, secret: Ghost<
    Option<Seq<char>>,
>)
    requires
        encrypted == (secret@ is Some),
    ensures
        texts(final(a)@) == texts(old(a)@) + drive_args(name@, file@, secret@),
{
    let suffix = if encrypted {
        ",encrypt.key-secret=sec0".to_owned()
    } else {
        String::new()
    };
    push_text(a, "-drive");
    push_text(
        a,
        "id=".to_owned().concat(name).concat(",file=").concat(file).concat(
            ",format=qcow2,if=none,readonly=off",
        ).concat(suffix.as_str()).as_str(),
    );
    push_text(a, "-device");
    push_text(a, "virtio-blk-device,drive=".to_owned().concat(name).as_str());
    assert(texts(a@) =~= texts(old(a)@) + drive_args(name@, file@, secret@));
}

fn push_devices(a: &mut Vec<String>, cid: u32)
    ensures
        texts(final(a)@) == texts(old(a)@) + device_args(cid),
{
    push_text(a, "-device");
    push_text(
        a,
        "vhost-vsock-device,guest-cid=".to_owned().concat(u32_to_string(cid).as_str()).as_str(),
    );
    push_text(a, "-netdev");
    push_text(
        a,
        "tap,id=net0,ifname=".to_owned().concat(space_tap(cid).as_str()).concat(
            ",script=no,downscript=no",
        ).as_str(),
    );
    push_text(a, "-device");
    push_text(
        a,
        "virtio-net-device,netdev=net0,mac=".to_owned().concat(space_mac(cid).as_str()).as_str(),
    );
    push_text(a, "-device");
    push_text(a, "virtio-serial-device");
    push_text(a, "-chardev");
    push_text(a, "stdio,id=con");
    push_text(a, "-device");
    push_text(a, "virtconsole,chardev=con");
    assert(texts(a@) =~= texts(old(a)@) + device_args(cid));
}

fn push_gpu(a: &mut Vec<String>, memory_mb: u32)
    ensures
        texts(final(a)@) == texts(old(a)@) + gpu_args(memory_mb),
{
    push_text(a, "-device");
    push_text(a, "virtio-gpu-gl-device,hostmem=256M,blob=true,venus=true");
    push_text(a, "-object");
    push_text(
        a,
        "memory-backend-memfd,id=mem,size=".to_owned().concat(
            u32_to_string(memory_mb).as_str(),
        ).concat("M,share=on").as_str(),
    );
    push_text(a, "-machine");
    push_text(a, "memory-backend=mem");
    assert(texts(a@) =~= texts(old(a)@) + gpu_args(memory_mb));
}

pub open spec fn opt_str(s: Option<&str>) -> Option<Seq<char>> {
    match s {
        Some(s) => Some(s@),
        None => None,
    }
}

/// The command that runs the machine of a space. `secret_file` is the file of its passphrase,
/// if it is encrypted.
pub fn build_argv(run: &SpaceRun, secret_file: Option<&str>) -> (r: Vec<String>)
    ensures
        texts(r@) == machine_argv(*run, opt_str(secret_file)),
{
    let ghost secret = opt_str(secret_file);
    let mut a: Vec<String> = Vec::new();
    push_head(&mut a, run);
    match secret_file {
        Some(path) => {
            push_text(&mut a, "-object");
            push_text(
                &mut a,
                "secret,id=sec0,file=".to_owned().concat(path).concat(",format=raw").as_str(),
            );
        },
        None => {},
    }
    assert(texts(a@) =~= head_args(*run) + secret_args(secret));
    push_drive(&mut a, "root", run.overlay.as_str(), secret_file.is_some(), Ghost(secret));
    if run.data_mb > 0 {
        push_drive(&mut a, "data", run.data.as_str(), secret_file.is_some(), Ghost(secret));
    }
    push_devices(&mut a, run.cid);
    assert(texts(a@) =~= plain_argv(*run, secret));
    if str_equal(run.gpu.as_str(), "virtio-gpu-venus") {
        push_gpu(&mut a, run.memory_mb);
    }
    assert(texts(a@) =~= machine_argv(*run, secret));
    a
}

/// Graphics only add arguments at the end: nothing of the rest changes with them.
pub proof fn graphics_only_add(run: SpaceRun, secret: Option<Seq<char>>)
    ensures
        machine_argv(run, secret).take(plain_argv(run, secret).len() as int) == plain_argv(
            run,
            secret,
        ),
        !has_gpu(run) ==> machine_argv(run, secret) == plain_argv(run, secret),
{
    assert(machine_argv(run, secret).take(plain_argv(run, secret).len() as int) =~= plain_argv(
        run,
        secret,
    ));
    assert(!has_gpu(run) ==> machine_argv(run, secret) =~= plain_argv(run, secret));
}

/// Whatever the space, the machine starts under the account of the space, with privileges that
/// nothing gives back.
pub proof fn privileges_are_dropped_first(run: SpaceRun, secret: Option<Seq<char>>)
    ensures
        machine_argv(run, secret).take(9) == seq![
            "setpriv"@,
            "--reuid"@,
            dec(run.uid as nat),
            "--regid"@,
            dec(run.kvm_gid as nat),
            "--clear-groups"@,
            "--no-new-privs"@,
            "--"@,
            "qemu-system-x86_64"@,
        ],
{
    assert(machine_argv(run, secret).take(9) =~= head_args(run).take(9));
    assert(head_args(run).take(9) =~= seq![
        "setpriv"@,
        "--reuid"@,
        dec(run.uid as nat),
        "--regid"@,
        dec(run.kvm_gid as nat),
        "--clear-groups"@,
        "--no-new-privs"@,
        "--"@,
        "qemu-system-x86_64"@,
    ]);
}

/// The secret of an encrypted space stands before the drives, and every drive names it.
pub proof fn the_secret_precedes_the_drives(run: SpaceRun, path: Seq<char>)
    ensures
        ({
            let a = machine_argv(run, Some(path));
            let n = head_args(run).len() as int;
            &&& a[n] == "-object"@
            &&& a[n + 1] == "secret,id=sec0,file="@ + path + ",format=raw"@
            &&& a[n + 2] == "-drive"@
            &&& a[n + 3] == "id="@ + "root"@ + ",file="@ + run.overlay@
                + ",format=qcow2,if=none,readonly=off"@ + ",encrypt.key-secret=sec0"@
            &&& run.data_mb > 0 ==> a[n + 6] == "-drive"@ && a[n + 7] == "id="@ + "data"@
                + ",file="@ + run.data@ + ",format=qcow2,if=none,readonly=off"@
                + ",encrypt.key-secret=sec0"@
        }),
{
}

// ---------------------------------------------------------------------------------------------
// Recognising a running machine
// ---------------------------------------------------------------------------------------------

/// Process numbers are used again, so a number alone proves nothing: the command line has to
/// be that of the machine of the space, with its context id and not one that only starts alike.
pub open spec fn is_machine_of(cmdline: Seq<u8>, cid: u32) -> bool {
    &&& occurs(cmdline, encode_utf8("qemu-system-x86_64"@))
    &&& exists|at: int| number_at(cmdline, encode_utf8("guest-cid="@ + dec(cid as nat)), at)
}

pub fn cmdline_identifies_space(cmdline: &Vec<u8>, cid: u32) -> (r: bool)
    ensures
        r == is_machine_of(cmdline@, cid),
{
    proof {
        reveal_strlit("qemu-system-x86_64");
    }
    let needle = "guest-cid=".to_owned().concat(u32_to_string(cid).as_str());
    contains_text(cmdline, "qemu-system-x86_64") && contains_number(cmdline, needle.as_str())
}

/// The process number in the text of a pid file.
pub open spec fn pid_in(raw: Seq<char>) -> Option<nat> {
    parse_dec(trim(raw), u32::MAX as nat)
}

pub fn parse_pid(raw: &str) -> (r: Option<u32>)
    ensures
        match (r, pid_in(raw@)) {
            (Some(a), Some(b)) => a as nat == b,
            (None, None) => true,
            _ => false,
        },
{
    str_to_u32(str_trim(raw).as_str())
}

/// The process of the machine of a space, from the text of its pid file and the command line
/// of the process with that number.
pub fn pid_of(pid_file: Option<&str>, cmdline: &Vec<u8>, cid: u32) -> (r: Option<u32>)
    ensures
        match r {
            Some(pid) => {
                &&& pid_file matches Some(raw) && pid_in(raw@) == Some(pid as nat)
                &&& is_machine_of(cmdline@, cid)
            },
            None => {
                ||| pid_file is None
                ||| pid_file matches Some(raw) && pid_in(raw@) is None
                ||| !is_machine_of(cmdline@, cid)
            },
        },
{
    match pid_file {
        Some(raw) => match parse_pid(raw) {
            Some(pid) => if cmdline_identifies_space(cmdline, cid) {
                Some(pid)
            } else {
                None
            },
            None => None,
        },
        None => None,
    }
}

/// Whether the machine of a space runs.
pub fn state_of(pid_file: Option<&str>, cmdline: &Vec<u8>, cid: u32) -> (r: SpaceState)
    ensures
        r == (if (pid_file matches Some(raw) && pid_in(raw@) is Some) && is_machine_of(
            cmdline@,
            cid,
        ) {
            SpaceState::Running
        } else {
            SpaceState::Stopped
        }),
{
    match pid_of(pid_file, cmdline, cid) {
        Some(_) => SpaceState::Running,
        None => SpaceState::Stopped,
    }
}

} // verus!
