//! What holds of the command line of a machine as a whole.
use crate::daemon::qemu::{
    append_text, append_words, device_args, drive_args, gpu_args, has_gpu, head_args, machine_argv,
    secret_args, SpaceRun,
};
use crate::names::{mac_of, tap_name};
use crate::paths::join_path;
use crate::text::{dec, is_digit, lemma_dec_is_decimal};
use vstd::prelude::*;

verus! {

/// A value stands right behind a flag.
pub open spec fn is_passed(args: Seq<Seq<char>>, flag: Seq<char>, value: Seq<char>) -> bool {
    exists|i: int|
        0 <= i && i + 1 < args.len() && #[trigger] args[i] == flag && args[i + 1] == value
}

/// A flag is given, and wherever it stands this value stands behind it.
pub open spec fn is_set_to(args: Seq<Seq<char>>, flag: Seq<char>, value: Seq<char>) -> bool {
    &&& is_passed(args, flag, value)
    &&& forall|i: int|
        0 <= i < args.len() && #[trigger] args[i] == flag ==> i + 1 < args.len() && args[i + 1]
            == value
}

/// What tells the flags apart.
spec fn mark(s: Seq<char>) -> (nat, char, char, char) {
    (s.len(), s[0], s[1], s.last())
}

proof fn lemma_marks()
    ensures
        mark("-M"@).0 == 2 && mark("-M"@).1 == '-' && mark("-M"@).2 == 'M',
        mark("-m"@).0 == 2 && mark("-m"@).1 == '-' && mark("-m"@).2 == 'm',
        mark("-cpu"@) == (4nat, '-', 'c', 'u'),
        mark("-smp"@) == (4nat, '-', 's', 'p'),
        mark("-kernel"@) == (7nat, '-', 'k', 'l'),
        mark("-initrd"@) == (7nat, '-', 'i', 'd'),
        mark("-append"@) == (7nat, '-', 'a', 'd'),
        mark("-netdev"@) == (7nat, '-', 'n', 'v'),
        mark("-drive"@) == (6nat, '-', 'd', 'e'),
        mark("-device"@) == (7nat, '-', 'd', 'e'),
        mark("-chardev"@) == (8nat, '-', 'c', 'v'),
        mark("-object"@) == (7nat, '-', 'o', 't'),
        mark("-machine"@) == (8nat, '-', 'm', 'e'),
        mark("-enable-kvm"@).0 == 11,
        mark("-nodefaults"@).0 == 11,
        mark("-no-user-config"@).0 == 15,
        mark("-nographic"@).0 == 10,
        mark("--"@).2 == '-',
        mark("--reuid"@).2 == '-',
        mark("--regid"@).2 == '-',
        mark("--clear-groups"@).2 == '-',
        mark("--no-new-privs"@).2 == '-',
        mark("setpriv"@).1 == 's',
        mark("qemu-system-x86_64"@).1 == 'q',
        mark("microvm,acpi=off,rtc=off"@).1 == 'm',
        mark("host"@).1 == 'h',
{
    reveal_strlit("-M");
    reveal_strlit("-m");
    reveal_strlit("-cpu");
    reveal_strlit("-smp");
    reveal_strlit("-kernel");
    reveal_strlit("-initrd");
    reveal_strlit("-append");
    reveal_strlit("-netdev");
    reveal_strlit("-drive");
    reveal_strlit("-device");
    reveal_strlit("-chardev");
    reveal_strlit("-object");
    reveal_strlit("-machine");
    reveal_strlit("-enable-kvm");
    reveal_strlit("-nodefaults");
    reveal_strlit("-no-user-config");
    reveal_strlit("-nographic");
    reveal_strlit("--");
    reveal_strlit("--reuid");
    reveal_strlit("--regid");
    reveal_strlit("--clear-groups");
    reveal_strlit("--no-new-privs");
    reveal_strlit("setpriv");
    reveal_strlit("qemu-system-x86_64");
    reveal_strlit("microvm,acpi=off,rtc=off");
    reveal_strlit("host");
}

/// What is known of the start and the end of the argument at a place of the head.
spec fn is_marked(s: Seq<char>, i: int) -> bool {
    if i == 9 {
        s == "-M"@
    } else if i == 12 {
        s == "-cpu"@
    } else if i == 14 {
        s == "-m"@
    } else if i == 16 {
        s == "-smp"@
    } else if i == 21 {
        s == "-kernel"@
    } else if i == 23 {
        s == "-initrd"@
    } else if i == 25 {
        s == "-append"@
    } else {
        ||| mark(s).1 != '-'
        ||| mark(s).2 == '-'
        ||| mark(s).0 >= 10
        ||| mark(s).3 == 'z'
        ||| mark(s).3 == 'g'
    }
}

/// What ends in the name of a file ends as the name does.
proof fn lemma_joined_end(base: Seq<char>, name: Seq<char>)
    requires
        name.len() > 0,
    ensures
        join_path(base, name).len() > 0,
        join_path(base, name).last() == name.last(),
{
}

proof fn lemma_append_start(run: SpaceRun)
    ensures
        append_text(run).len() > 0,
        append_text(run)[0] == 'c',
{
    reveal_strlit("console=hvc0");
    reveal_strlit(" ");
    let ws = append_words(run);
    lemma_join_start(ws, " "@);
    assert(ws[0] == "console=hvc0"@);
}

proof fn lemma_join_start(ws: Seq<Seq<char>>, sep: Seq<char>)
    requires
        ws.len() > 0,
        ws[0].len() > 0,
    ensures
        crate::text::join(ws, sep).len() > 0,
        crate::text::join(ws, sep)[0] == ws[0][0],
    decreases ws.len(),
{
    if ws.len() > 1 {
        lemma_join_start(ws.drop_last(), sep);
        assert(ws.drop_last()[0] == ws[0]);
    }
}

/// The flags that stand in the head of a command line, each at one place.
proof fn lemma_head_flags(run: SpaceRun)
    ensures
        head_args(run).len() == 27,
        forall|i: int| 0 <= i < 27 && #[trigger] head_args(run)[i] == "-M"@ ==> i == 9,
        forall|i: int| 0 <= i < 27 && #[trigger] head_args(run)[i] == "-cpu"@ ==> i == 12,
        forall|i: int| 0 <= i < 27 && #[trigger] head_args(run)[i] == "-m"@ ==> i == 14,
        forall|i: int| 0 <= i < 27 && #[trigger] head_args(run)[i] == "-smp"@ ==> i == 16,
        forall|i: int| 0 <= i < 27 && #[trigger] head_args(run)[i] == "-kernel"@ ==> i == 21,
        forall|i: int| 0 <= i < 27 && #[trigger] head_args(run)[i] == "-initrd"@ ==> i == 23,
        forall|i: int| 0 <= i < 27 && #[trigger] head_args(run)[i] == "-append"@ ==> i == 25,
        forall|i: int|
            0 <= i < 27 ==> #[trigger] head_args(run)[i] != "-netdev"@ && head_args(run)[i]
                != "-chardev"@ && head_args(run)[i] != "-drive"@,
{
    lemma_marks();
    lemma_append_start(run);
    reveal_strlit("vmlinuz");
    reveal_strlit("initrd.img");
    lemma_joined_end(run.template_dir@, "vmlinuz"@);
    lemma_joined_end(run.template_dir@, "initrd.img"@);
    lemma_dec_is_decimal(run.uid as nat);
    lemma_dec_is_decimal(run.kvm_gid as nat);
    lemma_dec_is_decimal(run.memory_mb as nat);
    lemma_dec_is_decimal(run.cpus as nat);
    assert(is_digit(dec(run.uid as nat)[0]));
    assert(is_digit(dec(run.kvm_gid as nat)[0]));
    assert(is_digit(dec(run.memory_mb as nat)[0]));
    assert(is_digit(dec(run.cpus as nat)[0]));
    let h = head_args(run);
    assert forall|i: int| 0 <= i < 27 implies is_marked(#[trigger] h[i], i) by {
        assert(mark(h[i]) == mark(h[i]));
    }
}

/// No argument of a part is one of the flags of the head.
spec fn has_no_head_flag(part: Seq<Seq<char>>) -> bool {
    forall|j: int|
        0 <= j < part.len() ==> #[trigger] part[j] != "-M"@ && part[j] != "-cpu"@ && part[j]
            != "-m"@ && part[j] != "-smp"@ && part[j] != "-kernel"@ && part[j] != "-initrd"@
            && part[j] != "-append"@
}

/// The parts behind the head.
spec fn rest_args(run: SpaceRun, secret: Option<Seq<char>>) -> Seq<Seq<char>> {
    secret_args(secret) + drive_args("root"@, run.overlay@, secret) + (if run.data_mb > 0 {
        drive_args("data"@, run.data@, secret)
    } else {
        seq![]
    }) + device_args(run.cid) + (if has_gpu(run) {
        gpu_args(run.memory_mb)
    } else {
        seq![]
    })
}

proof fn lemma_parts(run: SpaceRun, secret: Option<Seq<char>>)
    ensures
        machine_argv(run, secret) == head_args(run) + rest_args(run, secret),
        has_no_head_flag(rest_args(run, secret)),
{
    assert(machine_argv(run, secret) =~= head_args(run) + rest_args(run, secret));
    lemma_marks();
    reveal_strlit("secret,id=sec0,file=");
    reveal_strlit("id=");
    reveal_strlit("virtio-blk-device,drive=");
    reveal_strlit("vhost-vsock-device,guest-cid=");
    reveal_strlit("tap,id=net0,ifname=");
    reveal_strlit("virtio-net-device,netdev=net0,mac=");
    reveal_strlit("virtio-serial-device");
    reveal_strlit("stdio,id=con");
    reveal_strlit("virtconsole,chardev=con");
    reveal_strlit("virtio-gpu-gl-device,hostmem=256M,blob=true,venus=true");
    reveal_strlit("memory-backend-memfd,id=mem,size=");
    reveal_strlit("memory-backend=mem");
    assert forall|j: int| 0 <= j < secret_args(secret).len() implies is_other(
        #[trigger] secret_args(secret)[j],
    ) by {}
    let a = drive_args("root"@, run.overlay@, secret);
    assert forall|j: int| 0 <= j < a.len() implies is_other(#[trigger] a[j]) by {}
    let b = drive_args("data"@, run.data@, secret);
    assert forall|j: int| 0 <= j < b.len() implies is_other(#[trigger] b[j]) by {}
    let d = device_args(run.cid);
    assert forall|j: int| 0 <= j < d.len() implies is_other(#[trigger] d[j]) by {}
    let g = gpu_args(run.memory_mb);
    assert forall|j: int| 0 <= j < g.len() implies is_other(#[trigger] g[j]) by {}
    let rest = rest_args(run, secret);
    assert forall|j: int| 0 <= j < rest.len() implies is_other(#[trigger] rest[j]) by {}
}

/// No flag of the head.
spec fn is_other(s: Seq<char>) -> bool {
    ||| mark(s).1 != '-'
    ||| s == "-drive"@
    ||| s == "-device"@
    ||| s == "-netdev"@
    ||| s == "-chardev"@
    ||| s == "-object"@
    ||| s == "-machine"@
}

/// Where the devices start.
spec fn devices_at(run: SpaceRun, secret: Option<Seq<char>>) -> int {
    27 + secret_args(secret).len() + 4 + (if run.data_mb > 0 {
        4int
    } else {
        0
    })
}

/// A flag of the head with one place has one value.
proof fn lemma_set_in_head(run: SpaceRun, secret: Option<Seq<char>>, flag: Seq<char>, at: int)
    requires
        0 <= at < 26,
        head_args(run)[at] == flag,
        forall|i: int| 0 <= i < 27 && #[trigger] head_args(run)[i] == flag ==> i == at,
        forall|j: int|
            0 <= j < rest_args(run, secret).len() ==> #[trigger] rest_args(run, secret)[j] != flag,
    ensures
        is_set_to(machine_argv(run, secret), flag, head_args(run)[at + 1]),
{
    lemma_parts(run, secret);
    lemma_head_flags(run);
    let a = machine_argv(run, secret);
    let h = head_args(run);
    let rest = rest_args(run, secret);
    assert(a[at] == h[at] && a[at + 1] == h[at + 1]);
    assert forall|i: int| 0 <= i < a.len() && #[trigger] a[i] == flag implies i == at by {
        if i < 27 {
            assert(h[i] == flag);
        } else {
            assert(rest[i - 27] == flag);
        }
    }
}

/// A machine boots the kernel and the initial file system of the image of its space, and has the
/// memory and the processors that were asked for, on the processor of the host.
pub proof fn the_machine_boots_the_image_of_its_space(run: SpaceRun, secret: Option<Seq<char>>)
    ensures
        is_set_to(
            machine_argv(run, secret),
            "-kernel"@,
            join_path(run.template_dir@, "vmlinuz"@),
        ),
        is_set_to(
            machine_argv(run, secret),
            "-initrd"@,
            join_path(run.template_dir@, "initrd.img"@),
        ),
        is_set_to(machine_argv(run, secret), "-append"@, append_text(run)),
        is_set_to(machine_argv(run, secret), "-m"@, dec(run.memory_mb as nat)),
        is_set_to(machine_argv(run, secret), "-smp"@, dec(run.cpus as nat)),
        is_set_to(machine_argv(run, secret), "-cpu"@, "host"@),
        is_set_to(machine_argv(run, secret), "-M"@, "microvm,acpi=off,rtc=off"@),
        machine_argv(run, secret).contains("-enable-kvm"@),
        machine_argv(run, secret).contains("-nographic"@),
        machine_argv(run, secret).contains("-nodefaults"@),
        machine_argv(run, secret).contains("-no-user-config"@),
{
    lemma_parts(run, secret);
    lemma_head_flags(run);
    lemma_set_in_head(run, secret, "-M"@, 9);
    lemma_set_in_head(run, secret, "-cpu"@, 12);
    lemma_set_in_head(run, secret, "-m"@, 14);
    lemma_set_in_head(run, secret, "-smp"@, 16);
    lemma_set_in_head(run, secret, "-kernel"@, 21);
    lemma_set_in_head(run, secret, "-initrd"@, 23);
    lemma_set_in_head(run, secret, "-append"@, 25);
    let a = machine_argv(run, secret);
    assert(a[11] == "-enable-kvm"@);
    assert(a[18] == "-nodefaults"@);
    assert(a[19] == "-no-user-config"@);
    assert(a[20] == "-nographic"@);
}

/// A machine has one network device, whose other end is the tap of the space, a socket address that
/// is its context id, and a console; what a device refers to by a name was given that name.
pub proof fn the_devices_are_those_of_the_space(run: SpaceRun, secret: Option<Seq<char>>)
    ensures
        ({
            let a = machine_argv(run, secret);
            &&& is_passed(a, "-device"@, "vhost-vsock-device,guest-cid="@ + dec(run.cid as nat))
            &&& is_set_to(
                a,
                "-netdev"@,
                "tap,id=net0,ifname="@ + tap_name(run.cid) + ",script=no,downscript=no"@,
            )
            &&& is_passed(a, "-device"@, "virtio-net-device,netdev=net0,mac="@ + mac_of(run.cid))
            &&& is_passed(a, "-device"@, "virtio-serial-device"@)
            &&& is_set_to(a, "-chardev"@, "stdio,id=con"@)
            &&& is_passed(a, "-device"@, "virtconsole,chardev=con"@)
        }),
{
    lemma_parts(run, secret);
    lemma_head_flags(run);
    lemma_marks();
    lemma_devices(run, secret);
    let a = machine_argv(run, secret);
    let n = devices_at(run, secret);
    let d = device_args(run.cid);
    assert forall|k: int| 0 <= k < 12 implies a[n + k] == #[trigger] d[k] by {}
    assert(d[0] == "-device"@ && a[n + 0] == d[0] && a[n + 0 + 1] == d[1]);
    assert(a[n + 2] == d[2] && a[n + 2 + 1] == d[3]);
    assert(a[n + 4] == d[4] && a[n + 4 + 1] == d[5]);
    assert(a[n + 6] == d[6] && a[n + 6 + 1] == d[7]);
    assert(a[n + 8] == d[8] && a[n + 8 + 1] == d[9]);
    assert(a[n + 10] == d[10] && a[n + 10 + 1] == d[11]);
}

/// The two flags that stand among the devices alone.
proof fn lemma_devices(run: SpaceRun, secret: Option<Seq<char>>)
    ensures
        forall|i: int|
            0 <= i < machine_argv(run, secret).len() && #[trigger] machine_argv(run, secret)[i]
                == "-netdev"@ ==> i == devices_at(run, secret) + 2,
        forall|i: int|
            0 <= i < machine_argv(run, secret).len() && #[trigger] machine_argv(run, secret)[i]
                == "-chardev"@ ==> i == devices_at(run, secret) + 8,
{
    lemma_parts(run, secret);
    lemma_head_flags(run);
    lemma_marks();
    reveal_strlit("secret,id=sec0,file=");
    reveal_strlit("id=");
    reveal_strlit("virtio-blk-device,drive=");
    reveal_strlit("vhost-vsock-device,guest-cid=");
    reveal_strlit("tap,id=net0,ifname=");
    reveal_strlit("virtio-net-device,netdev=net0,mac=");
    reveal_strlit("virtio-serial-device");
    reveal_strlit("stdio,id=con");
    reveal_strlit("virtconsole,chardev=con");
    reveal_strlit("virtio-gpu-gl-device,hostmem=256M,blob=true,venus=true");
    reveal_strlit("memory-backend-memfd,id=mem,size=");
    reveal_strlit("memory-backend=mem");
    let a = machine_argv(run, secret);
    let h = head_args(run);
    let s = secret_args(secret);
    let r = drive_args("root"@, run.overlay@, secret);
    let b = drive_args("data"@, run.data@, secret);
    let d = device_args(run.cid);
    let g = gpu_args(run.memory_mb);
    let n = devices_at(run, secret);
    assert forall|j: int| 0 <= j < s.len() implies is_neither(#[trigger] s[j]) by {}
    assert forall|j: int| 0 <= j < 4 implies is_neither(#[trigger] r[j]) by {}
    assert forall|j: int| 0 <= j < 4 implies is_neither(#[trigger] b[j]) by {}
    assert forall|j: int| 0 <= j < 12 && j != 2 && j != 8 implies is_neither(#[trigger] d[j]) by {}
    assert forall|j: int| 0 <= j < 6 implies is_neither(#[trigger] g[j]) by {}
    assert forall|i: int| 0 <= i < a.len() && i != n + 2 && i != n + 8 implies is_neither(
        #[trigger] a[i],
    ) by {
        if i < 27 {
            assert(a[i] == h[i]);
        } else if i < 27 + s.len() {
            assert(a[i] == s[i - 27]);
        } else if i < 27 + s.len() + 4 {
            assert(a[i] == r[i - 27 - s.len()]);
        } else if i < n {
            assert(a[i] == b[i - 27 - s.len() - 4]);
        } else if i < n + 12 {
            assert(a[i] == d[i - n]);
        } else {
            assert(a[i] == g[i - n - 12]);
        }
    }
    assert(a[n + 2] == d[2]);
    assert(a[n + 8] == d[8]);
}

spec fn is_neither(s: Seq<char>) -> bool {
    s != "-netdev"@ && s != "-chardev"@
}

/// What a drive says of its key.
spec fn key_words(secret: Option<Seq<char>>) -> Seq<char> {
    if secret is Some {
        ",encrypt.key-secret=sec0"@
    } else {
        ""@
    }
}

/// The first disk of a machine is the writable layer of its space: the kernel takes its root from
/// there. The second is the data, if the profile asks for any. Both are opened with the passphrase
/// of the space if there is one, which was named before.
pub proof fn the_disks_are_those_of_the_space(run: SpaceRun, secret: Option<Seq<char>>)
    ensures
        ({
            let a = machine_argv(run, secret);
            let key = match secret {
                Some(_) => ",encrypt.key-secret=sec0"@,
                None => ""@,
            };
            let root = "id=root,file="@ + run.overlay@ + ",format=qcow2,if=none,readonly=off"@
                + key;
            let data = "id=data,file="@ + run.data@ + ",format=qcow2,if=none,readonly=off"@ + key;
            &&& is_passed(a, "-drive"@, root)
            &&& is_passed(a, "-device"@, "virtio-blk-device,drive=root"@)
            &&& forall|i: int|
                0 <= i < a.len() && #[trigger] a[i] == "-drive"@ && a[i + 1] != root ==> {
                    &&& run.data_mb > 0
                    &&& a[i + 1] == data
                    &&& a[i - 1] == "virtio-blk-device,drive=root"@
                    &&& a[i - 3] == root
                }
            &&& run.data_mb > 0 ==> is_passed(a, "-drive"@, data) && is_passed(
                a,
                "-device"@,
                "virtio-blk-device,drive=data"@,
            )
            &&& secret matches Some(path) ==> exists|i: int|
                0 <= i && #[trigger] a[i] == "-object"@ && a[i + 1] == "secret,id=sec0,file="@
                    + path + ",format=raw"@ && a[i + 2] == "-drive"@ && a[i + 3] == root
        }),
{
    lemma_parts(run, secret);
    lemma_head_flags(run);
    lemma_marks();
    reveal_strlit("id=");
    reveal_strlit("root");
    reveal_strlit("data");
    reveal_strlit(",file=");
    reveal_strlit("id=root,file=");
    reveal_strlit("id=data,file=");
    reveal_strlit("virtio-blk-device,drive=");
    reveal_strlit("virtio-blk-device,drive=root");
    reveal_strlit("virtio-blk-device,drive=data");
    reveal_strlit("");
    let a = machine_argv(run, secret);
    let h = head_args(run);
    let s = secret_args(secret);
    let n = 27 + s.len() as int;
    let r = drive_args("root"@, run.overlay@, secret);
    let b = drive_args("data"@, run.data@, secret);
    let d = device_args(run.cid);
    let g = gpu_args(run.memory_mb);
    let m = devices_at(run, secret);
    let key = key_words(secret);
    let root = "id=root,file="@ + run.overlay@ + ",format=qcow2,if=none,readonly=off"@ + key;
    let data = "id=data,file="@ + run.data@ + ",format=qcow2,if=none,readonly=off"@ + key;
    assert(r[1] =~= root);
    assert(r[3] =~= "virtio-blk-device,drive=root"@);
    assert(b[1] =~= data);
    assert(b[3] =~= "virtio-blk-device,drive=data"@);
    assert(a[n] == r[0] && a[n + 1] == r[1] && a[n + 2] == r[2] && a[n + 3] == r[3]);
    if run.data_mb > 0 {
        assert(a[n + 4] == b[0] && a[n + 4 + 1] == b[1] && a[n + 6] == b[2] && a[n + 6 + 1]
            == b[3]);
    }
    assert(a[n + 2 + 1] == r[3]);
    if secret is Some {
        assert(a[27] == s[0] && a[27int + 1] == s[1]);
        assert(a[27int + 2] == r[0] && a[27int + 3] == r[1]);
    }
    lemma_no_drive(run, secret);
    assert forall|i: int|
        0 <= i < a.len() && #[trigger] a[i] == "-drive"@ && a[i + 1] != root implies {
        &&& run.data_mb > 0
        &&& a[i + 1] == data
        &&& a[i - 1] == "virtio-blk-device,drive=root"@
        &&& a[i - 3] == root
    } by {
        assert(i == n || i == n + 4 && run.data_mb > 0);
    }
}

proof fn lemma_no_drive(run: SpaceRun, secret: Option<Seq<char>>)
    ensures
        forall|i: int|
            0 <= i < machine_argv(run, secret).len() && #[trigger] machine_argv(run, secret)[i]
                == "-drive"@ ==> i == 27 + secret_args(secret).len() || i == 31 + secret_args(
                secret,
            ).len() && run.data_mb > 0,
{
    lemma_parts(run, secret);
    lemma_head_flags(run);
    lemma_marks();
    reveal_strlit("secret,id=sec0,file=");
    reveal_strlit("id=");
    reveal_strlit("virtio-blk-device,drive=");
    reveal_strlit("vhost-vsock-device,guest-cid=");
    reveal_strlit("tap,id=net0,ifname=");
    reveal_strlit("virtio-net-device,netdev=net0,mac=");
    reveal_strlit("virtio-serial-device");
    reveal_strlit("stdio,id=con");
    reveal_strlit("virtconsole,chardev=con");
    reveal_strlit("virtio-gpu-gl-device,hostmem=256M,blob=true,venus=true");
    reveal_strlit("memory-backend-memfd,id=mem,size=");
    reveal_strlit("memory-backend=mem");
    let a = machine_argv(run, secret);
    let h = head_args(run);
    let s = secret_args(secret);
    let r = drive_args("root"@, run.overlay@, secret);
    let b = drive_args("data"@, run.data@, secret);
    let d = device_args(run.cid);
    let g = gpu_args(run.memory_mb);
    let n = devices_at(run, secret);
    assert forall|j: int| 0 <= j < s.len() implies #[trigger] s[j] != "-drive"@ by {}
    assert forall|j: int| 1 <= j < 4 implies #[trigger] r[j] != "-drive"@ by {}
    assert forall|j: int| 1 <= j < 4 implies #[trigger] b[j] != "-drive"@ by {}
    assert forall|j: int| 0 <= j < 12 implies #[trigger] d[j] != "-drive"@ by {}
    assert forall|j: int| 0 <= j < 6 implies #[trigger] g[j] != "-drive"@ by {}
    assert forall|i: int| 0 <= i < a.len() && #[trigger] a[i] == "-drive"@ implies i == 27
        + s.len() || i == 31 + s.len() && run.data_mb > 0 by {
        if i < 27 {
            assert(a[i] == h[i]);
        } else if i < 27 + s.len() {
            assert(a[i] == s[i - 27]);
        } else if i < 27 + s.len() + 4 {
            assert(a[i] == r[i - 27 - s.len()]);
        } else if i < n {
            assert(a[i] == b[i - 27 - s.len() - 4]);
        } else if i < n + 12 {
            assert(a[i] == d[i - n]);
        } else {
            assert(a[i] == g[i - n - 12]);
        }
    }
}

/// A machine with graphics shares all of its memory with the graphics of the host: the shared
/// block is as large as the memory of the machine, and is its memory. One without has no such
/// device.
pub proof fn graphics_share_the_whole_memory(run: SpaceRun, secret: Option<Seq<char>>)
    ensures
        ({
            let a = machine_argv(run, secret);
            if run.gpu@ == "virtio-gpu-venus"@ {
                &&& is_passed(
                    a,
                    "-device"@,
                    "virtio-gpu-gl-device,hostmem=256M,blob=true,venus=true"@,
                )
                &&& is_passed(
                    a,
                    "-object"@,
                    "memory-backend-memfd,id=mem,size="@ + dec(run.memory_mb as nat)
                        + "M,share=on"@,
                )
                &&& is_passed(a, "-machine"@, "memory-backend=mem"@)
            } else {
                !a.contains("-machine"@)
            }
        }),
{
    lemma_parts(run, secret);
    lemma_head_flags(run);
    lemma_marks();
    let a = machine_argv(run, secret);
    let n = devices_at(run, secret) + 12;
    let g = gpu_args(run.memory_mb);
    if has_gpu(run) {
        assert(a[n] == g[0] && a[n + 1] == g[1] && a[n + 2] == g[2] && a[n + 2 + 1] == g[3]);
        assert(a[n + 4] == g[4] && a[n + 4 + 1] == g[5]);
    } else {
        lemma_no_machine(run, secret);
    }
}

proof fn lemma_no_machine(run: SpaceRun, secret: Option<Seq<char>>)
    requires
        !has_gpu(run),
    ensures
        !machine_argv(run, secret).contains("-machine"@),
{
    lemma_parts(run, secret);
    lemma_head_flags(run);
    lemma_marks();
    lemma_append_start(run);
    reveal_strlit("vmlinuz");
    reveal_strlit("initrd.img");
    lemma_joined_end(run.template_dir@, "vmlinuz"@);
    lemma_joined_end(run.template_dir@, "initrd.img"@);
    lemma_dec_is_decimal(run.uid as nat);
    lemma_dec_is_decimal(run.kvm_gid as nat);
    lemma_dec_is_decimal(run.memory_mb as nat);
    lemma_dec_is_decimal(run.cpus as nat);
    assert(is_digit(dec(run.uid as nat)[0]));
    assert(is_digit(dec(run.kvm_gid as nat)[0]));
    assert(is_digit(dec(run.memory_mb as nat)[0]));
    assert(is_digit(dec(run.cpus as nat)[0]));
    reveal_strlit("secret,id=sec0,file=");
    reveal_strlit("id=");
    reveal_strlit("virtio-blk-device,drive=");
    reveal_strlit("vhost-vsock-device,guest-cid=");
    reveal_strlit("tap,id=net0,ifname=");
    reveal_strlit("virtio-net-device,netdev=net0,mac=");
    reveal_strlit("virtio-serial-device");
    reveal_strlit("stdio,id=con");
    reveal_strlit("virtconsole,chardev=con");
    let a = machine_argv(run, secret);
    let h = head_args(run);
    let s = secret_args(secret);
    let r = drive_args("root"@, run.overlay@, secret);
    let b = drive_args("data"@, run.data@, secret);
    let d = device_args(run.cid);
    let n = devices_at(run, secret);
    let bad = "-machine"@;
    assert forall|j: int| 0 <= j < 27 implies #[trigger] h[j] != bad by {
        assert(mark(h[j]) == mark(h[j]));
    }
    assert forall|j: int| 0 <= j < s.len() implies #[trigger] s[j] != bad by {}
    assert forall|j: int| 0 <= j < 4 implies #[trigger] r[j] != bad by {}
    assert forall|j: int| 0 <= j < 4 implies #[trigger] b[j] != bad by {}
    assert forall|j: int| 0 <= j < 12 implies #[trigger] d[j] != bad by {}
    assert forall|i: int| 0 <= i < a.len() implies #[trigger] a[i] != bad by {
        if i < 27 {
            assert(a[i] == h[i]);
        } else if i < 27 + s.len() {
            assert(a[i] == s[i - 27]);
        } else if i < 27 + s.len() + 4 {
            assert(a[i] == r[i - 27 - s.len()]);
        } else if i < n {
            assert(a[i] == b[i - 27 - s.len() - 4]);
        } else {
            assert(a[i] == d[i - n]);
        }
    }
}

} // verus!
