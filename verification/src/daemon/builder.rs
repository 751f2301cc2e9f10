//! Building the image of a profile.
use crate::paths::{file_name, path_file_name};
use crate::text::{dec, push_text, texts, u32_to_string};
use vstd::prelude::*;

verus! {

/// The builder runs under the account of the operator. Privileges are not locked: a build
/// without root needs the helpers that map its user ids.
pub open spec fn builder_argv(uid: u32, gid: u32, profile_dir: Seq<char>) -> Seq<Seq<char>> {
    seq![
        "setpriv"@,
        "--reuid"@,
        dec(uid as nat),
        "--regid"@,
        dec(gid as nat),
        "--clear-groups"@,
        "--"@,
        "bash"@,
        "tools/build-profile.sh"@,
        profile_dir,
    ]
}

pub fn build_argv(build_uid: u32, build_gid: u32, profile_dir: &str) -> (r: Vec<String>)
    ensures
        texts(r@) == builder_argv(build_uid, build_gid, profile_dir@),
{
    let mut a: Vec<String> = Vec::new();
    assert(texts(a@) =~= seq![]);
    push_text(&mut a, "setpriv");
    push_text(&mut a, "--reuid");
    push_text(&mut a, u32_to_string(build_uid).as_str());
    push_text(&mut a, "--regid");
    push_text(&mut a, u32_to_string(build_gid).as_str());
    push_text(&mut a, "--clear-groups");
    push_text(&mut a, "--");
    push_text(&mut a, "bash");
    push_text(&mut a, "tools/build-profile.sh");
    push_text(&mut a, profile_dir);
    a
}

/// The digest of a built image: the name at which the link `latest` of the builder points.
pub fn digest_from_out_dir(latest: &str, target: Option<&str>) -> (r: Result<String, String>)
    ensures
        match target {
            None => r matches Err(m) && m@ == "не читается символическая ссылка "@ + latest@,
            Some(t) => match file_name(t@) {
                Some(name) => r matches Ok(d) && d@ == name,
                None => r matches Err(m) && m@ == "некорректная ссылка "@ + latest@,
            },
        },
{
    match target {
        None => Err("не читается символическая ссылка ".to_owned().concat(latest)),
        Some(t) => match path_file_name(t) {
            Some(name) => Ok(name),
            None => Err("некорректная ссылка ".to_owned().concat(latest)),
        },
    }
}

} // verus!
