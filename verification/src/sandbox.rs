//! The filesystem access that the download process keeps when it restricts itself (with the
//! Landlock security module on Linux): which paths it may read, read and write, or read and
//! execute.

use vstd::prelude::*;
use crate::fetch::DashDownloader;
use crate::messages::{views, push_msg};
use crate::text::str_eq;

verus! {

/// What the environment of the process says of its directories.
#[derive(Debug, Clone)]
pub struct SandboxEnvironment {
    /// The user's configuration directory.
    pub config_home: Option<String>,
    /// The user's data directory.
    pub data_home: Option<String>,
    /// The value of `TMPDIR`, if set.
    pub tmpdir: Option<String>,
    /// The user's runtime directory.
    pub runtime_dir: Option<String>,
    /// The current directory.
    pub current_dir: String,
    /// The directories of `PATH`.
    pub path: Vec<String>,
    /// The directories of `LD_LIBRARY_PATH`.
    pub ld_library_path: Vec<String>,
}

/// The paths the process may read, read and write, and read and execute.
#[derive(Debug, Clone)]
pub struct SandboxPaths {
    pub read_only: Vec<String>,
    pub read_write: Vec<String>,
    pub read_exec: Vec<String>,
}

pub open spec fn opt_seq(o: Option<String>) -> Seq<Seq<char>> {
    match o {
        Some(s) => seq![s@],
        None => seq![],
    }
}

/// Read-only: /etc, /dev/zero, /proc/meminfo, and the user's configuration and data directories.
pub open spec fn spec_read_only(env: SandboxEnvironment) -> Seq<Seq<char>> {
    seq!["/etc"@, "/dev/zero"@, "/proc/meminfo"@] + opt_seq(env.config_home) + opt_seq(env.data_home)
}

/// Read and write: /var/tmp, the temporary directory (`TMPDIR`, else /tmp), the user's runtime
/// directory (unless it is one of those two), the output path, and the current directory.
pub open spec fn spec_read_write(env: SandboxEnvironment, output: Option<String>) -> Seq<Seq<char>> {
    let tmp = match env.tmpdir {
        Some(t) => t@,
        None => "/tmp"@,
    };
    let runtime = match env.runtime_dir {
        Some(r) => if r@ == "/var/tmp"@ || r@ == tmp {
            seq![]
        } else {
            seq![r@]
        },
        None => seq![],
    };
    seq!["/var/tmp"@, tmp] + runtime + opt_seq(output) + seq![env.current_dir@]
}

/// Read and execute: /usr, /lib, the directories of `PATH` and `LD_LIBRARY_PATH`, and the
/// helper applications.
pub open spec fn spec_read_exec(env: SandboxEnvironment, d: DashDownloader) -> Seq<Seq<char>> {
    seq!["/usr"@, "/lib"@] + views(env.path@) + views(env.ld_library_path@) + seq![
        d.ffmpeg_location@,
        d.vlc_location@,
        d.mkvmerge_location@,
        d.mp4box_location@,
        d.mp4decrypt_location@,
        d.shaka_packager_location@,
    ]
}

fn push_opt(v: &mut Vec<String>, o: &Option<String>)
    ensures
        views(final(v)@) == views(old(v)@) + opt_seq(*o),
{
    match o {
        Some(s) => push_msg(v, s.clone()),
        None => {
            assert(views(v@) =~= views(v@) + seq![]);
        },
    }
}

fn push_each(v: &mut Vec<String>, items: &Vec<String>)
    ensures
        views(final(v)@) == views(old(v)@) + views(items@),
{
    let ghost start = views(v@);
    let mut i: usize = 0;
    while i < items.len()
        invariant
            i <= items.len(),
            views(v@) == start + views(items@).take(i as int),
        decreases items.len() - i,
    {
        push_msg(v, items[i].clone());
        assert(views(v@) =~= start + views(items@).take(i + 1));
        i = i + 1;
    }
    assert(views(items@).take(items.len() as int) =~= views(items@));
}

/// The paths that the download `d` keeps access to in the environment `env` (see
/// `spec_read_only`, `spec_read_write` and `spec_read_exec`).
pub fn sandbox_paths(d: &DashDownloader, env: &SandboxEnvironment) -> (r: SandboxPaths)
    ensures
        views(r.read_only@) == spec_read_only(*env),
        views(r.read_write@) == spec_read_write(*env, d.output_path),
        views(r.read_exec@) == spec_read_exec(*env, *d),
{
    let mut ro: Vec<String> = Vec::new();
    push_msg(&mut ro, "/etc".to_owned());
    push_msg(&mut ro, "/dev/zero".to_owned());
    push_msg(&mut ro, "/proc/meminfo".to_owned());
    push_opt(&mut ro, &env.config_home);
    push_opt(&mut ro, &env.data_home);
    assert(views(ro@) =~= spec_read_only(*env));

    let mut rw: Vec<String> = Vec::new();
    push_msg(&mut rw, "/var/tmp".to_owned());
    let tmp = match &env.tmpdir {
        Some(t) => t.clone(),
        None => "/tmp".to_owned(),
    };
    let runtime_known = match &env.runtime_dir {
        Some(r) => str_eq(r.as_str(), "/var/tmp") || str_eq(r.as_str(), tmp.as_str()),
        None => true,
    };
    push_msg(&mut rw, tmp);
    if !runtime_known {
        push_opt(&mut rw, &env.runtime_dir);
    }
    push_opt(&mut rw, &d.output_path);
    push_msg(&mut rw, env.current_dir.clone());
    assert(views(rw@) =~= spec_read_write(*env, d.output_path));

    let mut rx: Vec<String> = Vec::new();
    push_msg(&mut rx, "/usr".to_owned());
    push_msg(&mut rx, "/lib".to_owned());
    push_each(&mut rx, &env.path);
    push_each(&mut rx, &env.ld_library_path);
    push_msg(&mut rx, d.ffmpeg_location.clone());
    push_msg(&mut rx, d.vlc_location.clone());
    push_msg(&mut rx, d.mkvmerge_location.clone());
    push_msg(&mut rx, d.mp4box_location.clone());
    push_msg(&mut rx, d.mp4decrypt_location.clone());
    push_msg(&mut rx, d.shaka_packager_location.clone());
    assert(views(rx@) =~= spec_read_exec(*env, *d));
    SandboxPaths { read_only: ro, read_write: rw, read_exec: rx }
}

} // verus!
