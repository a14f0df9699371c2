use vstd::prelude::*;

use crate::sessions::{uuid_hyphenated, uuid_text};
use crate::text::{
    all_whitespace, chars_of, concat_strs, decimal_string, decimal_text, str_eq, str_trim, string_from_chars,
    strings_view, to_owned_string, trim_spec,
};

verus! {

/// `a` joined with `b` as a path is extended: an absolute `b` replaces
/// `a`; otherwise `b` follows `a`, with a `/` between them unless `a` is
/// empty or already ends in one.
pub open spec fn join_spec(a: Seq<char>, b: Seq<char>) -> Seq<char> {
    if b.len() > 0 && b[0] == '/' {
        b
    } else if a.len() == 0 || a.last() == '/' {
        a + b
    } else {
        a + "/"@ + b
    }
}

/// Joins two paths the way `Path::join` does on Unix.
pub fn path_join(a: &str, b: &str) -> (res: String)
    ensures
        res@ == join_spec(a@, b@),
{
    let bc = chars_of(b);
    if bc.len() > 0 && bc[0] == '/' {
        return to_owned_string(b);
    }
    let ac = chars_of(a);
    if ac.len() == 0 || ac[ac.len() - 1] == '/' {
        concat_strs(a, b)
    } else {
        let with_sep = concat_strs(a, "/");
        let res = concat_strs(with_sep.as_str(), b);
        assert(res@ == a@ + "/"@ + b@);
        res
    }
}

/// A read-write bind mount of a host directory into the worker, relabelled
/// for SELinux.
pub open spec fn bind_text(host: Seq<char>, worker: Seq<char>) -> Seq<char> {
    host + ":"@ + worker + ":rw,z"@
}

fn bind_of(host: &str, worker: &str) -> (res: String)
    ensures
        res@ == bind_text(host@, worker@),
{
    let a = concat_strs(host, ":");
    let b = concat_strs(a.as_str(), worker);
    concat_strs(b.as_str(), ":rw,z")
}

/// The package build cache a worker mounts when ccache is on.
#[derive(Debug, Clone)]
pub struct CcacheTarget {
    pub package_name: String,
    pub mock_chroot: String,
}

/// The directories the daemon creates and the bind mounts it gives a
/// build worker for mock's state and, optionally, ccache.
#[derive(Debug, Clone)]
pub struct MockMountPlan {
    /// Directories to create, as the daemon's container sees them.
    pub create_dirs: Vec<String>,
    /// `host:worker:rw,z` bind specifications.
    pub binds: Vec<String>,
}

pub open spec fn job_mock_root(root: Seq<char>, job_id: u128) -> Seq<char> {
    join_spec(join_spec(root, uuid_text(job_id)), "mock"@)
}

pub open spec fn ccache_dir(root: Seq<char>, package_name: Seq<char>, mock_chroot: Seq<char>) -> Seq<char> {
    join_spec(join_spec(join_spec(root, "ccache"@), package_name), mock_chroot)
}

/// The directories created for a job's mock state and cache.
pub open spec fn mount_dirs_spec(container_jobs_root: Seq<char>, job_id: u128, ccache: Option<(Seq<char>, Seq<char>)>) -> Seq<
    Seq<char>,
> {
    let root = job_mock_root(container_jobs_root, job_id);
    let base = seq![join_spec(root, "lib"@), join_spec(root, "cache"@)];
    match ccache {
        Some((p, c)) => base.push(ccache_dir(container_jobs_root, p, c)),
        None => base,
    }
}

/// The bind mounts of a job's mock state and cache.
pub open spec fn mount_binds_spec(
    host_jobs_root: Seq<char>,
    workspace_dir: Seq<char>,
    job_id: u128,
    ccache: Option<(Seq<char>, Seq<char>)>,
) -> Seq<Seq<char>> {
    let host = job_mock_root(host_jobs_root, job_id);
    let worker = join_spec(workspace_dir, "mock"@);
    let base = seq![
        bind_text(join_spec(host, "lib"@), join_spec(worker, "lib"@)),
        bind_text(join_spec(host, "cache"@), join_spec(worker, "cache"@)),
    ];
    match ccache {
        Some((p, c)) => base.push(bind_text(ccache_dir(host_jobs_root, p, c), join_spec(workspace_dir, "ccache"@))),
        None => base,
    }
}

pub open spec fn ccache_view(ccache: Option<CcacheTarget>) -> Option<(Seq<char>, Seq<char>)> {
    match ccache {
        Some(t) => Some((t.package_name@, t.mock_chroot@)),
        None => None,
    }
}

/// The mounts of a build job. Without a host path for the jobs directory
/// the worker runs without dedicated mock or ccache mounts (`None`).
/// Otherwise the job's mock `lib` and `cache` directories under
/// `<jobs root>/<job>/mock` are created and mounted at
/// `<workspace>/mock/lib` and `<workspace>/mock/cache`, and, with ccache on,
/// `<jobs root>/ccache/<package>/<chroot>` at `<workspace>/ccache`.
pub fn mock_mount_plan(
    host_jobs_root: Option<&str>,
    container_jobs_root: &str,
    workspace_dir: &str,
    job_id: u128,
    ccache: Option<CcacheTarget>,
) -> (res: Option<MockMountPlan>)
    ensures
        host_jobs_root is None ==> res is None,
        host_jobs_root matches Some(host) ==> (res matches Some(plan) && strings_view(plan.create_dirs@)
            == mount_dirs_spec(container_jobs_root@, job_id, ccache_view(ccache)) && strings_view(plan.binds@)
            == mount_binds_spec(host@, workspace_dir@, job_id, ccache_view(ccache))),
{
    let host = match host_jobs_root {
        Some(host) => host,
        None => return None,
    };
    let job = uuid_hyphenated(job_id);
    let host_job = path_join(host, job.as_str());
    let host_mock = path_join(host_job.as_str(), "mock");
    let container_job = path_join(container_jobs_root, job.as_str());
    let container_mock = path_join(container_job.as_str(), "mock");
    let worker_mock = path_join(workspace_dir, "mock");

    let mut create_dirs: Vec<String> = Vec::new();
    create_dirs.push(path_join(container_mock.as_str(), "lib"));
    create_dirs.push(path_join(container_mock.as_str(), "cache"));

    let host_lib = path_join(host_mock.as_str(), "lib");
    let worker_lib = path_join(worker_mock.as_str(), "lib");
    let host_cache = path_join(host_mock.as_str(), "cache");
    let worker_cache = path_join(worker_mock.as_str(), "cache");
    let mut binds: Vec<String> = Vec::new();
    binds.push(bind_of(host_lib.as_str(), worker_lib.as_str()));
    binds.push(bind_of(host_cache.as_str(), worker_cache.as_str()));

    match ccache {
        Some(target) => {
            let host_c1 = path_join(host, "ccache");
            let host_c2 = path_join(host_c1.as_str(), target.package_name.as_str());
            let host_ccache = path_join(host_c2.as_str(), target.mock_chroot.as_str());
            let cont_c1 = path_join(container_jobs_root, "ccache");
            let cont_c2 = path_join(cont_c1.as_str(), target.package_name.as_str());
            let cont_ccache = path_join(cont_c2.as_str(), target.mock_chroot.as_str());
            let worker_ccache = path_join(workspace_dir, "ccache");
            create_dirs.push(cont_ccache);
            binds.push(bind_of(host_ccache.as_str(), worker_ccache.as_str()));
            assert(strings_view(create_dirs@) =~= mount_dirs_spec(container_jobs_root@, job_id, ccache_view(Some(target))));
            assert(strings_view(binds@) =~= mount_binds_spec(host@, workspace_dir@, job_id, ccache_view(Some(target))));
            Some(MockMountPlan { create_dirs, binds })
        },
        None => {
            assert(strings_view(create_dirs@) =~= mount_dirs_spec(container_jobs_root@, job_id, None));
            assert(strings_view(binds@) =~= mount_binds_spec(host@, workspace_dir@, job_id, None));
            Some(MockMountPlan { create_dirs, binds })
        },
    }
}

/// The resource limits of a worker container, as configured and as Docker
/// takes them.
#[derive(Debug, Clone, Copy, PartialEq, Eq)]
pub struct WorkerResourceLimits {
    pub cpu_limit_millicores: Option<u64>,
    pub memory_limit_mb: Option<u64>,
    /// Billionths of a CPU.
    pub nano_cpus: Option<i64>,
    pub memory_bytes: Option<i64>,
}

/// Why a configured limit cannot be handed to Docker.
#[derive(Debug, Clone, Copy, PartialEq, Eq)]
pub enum ResourceLimitError {
    /// The CPU limit times one million does not fit in 64 bits.
    CpuTooLarge(u64),
    /// The CPU limit in nano-CPUs exceeds Docker's signed range.
    CpuOutOfRange,
    /// The memory limit in bytes does not fit in 64 bits.
    MemoryTooLarge(u64),
    /// The memory limit in bytes exceeds Docker's signed range.
    MemoryOutOfRange,
}

/// A limit of zero means no limit.
pub open spec fn positive(v: Option<u64>) -> Option<u64> {
    match v {
        Some(x) => if x > 0 {
            Some(x)
        } else {
            None
        },
        None => None,
    }
}

/// A limit scaled by `factor` for Docker, or why it cannot be.
pub open spec fn scaled_limit(v: Option<u64>, factor: int) -> Result<Option<i64>, bool> {
    match positive(v) {
        None => Ok(None),
        Some(x) => if x * factor > u64::MAX {
            Err(true)
        } else if x * factor > i64::MAX {
            Err(false)
        } else {
            Ok(Some((x * factor) as i64))
        },
    }
}

fn scale_limit(v: Option<u64>, factor: u64) -> (res: Result<Option<i64>, bool>)
    requires
        factor > 0,
    ensures
        res == scaled_limit(v, factor as int),
{
    let x = match v {
        Some(x) => if x > 0 {
            x
        } else {
            return Ok(None);
        },
        None => return Ok(None),
    };
    match x.checked_mul(factor) {
        None => Err(true),
        Some(product) => if product > 9_223_372_036_854_775_807u64 {
            Err(false)
        } else {
            Ok(Some(product as i64))
        },
    }
}

/// The limits of a build worker: zero limits are dropped, the CPU limit
/// in millicores becomes nano-CPUs (times one million) and the memory
/// limit in MiB becomes bytes; a limit whose scaled value overflows is an
/// error, the CPU limit checked first.
pub fn worker_resource_limits(cpu_limit_millicores: Option<u64>, memory_limit_mb: Option<u64>) -> (res: Result<
    WorkerResourceLimits,
    ResourceLimitError,
>)
    ensures
        match (scaled_limit(cpu_limit_millicores, 1_000_000), scaled_limit(memory_limit_mb, 1_048_576)) {
            (Err(true), _) => res == Err::<WorkerResourceLimits, ResourceLimitError>(
                ResourceLimitError::CpuTooLarge(cpu_limit_millicores->Some_0),
            ),
            (Err(false), _) => res == Err::<WorkerResourceLimits, ResourceLimitError>(ResourceLimitError::CpuOutOfRange),
            (Ok(_), Err(true)) => res == Err::<WorkerResourceLimits, ResourceLimitError>(
                ResourceLimitError::MemoryTooLarge(memory_limit_mb->Some_0),
            ),
            (Ok(_), Err(false)) => res == Err::<WorkerResourceLimits, ResourceLimitError>(
                ResourceLimitError::MemoryOutOfRange,
            ),
            (Ok(cpu), Ok(mem)) => res == Ok::<WorkerResourceLimits, ResourceLimitError>(
                WorkerResourceLimits {
                    cpu_limit_millicores: positive(cpu_limit_millicores),
                    memory_limit_mb: positive(memory_limit_mb),
                    nano_cpus: cpu,
                    memory_bytes: mem,
                },
            ),
        },
{
    let nano_cpus = match scale_limit(cpu_limit_millicores, 1_000_000) {
        Ok(v) => v,
        Err(true) => {
            return Err(ResourceLimitError::CpuTooLarge(cpu_limit_millicores.unwrap()));
        },
        Err(false) => {
            return Err(ResourceLimitError::CpuOutOfRange);
        },
    };
    let memory_bytes = match scale_limit(memory_limit_mb, 1_048_576) {
        Ok(v) => v,
        Err(true) => {
            return Err(ResourceLimitError::MemoryTooLarge(memory_limit_mb.unwrap()));
        },
        Err(false) => {
            return Err(ResourceLimitError::MemoryOutOfRange);
        },
    };
    let cpu_limit_millicores = match cpu_limit_millicores {
        Some(x) => if x > 0 {
            Some(x)
        } else {
            None
        },
        None => None,
    };
    let memory_limit_mb = match memory_limit_mb {
        Some(x) => if x > 0 {
            Some(x)
        } else {
            None
        },
        None => None,
    };
    Ok(WorkerResourceLimits { cpu_limit_millicores, memory_limit_mb, nano_cpus, memory_bytes })
}

/// The name of the container that runs job `job_id`.
pub fn worker_container_name(job_id: u128) -> (res: String)
    ensures
        res@ == "synforge-worker-"@ + uuid_text(job_id),
{
    let job = uuid_hyphenated(job_id);
    concat_strs("synforge-worker-", job.as_str())
}

/// The command line of a worker: its id, the daemon's socket address on
/// the internal network, and how long it waits on the socket.
pub fn worker_command_args(worker_id: &str, socket_port: u64, socket_timeout_seconds: u64) -> (res: Vec<String>)
    ensures
        strings_view(res@) == seq![
            "--worker-id"@,
            worker_id@,
            "--connect-addr"@,
            "daemon:"@ + decimal_text(socket_port as nat),
            "--socket-timeout-seconds"@,
            decimal_text(socket_timeout_seconds as nat),
        ],
{
    let mut args: Vec<String> = Vec::new();
    args.push(to_owned_string("--worker-id"));
    args.push(to_owned_string(worker_id));
    args.push(to_owned_string("--connect-addr"));
    let port = string_from_chars(&decimal_string(socket_port));
    args.push(concat_strs("daemon:", port.as_str()));
    args.push(to_owned_string("--socket-timeout-seconds"));
    args.push(string_from_chars(&decimal_string(socket_timeout_seconds)));
    assert(strings_view(args@) =~= seq![
        "--worker-id"@,
        worker_id@,
        "--connect-addr"@,
        "daemon:"@ + decimal_text(socket_port as nat),
        "--socket-timeout-seconds"@,
        decimal_text(socket_timeout_seconds as nat),
    ]);
    args
}

/// Docker's own networks, which a worker is not attached to by choice.
pub open spec fn is_default_network(name: Seq<char>) -> bool {
    name == "bridge"@ || name == "host"@ || name == "none"@
}

/// The network the daemon's container is attached to, in the order its
/// networks are listed: the first that is not one of Docker's own, else
/// the first of all; none when it has no network.
pub open spec fn chosen_network(names: Seq<Seq<char>>) -> Option<Seq<char>> {
    if exists|i: int| 0 <= i < names.len() && !is_default_network(#[trigger] names[i]) {
        Some(names[choose|i: int| 0 <= i < names.len() && !is_default_network(#[trigger] names[i]) && forall|j: int|
            0 <= j < i ==> is_default_network(#[trigger] names[j])])
    } else if names.len() > 0 {
        Some(names[0])
    } else {
        None
    }
}

/// Picks the network workers join.
pub fn choose_network(names: &Vec<String>) -> (res: Option<String>)
    ensures
        match res {
            Some(n) => chosen_network(strings_view(names@)) == Some(n@),
            None => chosen_network(strings_view(names@)) is None,
        },
{
    let ghost v = strings_view(names@);
    let mut i: usize = 0;
    while i < names.len()
        invariant
            i <= names@.len(),
            v == strings_view(names@),
            forall|j: int| 0 <= j < i ==> is_default_network(#[trigger] v[j]),
        decreases names@.len() - i,
    {
        let name = names[i].as_str();
        assert(v[i as int] == name@);
        let is_default = str_eq(name, "bridge") || str_eq(name, "host") || str_eq(name, "none");
        if !is_default {
            proof {
                assert(!is_default_network(v[i as int]));
                let w = choose|k: int| 0 <= k < v.len() && !is_default_network(#[trigger] v[k]) && forall|j: int|
                    0 <= j < k ==> is_default_network(#[trigger] v[j]);
                assert(0 <= w < v.len() && !is_default_network(v[w]) && forall|j: int|
                    0 <= j < w ==> is_default_network(#[trigger] v[j]));
                if w < i {
                    assert(is_default_network(v[w]));
                } else if w > i {
                    assert(is_default_network(v[i as int]));
                }
            }
            return Some(names[i].clone());
        }
        i = i + 1;
    }
    if names.len() > 0 {
        assert(v[0] == names@[0]@);
        Some(names[0].clone())
    } else {
        None
    }
}

/// The daemon's own container name, read from its hostname file: the
/// file's text without surrounding whitespace, if any is left.
pub fn hostname_from_file(contents: &str) -> (res: Option<String>)
    ensures
        all_whitespace(contents@) ==> res is None,
        !all_whitespace(contents@) ==> (res matches Some(h) && h@ == trim_spec(contents@)),
{
    let trimmed = str_trim(contents);
    proof {
        crate::text::lemma_trim_empty_iff_all_whitespace(contents@);
    }
    if trimmed.is_empty() {
        None
    } else {
        Some(to_owned_string(trimmed))
    }
}

} // verus!
