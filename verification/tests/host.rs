use orchestrator::hardware::{cpu_cores_from_cpuinfo, docker_host_hardware, memory_mb_from_meminfo, server_hardware};
use orchestrator::packages::initial_limit;
use orchestrator::paths::sanitize_relative_path;

#[test]
fn cpu_count_from_cpuinfo() {
    let cpuinfo = "processor\t: 0\nmodel name\t: x\n\nprocessor\t: 1\nflags: a\n";
    assert_eq!(cpu_cores_from_cpuinfo(cpuinfo), Some(2));
    assert_eq!(cpu_cores_from_cpuinfo("model name: x\n"), None);
    assert_eq!(cpu_cores_from_cpuinfo(""), None);
}

#[test]
fn memory_from_meminfo() {
    let meminfo = "MemFree:  100 kB\nMemTotal:       16318412 kB\nMemTotal: 1 kB\n";
    assert_eq!(memory_mb_from_meminfo(meminfo), Some(15935));
    assert_eq!(memory_mb_from_meminfo("MemTotal: +2048 kB"), Some(2));
    assert_eq!(memory_mb_from_meminfo("MemTotal: abc kB"), None);
    assert_eq!(memory_mb_from_meminfo("MemTotal:"), None);
    assert_eq!(memory_mb_from_meminfo("MemTotal: 99999999999999999999999 kB"), None);
    assert_eq!(memory_mb_from_meminfo("SwapTotal: 10 kB"), None);
}

#[test]
fn hardware_sources_in_order() {
    assert_eq!(docker_host_hardware(Some(8), Some(16 * 1024 * 1024 * 1024)), Some((8, Some(16384))));
    assert_eq!(docker_host_hardware(Some(8), Some(1000)), Some((8, None)));
    assert_eq!(docker_host_hardware(Some(0), Some(1 << 30)), None);
    assert_eq!(docker_host_hardware(None, Some(1 << 30)), None);
    assert_eq!(server_hardware(Some((4, Some(100))), Some(2), Some(3), Some(50)), (4, Some(100)));
    assert_eq!(server_hardware(None, Some(2), Some(3), Some(50)), (2, Some(50)));
    assert_eq!(server_hardware(None, None, Some(3), None), (3, None));
    assert_eq!(server_hardware(None, None, None, None), (1, None));
}

#[test]
fn sanitizing_twice_changes_nothing() {
    for path in ["/a/../b/./c//d", "../../x", "", "a/b", "./.././"] {
        let once = sanitize_relative_path(path);
        assert_eq!(sanitize_relative_path(&once), once);
        assert!(once.split('/').all(|piece| once.is_empty() || (piece != ".." && piece != "." && !piece.is_empty())));
    }
}

#[test]
fn limits_settle_after_one_update() {
    assert_eq!(initial_limit(initial_limit(Some(0))), None);
    assert_eq!(initial_limit(initial_limit(Some(9))), Some(9));
}
