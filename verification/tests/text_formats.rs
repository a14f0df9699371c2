use orchestrator::text::char_is_whitespace;
use orchestrator::logs::{
    count_newlines, find_utf8_boundary, finish_log_chunk, line_number_after, plan_log_chunk, LogWindow,
};
use orchestrator::model::{
    artifact_kind_value, build_status_value, build_trigger_value, is_active, is_failure, parse_artifact_kind,
    parse_build_status, parse_build_trigger, ArtifactKind, BuildStatus, BuildTrigger,
};
use orchestrator::pagination::{build_page_info, normalize_pagination};
use orchestrator::paths::{find_path, normalize_repo_path, path_starts_with, sanitize_relative_path, RepoPathError};
use orchestrator::progress::{extract_progress_percent, parse_git_clone_progress_line};

#[test]
fn pagination_defaults_and_clamps() {
    assert_eq!(normalize_pagination(None, None), (50, 0));
    assert_eq!(normalize_pagination(Some(0), Some(7)), (1, 7));
    assert_eq!(normalize_pagination(Some(1000), None), (200, 0));
    assert_eq!(normalize_pagination(Some(25), Some(3)), (25, 3));
    let page = build_page_info(10, 20, 35, 10);
    assert!(page.has_more);
    assert_eq!(page.total, Some(35));
    assert!(!build_page_info(10, 30, 35, 5).has_more);
}

#[test]
fn progress_percent_reads_the_word_before_the_sign() {
    assert_eq!(extract_progress_percent(" 45% (9/20)"), Some(45));
    assert_eq!(extract_progress_percent("x 250%"), Some(100));
    assert_eq!(extract_progress_percent("no sign"), None);
    assert_eq!(extract_progress_percent("%"), None);
    assert_eq!(extract_progress_percent("ab%"), None);
    assert_eq!(extract_progress_percent("a1b2%"), Some(12));
    assert_eq!(extract_progress_percent("999%"), None);
}

#[test]
fn clone_progress_lines() {
    assert_eq!(
        parse_git_clone_progress_line("Cloning into 'repo'..."),
        Some((2, "Starting clone\u{2026}".to_string()))
    );
    assert_eq!(
        parse_git_clone_progress_line("remote: Checking connectivity... done"),
        Some((99, "Checking repository connectivity\u{2026}".to_string()))
    );
    assert_eq!(
        parse_git_clone_progress_line("Receiving objects:  45% (450/1000), 1.2 MiB"),
        Some((45, "Receiving objects\u{2026} 45%".to_string()))
    );
    assert_eq!(
        parse_git_clone_progress_line("Resolving deltas: 100% (30/30), done."),
        Some((100, "Resolving deltas\u{2026} 100%".to_string()))
    );
    assert_eq!(
        parse_git_clone_progress_line("remote: Compressing objects:   7% (1/14)"),
        Some((7, "Compressing objects\u{2026} 7%".to_string()))
    );
    assert_eq!(parse_git_clone_progress_line("remote: Enumerating objects: 5, done."), None);
}

#[test]
fn utf8_boundary_never_splits_a_character() {
    assert_eq!(find_utf8_boundary(b""), 0);
    assert_eq!(find_utf8_boundary(b"abc"), 3);
    assert_eq!(find_utf8_boundary("é".as_bytes()), 2);
    assert_eq!(find_utf8_boundary(&[b'a', 0xC3]), 1);
    assert_eq!(find_utf8_boundary(&[b'a', 0xE2, 0x82]), 1);
    assert_eq!(find_utf8_boundary("a€".as_bytes()), 4);
    assert_eq!(find_utf8_boundary(&[0xF0, 0x9F, 0x98]), 0);
    let text = "x😀y".as_bytes();
    assert_eq!(find_utf8_boundary(&text[..5]), 5);
    assert_eq!(find_utf8_boundary(&text[..4]), 1);
    assert_eq!(find_utf8_boundary("hié".as_bytes()), 4);
    assert_eq!(find_utf8_boundary(&[0x61, 0x80]), 1);
    assert_eq!(find_utf8_boundary(&[0x80, 0xBF]), 0);
    assert_eq!(find_utf8_boundary(&[0xC3, 0xA9, 0xA9]), 2);
}

#[test]
fn log_chunk_windows() {
    assert_eq!(plan_log_chunk(100, None, None, None), LogWindow { start: 0, read_len: 100 });
    assert_eq!(plan_log_chunk(100_000, Some(10), None, Some(10)), LogWindow { start: 10, read_len: 1024 });
    assert_eq!(plan_log_chunk(100, Some(500), Some(-30), None), LogWindow { start: 70, read_len: 30 });
    assert_eq!(plan_log_chunk(100, Some(5), Some(-30), None), LogWindow { start: 0, read_len: 100 });
    assert_eq!(
        plan_log_chunk(2_000_000, None, None, Some(10_000_000)),
        LogWindow { start: 0, read_len: 524_288 }
    );
    let end = finish_log_chunk(10, 13, &[b'a', 0xC3, 0xA9]);
    assert_eq!((end.keep, end.cursor, end.complete), (3, 13, true));
    let partial = finish_log_chunk(10, 20, &[b'a', 0xC3]);
    assert_eq!((partial.keep, partial.cursor, partial.complete), (1, 11, false));
    assert_eq!(count_newlines(b"a\nb\n\nc"), 3);
    assert_eq!(line_number_after(3), 4);
}

#[test]
fn build_model_texts_round_trip() {
    for status in [
        BuildStatus::Pending,
        BuildStatus::Running,
        BuildStatus::Succeeded,
        BuildStatus::Failed,
        BuildStatus::TimedOut,
    ] {
        assert_eq!(parse_build_status(build_status_value(status)), status);
    }
    assert_eq!(build_status_value(BuildStatus::TimedOut), "timed_out");
    assert_eq!(parse_build_status("timedout"), BuildStatus::TimedOut);
    assert_eq!(parse_build_status("garbage"), BuildStatus::Pending);
    for trigger in [BuildTrigger::Poll, BuildTrigger::ManualRefresh, BuildTrigger::ManualRebuild, BuildTrigger::Api] {
        assert_eq!(parse_build_trigger(build_trigger_value(trigger)), trigger);
    }
    assert_eq!(parse_build_trigger("manualrebuild"), BuildTrigger::ManualRebuild);
    assert_eq!(parse_build_trigger("??"), BuildTrigger::Poll);
    for kind in [
        ArtifactKind::Rpm,
        ArtifactKind::Srpm,
        ArtifactKind::Debuginfo,
        ArtifactKind::Debugsource,
        ArtifactKind::Log,
        ArtifactKind::Other,
    ] {
        assert_eq!(parse_artifact_kind(artifact_kind_value(kind)), kind);
    }
    assert_eq!(parse_artifact_kind("weird"), ArtifactKind::Rpm);
    assert!(is_active(BuildStatus::Running) && is_active(BuildStatus::Pending));
    assert!(!is_active(BuildStatus::Failed));
    assert!(is_failure(BuildStatus::TimedOut) && !is_failure(BuildStatus::Succeeded));
}

#[test]
fn relative_paths_keep_only_normal_components() {
    assert_eq!(sanitize_relative_path("/a/../b/./c//d"), "a/b/c/d");
    assert_eq!(sanitize_relative_path("../../etc/passwd"), "etc/passwd");
    assert_eq!(sanitize_relative_path(""), "");
}

#[test]
fn repo_paths_refuse_escapes() {
    assert_eq!(normalize_repo_path("/packages/foo.rpm"), Ok("packages/foo.rpm".to_string()));
    assert_eq!(normalize_repo_path(""), Err(RepoPathError::Empty));
    assert_eq!(normalize_repo_path("///"), Err(RepoPathError::Empty));
    assert_eq!(normalize_repo_path("a/../b"), Err(RepoPathError::InvalidComponents));
    assert_eq!(RepoPathError::Empty.message(), "repository path must not be empty");
}

#[test]
fn path_prefixes_compare_components() {
    assert!(path_starts_with("/srv/jobs/a/file.rpm", "/srv/jobs/a"));
    assert!(path_starts_with("/srv/jobs/a/", "/srv/jobs/a"));
    assert!(!path_starts_with("/srv/jobs/ab", "/srv/jobs/a"));
    assert!(!path_starts_with("srv/jobs", "/srv"));
    assert!(path_starts_with("/srv//jobs/./x", "/srv/jobs"));
    assert!(path_starts_with("/x", ""));
    let files = vec!["rpms/a.rpm".to_string(), "srpms/./b.src.rpm".to_string()];
    assert_eq!(find_path(&files, "srpms/b.src.rpm"), Some(1));
    assert_eq!(find_path(&files, "rpms//a.rpm"), Some(0));
    assert_eq!(find_path(&files, "c.rpm"), None);
}

#[test]
fn white_space_matches_every_character() {
    assert!(char_is_whitespace('\u{3000}'));
    assert!(char_is_whitespace('\t'));
    assert!(!char_is_whitespace('\u{200b}'));
    assert!(!char_is_whitespace('a'));
    for n in 0..=0x10ffffu32 {
        if let Some(c) = char::from_u32(n) {
            assert_eq!(char_is_whitespace(c), c.is_whitespace(), "U+{:04X}", n);
        }
    }
}
