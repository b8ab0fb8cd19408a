use pizerarr::transcode::{
    ffmpeg_args, hls_dir_for, hls_playlist_file, hls_playlist_path, hls_playlist_rel, progress_file,
    stderr_log_line, QueueOutcome, TranscodeJobs, TranscodeStatus,
};

fn status_text(s: &TranscodeStatus) -> String {
    match s {
        TranscodeStatus::Queued => "queued".into(),
        TranscodeStatus::Running => "running".into(),
        TranscodeStatus::Done => "done".into(),
        TranscodeStatus::Failed(m) => format!("failed: {}", m),
    }
}

#[test]
fn hls_locations_follow_the_file_stem() {
    assert_eq!(hls_dir_for("/media", "My Movie (2020).mkv"), "/media/hls/My_Movie__2020_");
    assert_eq!(hls_dir_for("/media/", "a-b_c.mp4"), "/media/hls/a-b_c");
    assert_eq!(hls_dir_for("/media", "Caf\u{e9}.mkv"), "/media/hls/Caf\u{e9}");
    assert_eq!(hls_playlist_file("/media", "x.y.mkv"), "/media/hls/x_y/index.m3u8");
    assert_eq!(hls_playlist_path("/media", "x.mkv", true).as_deref(), Some("/media/hls/x/index.m3u8"));
    assert_eq!(hls_playlist_path("/media", "x.mkv", false), None);
    assert_eq!(hls_playlist_rel("My Movie.mkv"), "hls/My_Movie/index.m3u8");
    assert_eq!(hls_playlist_rel(""), "hls/index.m3u8");
}

#[test]
fn converter_arguments() {
    let args = ffmpeg_args("/media/in put.mkv", "/media/hls/in_put");
    assert_eq!(args.len(), 34);
    assert_eq!(args[0], "-i");
    assert_eq!(args[1], "/media/in put.mkv");
    assert_eq!(args[28], "-hls_segment_filename");
    assert_eq!(args[29], "/media/hls/in_put/seg%04d.ts");
    assert_eq!(args[30], "-progress");
    assert_eq!(args[31], "/media/hls/in_put/progress.log");
    assert_eq!(args[32], "-y");
    assert_eq!(args[33], "/media/hls/in_put/index.m3u8");
    assert_eq!(args[15], "scale='min(1920,iw)':'min(1080,ih)':force_original_aspect_ratio=decrease");
    assert_eq!(progress_file("/media/hls/in_put"), "/media/hls/in_put/progress.log");
    assert_eq!(stderr_log_line("  frame=1  \n").as_deref(), Some("frame=1"));
    assert_eq!(stderr_log_line(" \t "), None);
}

#[test]
fn queueing_records_jobs() {
    let mut jobs = TranscodeJobs::new();
    assert!(matches!(jobs.queue("/media", "/media/a.mkv", "a.mkv", false), QueueOutcome::Queued));
    let j = jobs.get("a.mkv").unwrap();
    assert_eq!(j.source, "/media/a.mkv");
    assert_eq!(j.hls_dir, "/media/hls/a");
    assert_eq!(j.playlist, "hls/a/index.m3u8");
    assert_eq!(status_text(&j.status), "queued");
    assert_eq!(j.log, vec!["Queued for conversion..."]);
    assert_eq!(j.pid, None);

    assert!(matches!(jobs.queue("/media", "/media/b.mkv", "b.mkv", true), QueueOutcome::AlreadyConverted));
    assert_eq!(status_text(&jobs.get("b.mkv").unwrap().status), "done");
    assert_eq!(jobs.get("b.mkv").unwrap().log, vec!["Already converted."]);
    // A done job is not queued again.
    assert!(matches!(jobs.queue("/media", "/elsewhere", "b.mkv", false), QueueOutcome::Skipped));
    assert_eq!(jobs.get("b.mkv").unwrap().source, "/media/b.mkv");

    jobs.set_status("a.mkv", TranscodeStatus::Running);
    assert!(matches!(jobs.queue("/media", "/media/a.mkv", "a.mkv", false), QueueOutcome::Skipped));
    jobs.set_status("missing.mkv", TranscodeStatus::Running);
    assert!(jobs.get("missing.mkv").is_none());
}

#[test]
fn job_updates_and_cancel() {
    let mut jobs = TranscodeJobs::new();
    jobs.queue("/media", "/media/a.mkv", "a.mkv", false);
    jobs.set_pid("a.mkv", 4242);
    jobs.append_log("a.mkv", "Starting ffmpeg...");
    assert_eq!(jobs.get("a.mkv").unwrap().pid, Some(4242));
    let (pid, dir) = jobs.cancel("a.mkv").unwrap();
    assert_eq!(pid, Some(4242));
    assert_eq!(dir, "/media/hls/a");
    let j = jobs.get("a.mkv").unwrap();
    assert_eq!(status_text(&j.status), "failed: Cancelled by user");
    assert_eq!(j.pid, None);
    assert_eq!(j.log.last().unwrap(), "Cancelled.");
    jobs.remove("a.mkv");
    assert!(jobs.get("a.mkv").is_none());
    assert!(jobs.cancel("a.mkv").is_none());
    // Once removed, a cancelled video can be queued again.
    assert!(matches!(jobs.queue("/media", "/media/a.mkv", "a.mkv", false), QueueOutcome::Queued));

    jobs.set_failed("a.mkv", "ffmpeg exited with: 1");
    let j = jobs.get("a.mkv").unwrap();
    assert_eq!(status_text(&j.status), "failed: ffmpeg exited with: 1");
    assert_eq!(j.log.last().unwrap(), "ERROR: ffmpeg exited with: 1");
    // A failed job may be queued again.
    assert!(matches!(jobs.queue("/media", "/media/a.mkv", "a.mkv", false), QueueOutcome::Queued));
    jobs.complete("a.mkv");
    let j = jobs.get("a.mkv").unwrap();
    assert_eq!(status_text(&j.status), "done");
    assert_eq!(j.log, vec!["Queued for conversion...", "Conversion complete!"]);
}

#[test]
fn job_log_keeps_the_last_lines() {
    let mut jobs = TranscodeJobs::new();
    jobs.queue("/media", "/media/a.mkv", "a.mkv", false);
    for i in 0..100 {
        jobs.append_log("a.mkv", &format!("line {}", i));
    }
    // 101 lines: the next append first trims to the last 80.
    assert_eq!(jobs.get("a.mkv").unwrap().log.len(), 101);
    jobs.append_log("a.mkv", "new");
    let log = &jobs.get("a.mkv").unwrap().log;
    assert_eq!(log.len(), 81);
    assert_eq!(log[0], "line 20");
    assert_eq!(log[79], "line 99");
    assert_eq!(log[80], "new");
    for i in 0..300 {
        jobs.append_log("a.mkv", &format!("more {}", i));
        assert!(jobs.get("a.mkv").unwrap().log.len() <= 101);
    }
    jobs.append_log("none.mkv", "x");
    assert!(jobs.get("none.mkv").is_none());
}
