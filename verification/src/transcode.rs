//! HLS transcoding: where a video's playlist lives, and the table of
//! transcode jobs with the state changes that the transcoder makes.

use vstd::prelude::*;
use crate::paths::{file_name, file_name_of, file_stem_of, join, join_path, split_extension};
use crate::text::{chars_of, lemma_not_starting_with, lemma_split_last, lemma_split_nonempty, push_all, trim, trim_chars};
use crate::library::string_views;
use crate::table::Table;
use crate::trusted::{alphanumeric, is_alphanumeric, string_of};

verus! {

/// A character as it may stand in a directory name: letters, digits, `-` and
/// `_` stay, anything else becomes `_`.
pub open spec fn safe_char(c: char) -> char {
    if alphanumeric(c) || c == '-' || c == '_' {
        c
    } else {
        '_'
    }
}

/// The name of a video's HLS directory: the file stem of `filename` (empty
/// when there is none) with every unsafe character replaced.
pub open spec fn safe_stem(filename: Seq<char>) -> Seq<char> {
    let stem = match file_stem_of(filename) {
        Some(s) => s,
        None => seq![],
    };
    stem.map_values(|c: char| safe_char(c))
}

/// The HLS directory for a video: `<media_dir>/hls/<safe stem>`.
pub open spec fn hls_dir_of(media_dir: Seq<char>, filename: Seq<char>) -> Seq<char> {
    join_path(join_path(media_dir, "hls"@), safe_stem(filename))
}

/// The playlist that a finished transcode leaves: `index.m3u8` in the HLS
/// directory.
pub open spec fn hls_playlist_of(media_dir: Seq<char>, filename: Seq<char>) -> Seq<char> {
    join_path(hls_dir_of(media_dir, filename), "index.m3u8"@)
}

/// The playlist's path relative to the media directory, as `strip_prefix`
/// of the media directory leaves it: the stem holds no `/` or `.`, so this is
/// `hls/<safe stem>/index.m3u8` (`hls/index.m3u8` for an empty stem).
pub open spec fn hls_playlist_rel_of(filename: Seq<char>) -> Seq<char> {
    if safe_stem(filename).len() == 0 {
        "hls/index.m3u8"@
    } else {
        "hls/"@ + safe_stem(filename) + "/index.m3u8"@
    }
}

fn safe_stem_chars(filename: &[char]) -> (r: Vec<char>)
    ensures
        r@ == safe_stem(filename@),
{
    let stem = match file_name(filename) {
        Some(n) => split_extension(n.as_slice()).0,
        None => Vec::new(),
    };
    proof {
        if file_stem_of(filename@) is None {
            assert(stem@ =~= Seq::<char>::empty());
        }
    }
    let mut out: Vec<char> = Vec::new();
    let mut i: usize = 0;
    while i < stem.len()
        invariant
            i <= stem@.len(),
            out@ == stem@.take(i as int).map_values(|c: char| safe_char(c)),
        decreases stem@.len() - i,
    {
        let c = stem[i];
        let ok = is_alphanumeric(c) || c == '-' || c == '_';
        out.push(if ok {
            c
        } else {
            '_'
        });
        i += 1;
        proof {
            assert(out@ =~= stem@.take(i as int).map_values(|c: char| safe_char(c)));
        }
    }
    proof {
        assert(stem@.take(i as int) =~= stem@);
    }
    out
}

fn hls_dir_chars(media_dir: &[char], filename: &[char]) -> (r: Vec<char>)
    ensures
        r@ == hls_dir_of(media_dir@, filename@),
{
    let hls = chars_of("hls");
    let base = join(media_dir, hls.as_slice());
    join(base.as_slice(), safe_stem_chars(filename).as_slice())
}

/// The HLS directory for a video file.
pub fn hls_dir_for(media_dir: &str, filename: &str) -> (r: String)
    ensures
        r@ == hls_dir_of(media_dir@, filename@),
{
    string_of(hls_dir_chars(chars_of(media_dir).as_slice(), chars_of(filename).as_slice()).as_slice())
}

/// Where the HLS playlist of a video file is once it has been converted.
pub fn hls_playlist_file(media_dir: &str, filename: &str) -> (r: String)
    ensures
        r@ == hls_playlist_of(media_dir@, filename@),
{
    let dir = hls_dir_chars(chars_of(media_dir).as_slice(), chars_of(filename).as_slice());
    string_of(join(dir.as_slice(), chars_of("index.m3u8").as_slice()).as_slice())
}

/// The HLS playlist of a video file, if it has been converted;
/// `playlist_exists` says whether the file `hls_playlist_file` names exists.
pub fn hls_playlist_path(media_dir: &str, filename: &str, playlist_exists: bool) -> (r: Option<String>)
    ensures
        playlist_exists ==> (r matches Some(p) && p@ == hls_playlist_of(media_dir@, filename@)),
        !playlist_exists ==> r is None,
{
    if playlist_exists {
        Some(hls_playlist_file(media_dir, filename))
    } else {
        None
    }
}

/// The playlist's path relative to the media directory.
pub fn hls_playlist_rel(filename: &str) -> (r: String)
    ensures
        r@ == hls_playlist_rel_of(filename@),
{
    let safe = safe_stem_chars(chars_of(filename).as_slice());
    if safe.len() == 0 {
        string_of(chars_of("hls/index.m3u8").as_slice())
    } else {
        let mut out = chars_of("hls/");
        push_all(&mut out, safe.as_slice());
        push_all(&mut out, chars_of("/index.m3u8").as_slice());
        string_of(out.as_slice())
    }
}

/// Where a transcode job stands.
#[derive(Debug)]
pub enum TranscodeStatus {
    Queued,
    Running,
    Done,
    Failed(String),
}

/// A job's status as plain values.
pub enum StatusView {
    Queued,
    Running,
    Done,
    Failed(Seq<char>),
}

impl View for TranscodeStatus {
    type V = StatusView;

    open spec fn view(&self) -> StatusView {
        match self {
            TranscodeStatus::Queued => StatusView::Queued,
            TranscodeStatus::Running => StatusView::Running,
            TranscodeStatus::Done => StatusView::Done,
            TranscodeStatus::Failed(m) => StatusView::Failed(m@),
        }
    }
}

/// A video's conversion to HLS: where it comes from and goes to, its status,
/// its log, and the converter's process id while it runs.
#[derive(Debug)]
pub struct TranscodeJob {
    pub source: String,
    pub hls_dir: String,
    pub playlist: String,
    pub status: TranscodeStatus,
    pub log: Vec<String>,
    pub pid: Option<u32>,
}

/// A job as plain values.
pub struct JobView {
    pub source: Seq<char>,
    pub hls_dir: Seq<char>,
    pub playlist: Seq<char>,
    pub status: StatusView,
    pub log: Seq<Seq<char>>,
    pub pid: Option<u32>,
}

impl View for TranscodeJob {
    type V = JobView;

    open spec fn view(&self) -> JobView {
        JobView {
            source: self.source@,
            hls_dir: self.hls_dir@,
            playlist: self.playlist@,
            status: self.status@,
            log: string_views(self.log@),
            pid: self.pid,
        }
    }
}

/// The transcode jobs, by video file name.
pub struct TranscodeJobs {
    table: Table<TranscodeJob>,
}

/// What `queue` records for a video: the HLS directory, the playlist path
/// relative to the media directory, and the status and first log line.
pub open spec fn queued_job(
    media_dir: Seq<char>,
    source_path: Seq<char>,
    filename: Seq<char>,
    done: bool,
) -> JobView {
    let dir = hls_dir_of(media_dir, filename);
    let name = match file_name_of(dir) {
        Some(n) => n,
        None => seq![],
    };
    JobView {
        source: source_path,
        hls_dir: dir,
        playlist: "hls/"@ + name + "/index.m3u8"@,
        status: if done {
            StatusView::Done
        } else {
            StatusView::Queued
        },
        log: if done {
            seq!["Already converted."@]
        } else {
            seq!["Queued for conversion..."@]
        },
        pid: None,
    }
}

/// The log after a line is appended: once it holds more than 100 lines, only
/// the last 80 are kept before the new one.
pub open spec fn appended_log(log: Seq<Seq<char>>, line: Seq<char>) -> Seq<Seq<char>> {
    if log.len() > 100 {
        log.skip(log.len() - 80).push(line)
    } else {
        log.push(line)
    }
}

/// Whether a video's job is running or done, so that queueing it again
/// changes nothing.
pub open spec fn busy(jobs: Map<Seq<char>, JobView>, filename: Seq<char>) -> bool {
    jobs.contains_key(filename) && (jobs[filename].status is Done || jobs[filename].status is Running)
}

/// The jobs after a video is queued: unchanged when its job is busy, else
/// with the job that `queued_job` describes.
pub open spec fn after_queue(
    jobs: Map<Seq<char>, JobView>,
    media_dir: Seq<char>,
    source_path: Seq<char>,
    filename: Seq<char>,
    playlist_exists: bool,
) -> Map<Seq<char>, JobView> {
    if busy(jobs, filename) {
        jobs
    } else {
        jobs.insert(filename, queued_job(media_dir, source_path, filename, playlist_exists))
    }
}

/// What `queue` decided.
#[derive(Debug)]
pub enum QueueOutcome {
    /// The video is already being converted or is done; nothing changed.
    Skipped,
    /// The playlist exists already; the job is recorded as done.
    AlreadyConverted,
    /// A new job is queued; the converter is to be started.
    Queued,
}

impl TranscodeJobs {
    /// The jobs by file name.
    pub closed spec fn jobs(&self) -> Map<Seq<char>, JobView> {
        self.table.map()
    }

    /// No jobs.
    pub fn new() -> (r: TranscodeJobs)
        ensures
            r.jobs() == Map::<Seq<char>, JobView>::empty(),
    {
        TranscodeJobs { table: Table::new() }
    }

    /// The job for a video file, if there is one.
    pub fn get(&self, filename: &str) -> (r: Option<&TranscodeJob>)
        ensures
            match r {
                Some(j) => self.jobs().contains_key(filename@) && self.jobs()[filename@] == j@,
                None => !self.jobs().contains_key(filename@),
            },
    {
        self.table.get(filename)
    }

    fn put(&mut self, key: String, job: TranscodeJob)
        ensures
            final(self).jobs() == old(self).jobs().insert(key@, job@),
    {
        self.table.put(key, job)
    }

    fn take(&mut self, key: &String) -> (r: Option<TranscodeJob>)
        ensures
            match r {
                Some(j) => old(self).jobs().contains_key(key@) && old(self).jobs()[key@] == j@
                    && final(self).jobs() == old(self).jobs().remove(key@),
                None => !old(self).jobs().contains_key(key@) && final(self).jobs() == old(self).jobs(),
            },
    {
        self.table.take(key)
    }

    /// Records a video for conversion, as a request to convert it does: a job
    /// that is running or done stays as it is; else, when its playlist exists
    /// already (`playlist_exists`, for the file `hls_playlist_file` names), the
    /// job is recorded as done; else a queued job replaces any earlier one.
    pub fn queue(&mut self, media_dir: &str, source_path: &str, filename: &str, playlist_exists: bool) -> (r: QueueOutcome)
        ensures
            final(self).jobs() == after_queue(old(self).jobs(), media_dir@, source_path@, filename@, playlist_exists),
            busy(old(self).jobs(), filename@) ==> r is Skipped,
            !busy(old(self).jobs(), filename@) && playlist_exists ==> r is AlreadyConverted,
            !busy(old(self).jobs(), filename@) && !playlist_exists ==> r is Queued,
    {
        match self.get(filename) {
            Some(job) => {
                match job.status {
                    TranscodeStatus::Done => {
                        return QueueOutcome::Skipped;
                    },
                    TranscodeStatus::Running => {
                        return QueueOutcome::Skipped;
                    },
                    _ => {},
                }
            },
            None => {},
        }
        let dir = hls_dir_chars(chars_of(media_dir).as_slice(), chars_of(filename).as_slice());
        let mut playlist = chars_of("hls/");
        match file_name(dir.as_slice()) {
            Some(n) => push_all(&mut playlist, n.as_slice()),
            None => {},
        }
        push_all(&mut playlist, chars_of("/index.m3u8").as_slice());
        let mut log: Vec<String> = Vec::new();
        let first = if playlist_exists {
            "Already converted."
        } else {
            "Queued for conversion..."
        };
        let first_line = String::from_str(first);
        log.push(first_line);
        let job = TranscodeJob {
            source: String::from_str(source_path),
            hls_dir: string_of(dir.as_slice()),
            playlist: string_of(playlist.as_slice()),
            status: if playlist_exists {
                TranscodeStatus::Done
            } else {
                TranscodeStatus::Queued
            },
            log,
            pid: None,
        };
        proof {
            assert(job@.log =~= queued_job(media_dir@, source_path@, filename@, playlist_exists).log);
            assert(job@ == queued_job(media_dir@, source_path@, filename@, playlist_exists));
        }
        self.put(String::from_str(filename), job);
        if playlist_exists {
            QueueOutcome::AlreadyConverted
        } else {
            QueueOutcome::Queued
        }
    }

    /// Sets the status of a video's job, if it has one.
    pub fn set_status(&mut self, filename: &str, status: TranscodeStatus)
        ensures
            ({
                let before = old(self).jobs();
                &&& before.contains_key(filename@) ==> final(self).jobs() == before.insert(
                    filename@,
                    JobView { status: status@, ..before[filename@] },
                )
                &&& !before.contains_key(filename@) ==> final(self).jobs() == before
            }),
    {
        let key = String::from_str(filename);
        match self.take(&key) {
            Some(mut job) => {
                job.status = status;
                self.put(key, job);
                proof {
                    assert(final(self).jobs() =~= old(self).jobs().insert(
                        filename@,
                        JobView { status: status@, ..old(self).jobs()[filename@] },
                    ));
                }
            },
            None => {},
        }
    }

    /// Marks a video's job as failed with `msg`, and logs `ERROR: <msg>`.
    pub fn set_failed(&mut self, filename: &str, msg: &str)
        ensures
            ({
                let before = old(self).jobs();
                &&& before.contains_key(filename@) ==> final(self).jobs() == before.insert(
                    filename@,
                    JobView {
                        status: StatusView::Failed(msg@),
                        log: before[filename@].log.push("ERROR: "@ + msg@),
                        ..before[filename@]
                    },
                )
                &&& !before.contains_key(filename@) ==> final(self).jobs() == before
            }),
    {
        let key = String::from_str(filename);
        match self.take(&key) {
            Some(mut job) => {
                job.status = TranscodeStatus::Failed(String::from_str(msg));
                let line = String::from_str("ERROR: ").concat(msg);
                let ghost old_log = job.log@;
                job.log.push(line);
                proof {
                    assert(string_views(job.log@) =~= string_views(old_log).push(line@));
                }
                self.put(key, job);
                proof {
                    assert(final(self).jobs() =~= old(self).jobs().insert(
                        filename@,
                        JobView {
                            status: StatusView::Failed(msg@),
                            log: old(self).jobs()[filename@].log.push("ERROR: "@ + msg@),
                            ..old(self).jobs()[filename@]
                        },
                    ));
                }
            },
            None => {},
        }
    }

    /// Appends a line to a video's job log, keeping only its last 80 lines
    /// first once it has grown past 100.
    pub fn append_log(&mut self, filename: &str, line: &str)
        ensures
            ({
                let before = old(self).jobs();
                &&& before.contains_key(filename@) ==> final(self).jobs() == before.insert(
                    filename@,
                    JobView { log: appended_log(before[filename@].log, line@), ..before[filename@] },
                )
                &&& !before.contains_key(filename@) ==> final(self).jobs() == before
            }),
    {
        let key = String::from_str(filename);
        match self.take(&key) {
            Some(mut job) => {
                let ghost old_log = job.log@;
                if job.log.len() > 100 {
                    let n = job.log.len();
                    let tail = job.log.split_off(n - 80);
                    job.log = tail;
                    proof {
                        assert(string_views(job.log@) =~= string_views(old_log).skip(n - 80));
                    }
                } else {
                    proof {
                        assert(string_views(job.log@) =~= string_views(old_log));
                    }
                }
                let ghost mid = job.log@;
                let l = String::from_str(line);
                job.log.push(l);
                proof {
                    assert(string_views(job.log@) =~= string_views(mid).push(l@));
                    assert(string_views(job.log@) =~= appended_log(string_views(old_log), line@));
                }
                self.put(key, job);
                proof {
                    assert(final(self).jobs() =~= old(self).jobs().insert(
                        filename@,
                        JobView {
                            log: appended_log(old(self).jobs()[filename@].log, line@),
                            ..old(self).jobs()[filename@]
                        },
                    ));
                }
            },
            None => {},
        }
    }

    /// Records the converter's process id for a video's job.
    pub fn set_pid(&mut self, filename: &str, pid: u32)
        ensures
            ({
                let before = old(self).jobs();
                &&& before.contains_key(filename@) ==> final(self).jobs() == before.insert(
                    filename@,
                    JobView { pid: Some(pid), ..before[filename@] },
                )
                &&& !before.contains_key(filename@) ==> final(self).jobs() == before
            }),
    {
        let key = String::from_str(filename);
        match self.take(&key) {
            Some(mut job) => {
                job.pid = Some(pid);
                self.put(key, job);
                proof {
                    assert(final(self).jobs() =~= old(self).jobs().insert(
                        filename@,
                        JobView { pid: Some(pid), ..old(self).jobs()[filename@] },
                    ));
                }
            },
            None => {},
        }
    }

    /// Marks a video's conversion as complete and logs it.
    pub fn complete(&mut self, filename: &str)
        ensures
            ({
                let before = old(self).jobs();
                &&& before.contains_key(filename@) ==> final(self).jobs() == before.insert(
                    filename@,
                    JobView {
                        status: StatusView::Done,
                        log: before[filename@].log.push("Conversion complete!"@),
                        ..before[filename@]
                    },
                )
                &&& !before.contains_key(filename@) ==> final(self).jobs() == before
            }),
    {
        let key = String::from_str(filename);
        match self.take(&key) {
            Some(mut job) => {
                job.status = TranscodeStatus::Done;
                let ghost old_log = job.log@;
                let l = String::from_str("Conversion complete!");
                job.log.push(l);
                proof {
                    assert(string_views(job.log@) =~= string_views(old_log).push(l@));
                }
                self.put(key, job);
                proof {
                    assert(final(self).jobs() =~= old(self).jobs().insert(
                        filename@,
                        JobView {
                            status: StatusView::Done,
                            log: old(self).jobs()[filename@].log.push("Conversion complete!"@),
                            ..old(self).jobs()[filename@]
                        },
                    ));
                }
            },
            None => {},
        }
    }

    /// Starts cancelling a video's job: takes its process id, marks it failed
    /// (`Cancelled by user`) and logs `Cancelled.`; returns the process id and
    /// the HLS directory to clean up, or `None` when there is no job.
    pub fn cancel(&mut self, filename: &str) -> (r: Option<(Option<u32>, String)>)
        ensures
            ({
                let before = old(self).jobs();
                &&& before.contains_key(filename@) ==> (r matches Some((pid, dir)) && pid
                    == before[filename@].pid && dir@ == before[filename@].hls_dir
                    && final(self).jobs() == before.insert(
                    filename@,
                    JobView {
                        status: StatusView::Failed("Cancelled by user"@),
                        log: before[filename@].log.push("Cancelled."@),
                        pid: None,
                        ..before[filename@]
                    },
                ))
                &&& !before.contains_key(filename@) ==> r is None && final(self).jobs() == before
            }),
    {
        let key = String::from_str(filename);
        match self.take(&key) {
            Some(mut job) => {
                let pid = job.pid;
                job.pid = None;
                let dir = job.hls_dir.clone();
                job.status = TranscodeStatus::Failed(String::from_str("Cancelled by user"));
                let ghost old_log = job.log@;
                let l = String::from_str("Cancelled.");
                job.log.push(l);
                proof {
                    assert(string_views(job.log@) =~= string_views(old_log).push(l@));
                }
                self.put(key, job);
                proof {
                    assert(final(self).jobs() =~= old(self).jobs().insert(
                        filename@,
                        JobView {
                            status: StatusView::Failed("Cancelled by user"@),
                            log: old(self).jobs()[filename@].log.push("Cancelled."@),
                            pid: None,
                            ..old(self).jobs()[filename@]
                        },
                    ));
                }
                Some((pid, dir))
            },
            None => None,
        }
    }

    /// Forgets a video's job, so that it can be queued again.
    pub fn remove(&mut self, filename: &str)
        ensures
            final(self).jobs() == old(self).jobs().remove(filename@),
    {
        let key = String::from_str(filename);
        let _ = self.take(&key);
        proof {
            assert(final(self).jobs() =~= old(self).jobs().remove(filename@));
        }
    }
}

/// The arguments the converter (ffmpeg) is started with: H.264 video at
/// most 1920x1080, stereo AAC audio, ten-second HLS segments written into
/// `hls_dir`, progress reported to `progress.log` there, and the playlist
/// `index.m3u8`.
pub open spec fn ffmpeg_args_of(source: Seq<char>, hls_dir: Seq<char>) -> Seq<Seq<char>> {
    seq![
        "-i"@, source,
        "-c:v"@, "libx264"@,
        "-preset"@, "ultrafast"@,
        "-tune"@, "zerolatency"@,
        "-crf"@, "23"@,
        "-maxrate"@, "4M"@,
        "-bufsize"@, "8M"@,
        "-vf"@, "scale='min(1920,iw)':'min(1080,ih)':force_original_aspect_ratio=decrease"@,
        "-c:a"@, "aac"@,
        "-b:a"@, "128k"@,
        "-ac"@, "2"@,
        "-f"@, "hls"@,
        "-hls_time"@, "10"@,
        "-hls_list_size"@, "0"@,
        "-hls_segment_filename"@, join_path(hls_dir, "seg%04d.ts"@),
        "-progress"@, join_path(hls_dir, "progress.log"@),
        "-y"@, join_path(hls_dir, "index.m3u8"@)
    ]
}

fn push_text(v: &mut Vec<String>, s: &str)
    ensures
        string_views(final(v)@) == string_views(old(v)@).push(s@),
{
    let t = String::from_str(s);
    v.push(t);
    proof {
        assert(string_views(final(v)@) =~= string_views(old(v)@).push(s@));
    }
}

fn push_joined(v: &mut Vec<String>, dir: &[char], name: &str)
    ensures
        string_views(final(v)@) == string_views(old(v)@).push(join_path(dir@, name@)),
{
    let t = string_of(join(dir, chars_of(name).as_slice()).as_slice());
    v.push(t);
    proof {
        assert(string_views(final(v)@) =~= string_views(old(v)@).push(join_path(dir@, name@)));
    }
}

/// The converter's arguments for turning `source` into an HLS stream in
/// `hls_dir`.
pub fn ffmpeg_args(source: &str, hls_dir: &str) -> (r: Vec<String>)
    ensures
        string_views(r@) == ffmpeg_args_of(source@, hls_dir@),
{
    let dir = chars_of(hls_dir);
    let mut v: Vec<String> = Vec::new();
    proof {
        assert(string_views(v@) =~= Seq::<Seq<char>>::empty());
    }
    push_text(&mut v, "-i");
    push_text(&mut v, source);
    push_text(&mut v, "-c:v");
    push_text(&mut v, "libx264");
    push_text(&mut v, "-preset");
    push_text(&mut v, "ultrafast");
    push_text(&mut v, "-tune");
    push_text(&mut v, "zerolatency");
    push_text(&mut v, "-crf");
    push_text(&mut v, "23");
    push_text(&mut v, "-maxrate");
    push_text(&mut v, "4M");
    push_text(&mut v, "-bufsize");
    push_text(&mut v, "8M");
    push_text(&mut v, "-vf");
    push_text(&mut v, "scale='min(1920,iw)':'min(1080,ih)':force_original_aspect_ratio=decrease");
    push_text(&mut v, "-c:a");
    push_text(&mut v, "aac");
    push_text(&mut v, "-b:a");
    push_text(&mut v, "128k");
    push_text(&mut v, "-ac");
    push_text(&mut v, "2");
    push_text(&mut v, "-f");
    push_text(&mut v, "hls");
    push_text(&mut v, "-hls_time");
    push_text(&mut v, "10");
    push_text(&mut v, "-hls_list_size");
    push_text(&mut v, "0");
    push_text(&mut v, "-hls_segment_filename");
    push_joined(&mut v, dir.as_slice(), "seg%04d.ts");
    push_text(&mut v, "-progress");
    push_joined(&mut v, dir.as_slice(), "progress.log");
    push_text(&mut v, "-y");
    push_joined(&mut v, dir.as_slice(), "index.m3u8");
    proof {
        assert(string_views(v@) =~= ffmpeg_args_of(source@, hls_dir@));
    }
    v
}

/// The file the converter reports its progress to, in the HLS directory.
pub fn progress_file(hls_dir: &str) -> (r: String)
    ensures
        r@ == join_path(hls_dir@, "progress.log"@),
{
    string_of(join(chars_of(hls_dir).as_slice(), chars_of("progress.log").as_slice()).as_slice())
}

/// What a line of the converter's error output adds to the job log: the
/// line trimmed, unless nothing is left of it.
pub fn stderr_log_line(line: &str) -> (r: Option<String>)
    ensures
        trim(line@).len() == 0 ==> r is None,
        trim(line@).len() > 0 ==> (r matches Some(t) && t@ == trim(line@)),
{
    let t = trim_chars(chars_of(line).as_slice());
    if t.len() == 0 {
        None
    } else {
        Some(string_of(t.as_slice()))
    }
}

/// Law: queueing a video a second time, with the same arguments, changes
/// nothing more than the first time did.
pub proof fn law_queue_idempotent(
    jobs: Map<Seq<char>, JobView>,
    media_dir: Seq<char>,
    source_path: Seq<char>,
    filename: Seq<char>,
    playlist_exists: bool,
)
    ensures
        after_queue(
            after_queue(jobs, media_dir, source_path, filename, playlist_exists),
            media_dir,
            source_path,
            filename,
            playlist_exists,
        ) == after_queue(jobs, media_dir, source_path, filename, playlist_exists),
{
    let once = after_queue(jobs, media_dir, source_path, filename, playlist_exists);
    if !busy(jobs, filename) {
        assert(once.insert(filename, queued_job(media_dir, source_path, filename, playlist_exists)) =~= once);
    }
}

/// Law: a video that is converted and then queued again stays converted.
pub proof fn law_done_stays_done(
    jobs: Map<Seq<char>, JobView>,
    media_dir: Seq<char>,
    source_path: Seq<char>,
    filename: Seq<char>,
    playlist_exists: bool,
)
    requires
        jobs.contains_key(filename),
        jobs[filename].status is Done,
    ensures
        after_queue(jobs, media_dir, source_path, filename, playlist_exists) == jobs,
{
}

/// Law: the playlist of a converted video lies under the media directory at
/// the path that `hls_playlist_rel` gives, whatever the media directory.
pub proof fn law_playlist_under_media_dir(media_dir: Seq<char>, filename: Seq<char>)
    ensures
        hls_playlist_of(media_dir, filename) == join_path(media_dir, hls_playlist_rel_of(filename)),
{
    reveal_strlit("hls");
    reveal_strlit("index.m3u8");
    reveal_strlit("hls/");
    reveal_strlit("/index.m3u8");
    reveal_strlit("hls/index.m3u8");
    let s = safe_stem(filename);
    law_safe_stem(filename);
    let h = join_path(media_dir, "hls"@);
    lemma_not_starting_with("hls"@, '/');
    if s.len() > 0 {
        let c0 = safe_stem(filename)[0];
        assert(alphanumeric(c0) || c0 == '-' || c0 == '_');
        assert(s[0] != '/');
        lemma_not_starting_with(s, '/');
        assert(h.len() > 0 && h.last() == 's');
        let d = join_path(h, s);
        assert(d == h + seq!['/'] + s);
        assert(d.last() == s.last());
        lemma_not_starting_with("index.m3u8"@, '/');
        let rel = hls_playlist_rel_of(filename);
        assert(rel =~= "hls/"@ + s + "/index.m3u8"@);
        lemma_not_starting_with(rel, '/');
        if media_dir.len() > 0 && media_dir.last() != '/' {
            assert(join_path(d, "index.m3u8"@) =~= join_path(media_dir, rel));
        } else {
            assert(join_path(d, "index.m3u8"@) =~= join_path(media_dir, rel));
        }
    } else {
        assert(s =~= Seq::<char>::empty());
        let d = join_path(h, s);
        assert(h.len() > 0 && h.last() == 's');
        assert(d =~= h + seq!['/']);
        lemma_not_starting_with("index.m3u8"@, '/');
        lemma_not_starting_with("hls/index.m3u8"@, '/');
        assert(join_path(d, "index.m3u8"@) =~= join_path(media_dir, "hls/index.m3u8"@));
    }
}

/// Law: the playlist a transcode job records is the one the library lists
/// for the video, for every video file name with a nonempty stem.
pub proof fn law_job_playlist_matches_library(
    media_dir: Seq<char>,
    source_path: Seq<char>,
    filename: Seq<char>,
    playlist_exists: bool,
)
    requires
        safe_stem(filename).len() > 0,
    ensures
        queued_job(media_dir, source_path, filename, playlist_exists).playlist == hls_playlist_rel_of(filename),
{
    reveal_strlit("hls");
    let s = safe_stem(filename);
    law_safe_stem(filename);
    let h = join_path(media_dir, "hls"@);
    lemma_not_starting_with("hls"@, '/');
    let c0 = safe_stem(filename)[0];
    assert(alphanumeric(c0) || c0 == '-' || c0 == '_');
    assert(s[0] != '/');
    lemma_not_starting_with(s, '/');
    assert(h.len() > 0 && h.last() == 's');
    let d = join_path(h, s);
    assert(d == h + seq!['/'] + s);
    assert forall|i: int| 0 <= i < s.len() implies s[i] != '/' by {
        let c = s[i];
        assert(alphanumeric(c) || c == '-' || c == '_');
    }
    lemma_split_last(h, s, '/');
    lemma_split_nonempty(d, '/');
    assert(s != seq!['.']) by {
        if s == seq!['.'] {
            assert(s[0] == '.');
        }
    }
    assert(s != seq!['.', '.']) by {
        if s == seq!['.', '.'] {
            assert(s[0] == '.');
        }
    }
    assert(file_name_of(d) == Some(s));
}

/// Law: a job log that `append_log` extends never holds more than 101 lines;
/// its last line is the new one and the lines before it are the last ones
/// of the old log.
pub proof fn law_append_log_bounded(log: Seq<Seq<char>>, line: Seq<char>)
    ensures
        appended_log(log, line).len() <= 101,
        appended_log(log, line).last() == line,
        appended_log(log, line).drop_last() == log.skip(log.len() - appended_log(log, line).drop_last().len()),
{
    let r = appended_log(log, line);
    if log.len() > 100 {
        assert(r.drop_last() =~= log.skip(log.len() - 80));
    } else {
        assert(r.drop_last() =~= log);
        assert(log.skip(0) =~= log);
    }
}

/// Law: the name of a video's HLS directory holds only letters, digits, `-`
/// and `_`, whatever the video's file name.
pub proof fn law_safe_stem(filename: Seq<char>)
    ensures
        forall|i: int| 0 <= i < safe_stem(filename).len() ==> {
            let c = #[trigger] safe_stem(filename)[i];
            alphanumeric(c) || c == '-' || c == '_'
        },
{
}

} // verus!
