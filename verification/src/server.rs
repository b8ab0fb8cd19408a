//! Small decisions of the web server: the port it listens on, where an
//! HTTP request is redirected to, and where a downloaded subtitle is saved.

use vstd::prelude::*;
use crate::library::media_path_of;
use crate::paths::{with_extension, with_extension_of};
use crate::text::{chars_of, copy_range, find_char, first_pos, parse_unsigned, parse_unsigned_chars, push_all};
use crate::trusted::string_of;

verus! {

/// The port to listen on: the configured value when it is a port number,
/// else 8080.
pub open spec fn listen_port_of(configured: Option<Seq<char>>) -> u16 {
    match configured {
        Some(s) => match parse_unsigned(s, 0xffff) {
            Some(p) => p as u16,
            None => 8080,
        },
        None => 8080,
    }
}

/// The port to listen on, from the configured text (if any).
pub fn listen_port(configured: Option<&str>) -> (r: u16)
    ensures
        r == listen_port_of(
            match configured {
                Some(s) => Some(s@),
                None => None,
            },
        ),
{
    match configured {
        Some(s) => match parse_unsigned_chars(chars_of(s).as_slice(), 0xffff) {
            Some(p) => p as u16,
            None => 8080,
        },
        None => 8080,
    }
}

/// The host that a redirect goes to: the request's `Host` header up to its
/// first `:`, or the server's own address when there is no header.
pub open spec fn redirect_host(host: Option<Seq<char>>) -> Seq<char> {
    let h = match host {
        Some(h) => h,
        None => "192.168.68.68"@,
    };
    h.take(first_pos(h, ':') as int)
}

/// Where a plain-HTTP request is redirected: the same host over HTTPS, with
/// the request's path and query (`/` when there is none).
pub open spec fn redirect_target_of(host: Option<Seq<char>>, path_and_query: Option<Seq<char>>) -> Seq<char> {
    "https://"@ + redirect_host(host) + match path_and_query {
        Some(p) => p,
        None => "/"@,
    }
}

/// The HTTPS location for a plain-HTTP request.
pub fn redirect_target(host: Option<&str>, path_and_query: Option<&str>) -> (r: String)
    ensures
        r@ == redirect_target_of(
            match host {
                Some(h) => Some(h@),
                None => None,
            },
            match path_and_query {
                Some(p) => Some(p@),
                None => None,
            },
        ),
{
    let h = match host {
        Some(h) => chars_of(h),
        None => chars_of("192.168.68.68"),
    };
    let end = find_char(h.as_slice(), 0, ':');
    proof {
        assert(h@.skip(0) =~= h@);
    }
    let mut out = chars_of("https://");
    let name = copy_range(h.as_slice(), 0, end);
    push_all(&mut out, name.as_slice());
    let p = match path_and_query {
        Some(p) => chars_of(p),
        None => chars_of("/"),
    };
    push_all(&mut out, p.as_slice());
    proof {
        assert(name@ =~= h@.take(end as int));
    }
    string_of(out.as_slice())
}

/// Where a downloaded subtitle is saved: beside the video (a served path,
/// `dl/` for the download directory), with the extension `srt`.
pub open spec fn subtitle_save_path_of(media_dir: Seq<char>, download_dir: Seq<char>, video_path: Seq<char>) -> Seq<char> {
    with_extension_of(media_path_of(media_dir, download_dir, video_path), "srt"@)
}

/// The file a subtitle downloaded for a video is saved to.
pub fn subtitle_save_path(media_dir: &str, download_dir: &str, video_path: &str) -> (r: String)
    ensures
        r@ == subtitle_save_path_of(media_dir@, download_dir@, video_path@),
{
    let video = crate::library::media_path(media_dir, download_dir, video_path);
    let srt = chars_of("srt");
    string_of(with_extension(chars_of(video.as_str()).as_slice(), srt.as_slice()).as_slice())
}

} // verus!
