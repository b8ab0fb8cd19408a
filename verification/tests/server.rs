use pizerarr::server::{listen_port, redirect_target, subtitle_save_path};

#[test]
fn configured_ports() {
    assert_eq!(listen_port(None), 8080);
    assert_eq!(listen_port(Some("8443")), 8443);
    assert_eq!(listen_port(Some("+80")), 80);
    assert_eq!(listen_port(Some("65535")), 65535);
    assert_eq!(listen_port(Some("65536")), 8080);
    assert_eq!(listen_port(Some("http")), 8080);
    assert_eq!(listen_port(Some("")), 8080);
    for s in ["0", "1", "00080", "-1", " 80", "99999999999999999999"] {
        assert_eq!(listen_port(Some(s)), s.parse::<u16>().ok().unwrap_or(8080), "port {:?}", s);
    }
}

#[test]
fn redirects_go_to_https_on_the_same_host() {
    assert_eq!(redirect_target(Some("example.org:80"), Some("/a?b=1")), "https://example.org/a?b=1");
    assert_eq!(redirect_target(Some("example.org"), None), "https://example.org/");
    assert_eq!(redirect_target(None, Some("/x")), "https://192.168.68.68/x");
    assert_eq!(redirect_target(Some(":80"), Some("/")), "https:///");
}

#[test]
fn downloaded_subtitles_are_saved_beside_the_video() {
    assert_eq!(subtitle_save_path("/media", "/downloads", "Films/Movie.mkv"), "/media/Films/Movie.srt");
    assert_eq!(subtitle_save_path("/media", "/downloads", "dl/Show/e1.mp4"), "/downloads/Show/e1.srt");
    assert_eq!(subtitle_save_path("/media", "/downloads", "video"), "/media/video.srt");
    assert_eq!(subtitle_save_path("/media", "/downloads", "a.b.c.mkv"), "/media/a.b.c.srt");
}
