use mpvcast::browse::{browse_local, browse_remote, is_local, keep_supported, PathKind};
use mpvcast::comms::{Request, Status};
use mpvcast::formats::{formats_of_output, supported_formats};

const LISTING: &str = "File formats:\n D. = Demuxing supported\n .E = Muxing supported\n --\n D  3dostr          3DO STR\n  E 3g2             3GP2 (3GPP file format)\n DE matroska,webm   Matroska / WebM\n D  mov,mp4,m4a,3gp,3g2,mj2 QuickTime / MOV\n DE MP4             upper case\n D  mov,mp4,m4a,3gp,3g2,mj2 QuickTime / MOV again\n";

#[test]
fn formats_from_ffmpeg_listing() {
    let formats = supported_formats(LISTING);
    assert_eq!(
        formats,
        vec![
            "3dostr".to_string(),
            "matroskawebm".to_string(),
            "movmp4m4a3gp3g2mj2".to_string(),
            "mp4".to_string(),
        ]
    );
}

#[test]
fn formats_lines_that_name_nothing() {
    assert!(supported_formats("").is_empty());
    assert!(supported_formats("DE").is_empty());
    assert!(supported_formats("D").is_empty());
    assert!(supported_formats(" D\tavi AVI").is_empty());
    assert!(supported_formats(" DE    \n").is_empty());
    assert!(supported_formats("E  avi AVI").is_empty());
}

#[test]
fn formats_line_endings_and_words() {
    assert_eq!(supported_formats("DEfoo Bar,Baz\r\n"), vec!["barbaz".to_string()]);
    assert_eq!(supported_formats(" DE avi\r\n D  flv x"), vec!["avi".to_string(), "flv".to_string()]);
    assert_eq!(supported_formats("\u{a0}DE\u{2003}ÄVI\u{3000}x"), vec!["ävi".to_string()]);
}

#[test]
fn formats_each_once() {
    let formats = supported_formats(" DE a\n DE b\n DE a\n D  b\n D  c\n");
    assert_eq!(formats, vec!["a".to_string(), "b".to_string(), "c".to_string()]);
}

#[test]
fn remote_urls_are_accepted() {
    let r = browse_remote(&Request::browse(3, "https://example.com/film.mp4".to_string()))
        .expect("a remote url is answered at once");
    assert_eq!(r.request_id, 3);
    assert_eq!(r.status(), Status::Success);
    assert!(r.payload.is_empty());
    assert!(browse_remote(&Request::browse(4, "rtsp://cam.local/live".to_string())).is_some());
}

#[test]
fn local_paths_are_looked_at() {
    assert!(browse_remote(&Request::browse(1, "/home/user/Videos".to_string())).is_none());
    assert!(browse_remote(&Request::browse(1, "~/Videos".to_string())).is_none());
    assert!(browse_remote(&Request::browse(1, "file:///srv/media".to_string())).is_none());
    assert!(browse_remote(&Request::browse(1, String::new())).is_none());
    assert!(browse_remote(&Request::stop(1)).is_none());
}

#[test]
fn scheme_file_is_local() {
    assert!(is_local(&None));
    assert!(is_local(&Some("file".to_string())));
    assert!(!is_local(&Some("http".to_string())));
    assert!(!is_local(&Some("FILE".to_string())));
}

#[test]
fn browse_missing_and_other() {
    let req = Request::browse(8, "/nowhere".to_string());
    let none: Vec<String> = Vec::new();
    let r = browse_local(&req, PathKind::Missing, &none, &none);
    assert_eq!(r.request_id, 8);
    assert_eq!(r.status(), Status::Error);
    assert_eq!(r.payload, vec!["URL or path does not exist".to_string()]);
    let r = browse_local(&req, PathKind::Other, &none, &none);
    assert_eq!(r.status(), Status::Error);
    assert_eq!(r.payload, vec!["Unhandled path or url".to_string()]);
}

#[test]
fn browse_file_names_itself() {
    let req = Request::browse(2, "/v/clip.webm".to_string());
    let none: Vec<String> = Vec::new();
    let r = browse_local(&req, PathKind::File, &none, &none);
    assert_eq!(r.status(), Status::Success);
    assert_eq!(r.payload, vec!["/v/clip.webm".to_string()]);
}

#[test]
fn browse_directory_keeps_supported_extensions() {
    let req = Request::browse(5, "/v".to_string());
    let found: Vec<String> = ["mkv", "txt", "mp4", "mkv", "jpg"].iter().map(|s| s.to_string()).collect();
    let supported: Vec<String> = ["mp4", "mkv", "avi"].iter().map(|s| s.to_string()).collect();
    let r = browse_local(&req, PathKind::Directory, &found, &supported);
    assert_eq!(r.request_id, 5);
    assert_eq!(r.status(), Status::Success);
    assert_eq!(
        r.payload,
        vec!["mkv".to_string(), "mp4".to_string(), "mkv".to_string()]
    );
}

#[test]
fn kept_elements_are_exactly_the_supported_ones() {
    let found: Vec<String> = ["a", "b", "c", "b"].iter().map(|s| s.to_string()).collect();
    let keep: Vec<String> = ["b", "z"].iter().map(|s| s.to_string()).collect();
    let kept = keep_supported(&found, &keep);
    assert_eq!(kept, vec!["b".to_string(), "b".to_string()]);
    assert!(kept.iter().all(|k| found.contains(k) && keep.contains(k)));
    assert!(keep_supported(&found, &Vec::new()).is_empty());
}

#[test]
fn formats_from_raw_output() {
    assert_eq!(formats_of_output(LISTING.as_bytes()), supported_formats(LISTING));
    let mut raw = b" DE avi x\n D  ".to_vec();
    raw.push(0xff);
    raw.extend_from_slice(b"ogg y\n DE Fl\xc3\xa4c z\n");
    assert_eq!(
        formats_of_output(&raw),
        vec!["avi".to_string(), "\u{fffd}ogg".to_string(), "fl\u{e4}c".to_string()]
    );
}
