use download_runner::request::{DownloadRequest, Format, Invocation};

fn command(url: &str, format: Format, dir: Option<&str>) -> Invocation {
    DownloadRequest::new(url.to_string(), format, dir.map(|d| d.to_string()))
        .unwrap()
        .invocation()
}

#[test]
fn best_video_without_a_directory() {
    let c = command("https://example.com/v", Format::BestVideo, None);
    assert_eq!(c.program, "yt-dlp");
    assert_eq!(
        c.args,
        vec![
            "--newline",
            "-f",
            "bestvideo+bestaudio/best",
            "--merge-output-format",
            "mp4",
            "https://example.com/v",
        ]
    );
}

#[test]
fn audio_only_without_a_directory() {
    let c = command("https://example.com/a", Format::AudioOnly, None);
    assert_eq!(c.program, "yt-dlp");
    assert_eq!(
        c.args,
        vec!["--newline", "-x", "--audio-format", "mp3", "https://example.com/a"]
    );
}

#[test]
fn the_directory_comes_before_the_format() {
    let c = command("u", Format::AudioOnly, Some("/tmp/music"));
    assert_eq!(
        c.args,
        vec!["--newline", "-P", "/tmp/music", "-x", "--audio-format", "mp3", "u"]
    );
    let c = command("u", Format::BestVideo, Some("dir with space"));
    assert_eq!(
        c.args,
        vec![
            "--newline",
            "-P",
            "dir with space",
            "-f",
            "bestvideo+bestaudio/best",
            "--merge-output-format",
            "mp4",
            "u",
        ]
    );
}

#[test]
fn the_address_is_always_the_last_argument() {
    for format in [Format::BestVideo, Format::AudioOnly] {
        for dir in [None, Some("d")] {
            let c = command("--looks-like-a-flag", format, dir);
            assert_eq!(c.args.first().unwrap(), "--newline");
            assert_eq!(c.args.last().unwrap(), "--looks-like-a-flag");
        }
    }
}

#[test]
fn the_same_request_gives_the_same_command() {
    let r = DownloadRequest::new("u".to_string(), Format::BestVideo, Some("d".to_string())).unwrap();
    assert_eq!(r.invocation(), r.invocation());
}

#[test]
fn an_empty_address_makes_no_request() {
    assert!(DownloadRequest::new(String::new(), Format::BestVideo, None).is_none());
    assert!(DownloadRequest::new(String::new(), Format::AudioOnly, Some("d".to_string())).is_none());
    assert!(DownloadRequest::new(" ".to_string(), Format::AudioOnly, None).is_some());
}

#[test]
fn a_request_hands_back_what_it_was_made_of() {
    let r = DownloadRequest::new("u".to_string(), Format::AudioOnly, Some("d".to_string())).unwrap();
    assert_eq!(r.url(), "u");
    assert_eq!(r.format(), Format::AudioOnly);
    assert_eq!(r.destination_dir(), Some("d"));
    let r = DownloadRequest::new("v".to_string(), Format::BestVideo, None).unwrap();
    assert_eq!(r.url(), "v");
    assert_eq!(r.format(), Format::BestVideo);
    assert_eq!(r.destination_dir(), None);
}

#[test]
fn format_labels() {
    assert_eq!(Format::BestVideo.label(), "Video");
    assert_eq!(Format::AudioOnly.label(), "MP3");
}
