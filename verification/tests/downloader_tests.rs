use vsed::downloader::DownloadError;
use vsed::downloader::Downloader;
use vsed::downloader::FetchAction;
use vsed::downloader::FetchEvent;
use vsed::downloader::FetchSession;
use vsed::downloader::FetchStep;
use vsed::downloader::join_dest;
use vsed::downloader::proxy_is_supported;

#[test]
fn missing_content_length_fails_before_get() {
    let mut session =
        FetchSession::new("https://example.com/a/b.vsix", "b.vsix", None, 0).unwrap();
    let action = session.on_event(FetchEvent::HeadResponse { content_length: None });
    assert_eq!(action, FetchAction::Abort);
    assert_ne!(action, FetchAction::SendGet);
    assert_eq!(
        session.state,
        FetchStep::Failed { error: DownloadError::MissingContentLength }
    );
    assert_eq!(session.file_len, 0);
}

#[test]
fn successful_fetch_counts_every_chunk() {
    let mut session =
        FetchSession::new("https://example.com/a/b.vsix", "b.vsix", None, 0).unwrap();
    assert_eq!(
        session.on_event(FetchEvent::HeadResponse { content_length: Some(10) }),
        FetchAction::SendGet
    );
    assert_eq!(session.on_event(FetchEvent::Chunk { len: 6 }), FetchAction::WriteChunk);
    assert_eq!(session.on_event(FetchEvent::Chunk { len: 4 }), FetchAction::WriteChunk);
    assert_eq!(session.on_event(FetchEvent::StreamEnd), FetchAction::Finish);
    assert_eq!(session.state, FetchStep::Done { written: 10 });
    assert_eq!(session.bytes_written(), 10);
    assert_eq!(session.file_len, 10);
}

#[test]
fn append_mode_accumulates_both_transfers() {
    let mut first =
        FetchSession::new("https://example.com/a/b.vsix", "b.vsix", None, 0).unwrap();
    first.on_event(FetchEvent::HeadResponse { content_length: Some(10) });
    first.on_event(FetchEvent::Chunk { len: 6 });
    first.on_event(FetchEvent::Chunk { len: 4 });
    first.on_event(FetchEvent::StreamEnd);
    let first_written = first.bytes_written();

    let mut second =
        FetchSession::new("https://example.com/a/b.vsix", "b.vsix", None, first.file_len)
            .unwrap();
    second.on_event(FetchEvent::HeadResponse { content_length: Some(10) });
    second.on_event(FetchEvent::Chunk { len: 10 });
    second.on_event(FetchEvent::StreamEnd);
    let second_written = second.bytes_written();

    assert!(second.file_len >= first_written + second_written);
    assert_eq!(second.file_len, 20);
}

#[test]
fn transport_failures_fail_the_fetch() {
    let mut session =
        FetchSession::new("https://example.com/a/b.vsix", "b.vsix", None, 0).unwrap();
    let action = session.on_event(FetchEvent::HeadFailed { message: String::from("dns error") });
    assert_eq!(action, FetchAction::Abort);
    assert_eq!(
        session.state,
        FetchStep::Failed { error: DownloadError::Transport(String::from("dns error")) }
    );

    let mut session =
        FetchSession::new("https://example.com/a/b.vsix", "b.vsix", None, 0).unwrap();
    session.on_event(FetchEvent::HeadResponse { content_length: Some(10) });
    session.on_event(FetchEvent::Chunk { len: 3 });
    let action =
        session.on_event(FetchEvent::TransportFailed { message: String::from("reset") });
    assert_eq!(action, FetchAction::Abort);
    assert_eq!(
        session.state,
        FetchStep::Failed { error: DownloadError::Transport(String::from("reset")) }
    );
}

#[test]
fn only_http_proxies_are_supported() {
    assert!(proxy_is_supported("http://127.0.0.1:7890"));
    assert!(!proxy_is_supported("https://127.0.0.1:7890"));
    assert!(!proxy_is_supported("socks5://127.0.0.1:7890"));
    assert!(!proxy_is_supported("http://"));

    let refused =
        FetchSession::new("https://example.com/a/b.vsix", "b.vsix", Some("socks5://x"), 0);
    match refused {
        Ok(_) => panic!("a socks proxy must be rejected"),
        Err(e) => assert_eq!(e, DownloadError::UnsupportedProxy),
    }
    let accepted = FetchSession::new(
        "https://example.com/a/b.vsix",
        "b.vsix",
        Some("http://127.0.0.1:7890"),
        0,
    )
    .unwrap();
    assert_eq!(accepted.proxy.as_deref(), Some("http://127.0.0.1:7890"));
}

#[test]
fn join_dest_inserts_one_separator() {
    assert_eq!(join_dest("", "b.vsix"), "b.vsix");
    assert_eq!(join_dest("out", "b.vsix"), "out/b.vsix");
    assert_eq!(join_dest("out/", "b.vsix"), "out/b.vsix");
    assert_eq!(join_dest("out", "/abs/b.vsix"), "/abs/b.vsix");
}

#[test]
fn prepare_derives_the_destination_from_the_url() {
    let d = Downloader::new("https://example.com/a/b.vsix", None, None);
    let session = d.prepare(false, 0).unwrap();
    assert_eq!(session.dest, "b.vsix");
    assert_eq!(session.url, "https://example.com/a/b.vsix");
    assert_eq!(session.state, FetchStep::AwaitingHead);
}

#[test]
fn prepare_places_the_file_under_the_output_directory() {
    let d = Downloader::new("https://example.com/a/b.vsix", Some("downloads"), None);
    let session = d.prepare(true, 0).unwrap();
    assert_eq!(session.dest, "downloads/b.vsix");

    let d = Downloader::new("https://example.com/a/b.vsix", Some("exact.vsix"), None);
    let session = d.prepare(false, 7).unwrap();
    assert_eq!(session.dest, "exact.vsix");
    assert_eq!(session.file_len, 7);
}
