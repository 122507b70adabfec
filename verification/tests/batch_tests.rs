use vsed::batch::BatchRunner;
use vsed::cli::collect_extensions;
use vsed::downloader::DownloadError;

#[test]
fn one_valid_one_blank_one_malformed_gives_one_outcome() {
    let lines = vec![
        String::from("2gua.rainbow-brackets@0.0.6"),
        String::from(""),
        String::from("not a token"),
    ];
    let (ids, rejected) = collect_extensions(&lines);
    assert_eq!(rejected.len(), 1);

    let mut runner = BatchRunner::new(ids, String::from("out"));
    assert!(!runner.done());
    let target = runner.next_target().unwrap();
    assert_eq!(
        target.url,
        "https://marketplace.visualstudio.com/_apis/public/gallery/publishers/2gua/vsextensions/rainbow-brackets/0.0.6/vspackage"
    );
    assert_eq!(target.filename, "2gua.rainbow-brackets-0.0.6.vsix");
    assert_eq!(target.dest_path, "out/2gua.rainbow-brackets-0.0.6.vsix");
    runner.record(Ok(1024));
    assert!(runner.done());
    assert!(runner.next_target().is_none());
    assert_eq!(runner.outcomes.len(), 1);
    assert!(runner.outcomes[0].id.author == "2gua");
    assert_eq!(runner.outcomes[0].result, Ok(1024));
}

#[test]
fn one_failure_does_not_stop_the_batch() {
    let lines = vec![
        String::from("bungcip.better-toml@0.3.2"),
        String::from("2gua.rainbow-brackets@0.0.6"),
    ];
    let (ids, rejected) = collect_extensions(&lines);
    assert_eq!(rejected.len(), 0);

    let mut runner = BatchRunner::new(ids, String::new());
    runner.record(Err(DownloadError::Transport(String::from("timeout"))));
    assert!(!runner.done());
    let target = runner.next_target().unwrap();
    assert_eq!(target.dest_path, "2gua.rainbow-brackets-0.0.6.vsix");
    runner.record(Ok(7));
    assert!(runner.done());
    assert_eq!(runner.outcomes.len(), 2);
    assert!(runner.outcomes[0].id.name == "better-toml");
    assert!(matches!(runner.outcomes[0].result, Err(DownloadError::Transport(_))));
    assert!(runner.outcomes[1].id.name == "rainbow-brackets");
    assert_eq!(runner.outcomes[1].result, Ok(7));
}
