use vsed::cli::Opts;
use vsed::cli::collect_extensions;
use vsed::cli::command_output;
use vsed::cli::extensions_from_listing;
use vsed::cli::parse_excmd_res;

#[test]
fn parse_excmd_res_splits_lines() {
    let parts = parse_excmd_res("a.b@1.2.3\nc.d@4.5.6").unwrap();
    assert_eq!(parts, vec!["a.b@1.2.3", "c.d@4.5.6"]);
}

#[test]
fn parse_excmd_res_keeps_empty_lines() {
    let parts = parse_excmd_res("a\n\nb\n").unwrap();
    assert_eq!(parts, vec!["a", "", "b", ""]);
    let parts = parse_excmd_res("").unwrap();
    assert_eq!(parts, vec![""]);
}

#[test]
fn collect_skips_blank_and_malformed_lines() {
    let lines = vec![
        String::from("2gua.rainbow-brackets@0.0.6"),
        String::from(""),
        String::from("not a token"),
    ];
    let (ids, rejected) = collect_extensions(&lines);
    assert_eq!(ids.len(), 1);
    assert!(ids[0].author == "2gua");
    assert!(ids[0].name == "rainbow-brackets");
    assert!(ids[0].version == "0.0.6");
    assert_eq!(rejected.len(), 1);
    assert!(rejected[0] == "not a token");
}

#[test]
fn listing_text_yields_identifiers() {
    let listing = "bungcip.better-toml@0.3.2\n2gua.rainbow-brackets@0.0.6\n";
    let (ids, rejected) = extensions_from_listing(listing);
    assert_eq!(ids.len(), 2);
    assert!(ids[0].author == "bungcip");
    assert!(ids[1].name == "rainbow-brackets");
    assert_eq!(rejected.len(), 0);
}

#[test]
fn command_output_follows_exit_status() {
    let out = command_output(true, String::from("listing"), String::from(""));
    assert!(out.unwrap() == "listing");
    let err = command_output(false, String::from(""), String::from("no such command"));
    match err {
        Ok(_) => panic!("a failing command must be fatal"),
        Err(e) => assert!(e.message == "no such command"),
    }
}

#[test]
fn opts_validate_and_default_dir() {
    let opts = Opts { file: None, dir: None, save_only: true };
    assert!(opts.validate());
    assert_eq!(opts.effective_dir(), "");
    let opts = Opts { file: None, dir: Some(String::from("out")), save_only: true };
    assert!(!opts.validate());
    assert_eq!(opts.effective_dir(), "out");
}
