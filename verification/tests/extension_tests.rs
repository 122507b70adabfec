use vsed::extension::ExtensionInfo;

#[test]
fn get_url_works() {
    let plugin = ExtensionInfo {
        author: String::from("bungcip"),
        name: String::from("better-toml"),
        version: String::from("0.3.2"),
    };
    assert!(&plugin.get_url().unwrap() == "https://marketplace.visualstudio.com/_apis/public/gallery/publishers/bungcip/vsextensions/better-toml/0.3.2/vspackage");
}

#[test]
fn extension_try_from_works() {
    let s = String::from("2gua.rainbow-brackets@0.0.6");
    let ext = ExtensionInfo::try_from(s.as_str()).unwrap();
    println!("{:?}", ext);
    assert!(ext.author == "2gua");
    assert!(ext.name == "rainbow-brackets");
    assert!(ext.version == "0.0.6");
}

#[test]
fn get_filename_works() {
    let plugin = ExtensionInfo {
        author: String::from("bungcip"),
        name: String::from("better-toml"),
        version: String::from("0.3.2"),
    };
    assert_eq!(plugin.get_filename().unwrap(), "bungcip.better-toml-0.3.2.vsix");
}

#[test]
fn resolve_is_deterministic() {
    let plugin = ExtensionInfo {
        author: String::from("bungcip"),
        name: String::from("better-toml"),
        version: String::from("0.3.2"),
    };
    assert_eq!(plugin.get_url().unwrap(), plugin.get_url().unwrap());
    assert_eq!(plugin.get_filename().unwrap(), plugin.get_filename().unwrap());
}

#[test]
fn parse_round_trip_keeps_fields() {
    let ext = ExtensionInfo::try_from("2gua.rainbow-brackets@0.0.6").unwrap();
    let rebuilt = ext.to_token();
    assert_eq!(rebuilt, "2gua.rainbow-brackets@0.0.6");
    let again = ExtensionInfo::try_from(rebuilt.as_str()).unwrap();
    assert!(again.author == ext.author);
    assert!(again.name == ext.name);
    assert!(again.version == ext.version);
}

#[test]
fn parse_accepts_underscores_and_digits() {
    let ext = ExtensionInfo::try_from("a_b-c.x_1-y@10.20.30").unwrap();
    assert!(ext.author == "a_b-c");
    assert!(ext.name == "x_1-y");
    assert!(ext.version == "10.20.30");
}

#[test]
fn parse_rejects_malformed_tokens() {
    let bad = [
        "",
        "missing-at",
        "a.b@1.2",
        "a.b@1.2.3.4",
        "a.b@x.y.z",
        "a.b.c@1.2.3",
        "a@1.2.3",
        ".b@1.2.3",
        "a.@1.2.3",
        "a.b@",
        "a.b@1..3",
        "a.b@1.2.3 ",
        "a b.c@1.2.3",
        "a.b@1.2.3@4.5.6",
    ];
    for token in bad {
        let r = ExtensionInfo::try_from(token);
        match r {
            Ok(_) => panic!("{} should not parse", token),
            Err(e) => assert!(e.token == token),
        }
    }
}

#[test]
fn describe_renders_the_fields() {
    let ext = ExtensionInfo::try_from("2gua.rainbow-brackets@0.0.6").unwrap();
    assert_eq!(
        ext.describe(),
        "author: 2gua, name: rainbow-brackets, version: 0.0.6"
    );
}
