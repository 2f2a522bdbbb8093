use ena::bbcode::{classify_tag, escape_attribute, open_tag, tag_markup, Color, FourChanTag};

#[test]
fn tags_are_classified() {
    assert!(matches!(classify_tag("a", Some("quotelink"), None), FourChanTag::Link));
    assert!(matches!(classify_tag("span", Some("deadlink"), None), FourChanTag::Link));
    assert!(matches!(classify_tag("pre", Some("prettyprint"), None), FourChanTag::Code));
    assert!(matches!(classify_tag("table", Some("exif"), None), FourChanTag::Exif));
    assert!(matches!(classify_tag("span", Some("mu-r"), None), FourChanTag::QstColor(Color::Red)));
    assert!(matches!(classify_tag("span", Some("quote"), None), FourChanTag::Quote));
    assert!(matches!(classify_tag("br", None, None), FourChanTag::Break));
    assert!(matches!(classify_tag("s", None, None), FourChanTag::Spoiler));
    assert!(matches!(classify_tag("wbr", None, None), FourChanTag::Quiet));
    assert!(matches!(classify_tag("b", None, Some("color: red;")), FourChanTag::Banned));
    assert!(matches!(classify_tag("strong", None, Some("color:red")), FourChanTag::Banned));
    match classify_tag("b", None, Some("color: blue;")) {
        FourChanTag::Unknown(name) => assert_eq!(name, "b"),
        other => panic!("unexpected {:?}", other),
    }
    match classify_tag("blink", None, None) {
        FourChanTag::Unknown(name) => assert_eq!(name, "blink"),
        other => panic!("unexpected {:?}", other),
    }
}

#[test]
fn fortune_colors() {
    match classify_tag("span", Some("fortune"), Some("color:#c828ff")) {
        FourChanTag::Fortune(color) => assert_eq!(color, Some("c828ff".to_string())),
        other => panic!("unexpected {:?}", other),
    }
    match classify_tag("span", Some("fortune"), Some("color:#abc;font-weight:bold")) {
        FourChanTag::Fortune(color) => assert_eq!(color, Some("abc".to_string())),
        other => panic!("unexpected {:?}", other),
    }
    match classify_tag("span", Some("fortune"), None) {
        FourChanTag::Fortune(color) => assert_eq!(color, None),
        other => panic!("unexpected {:?}", other),
    }
}

#[test]
fn markup_of_tags() {
    assert_eq!(tag_markup(&FourChanTag::Bold, true), "[b]");
    assert_eq!(tag_markup(&FourChanTag::Bold, false), "[/b]");
    assert_eq!(tag_markup(&FourChanTag::Spoiler, true), "[spoiler]");
    assert_eq!(tag_markup(&FourChanTag::Break, true), "\n");
    assert_eq!(tag_markup(&FourChanTag::Break, false), "");
    assert_eq!(tag_markup(&FourChanTag::Link, true), "");
    assert_eq!(tag_markup(&FourChanTag::QstColor(Color::Green), true), "[qstcolor=green]");
    assert_eq!(tag_markup(&FourChanTag::QstColor(Color::Green), false), "[/qstcolor]");
    assert_eq!(
        tag_markup(&FourChanTag::Fortune(Some("c828ff".to_string())), true),
        "[fortune color=\"#c828ff\"]"
    );
    assert_eq!(tag_markup(&FourChanTag::Unknown("blink".to_string()), true), "");
    assert_eq!(tag_markup(&FourChanTag::Unknown("blink".to_string()), false), "</blink>");
}

#[test]
fn unknown_tags_keep_attributes() {
    assert_eq!(escape_attribute("a&b\"c\u{a0}d"), "a&amp;b&quot;c&nbsp;d");
    let attrs = vec![
        ("class".to_string(), "x\"y".to_string()),
        ("href".to_string(), "/a?b=1&c=2".to_string()),
    ];
    assert_eq!(
        open_tag("blink", &attrs),
        "<blink class=\"x&quot;y\" href=\"/a?b=1&amp;c=2\">"
    );
    assert_eq!(open_tag("hr", &vec![]), "<hr>");
}
