use std::collections::HashSet;

use chrono::{DateTime, TimeZone, Utc};
use comic_feeds::error::ParseError;
use comic_feeds::feed::{FeedEvent, FeedInfo, FilterType, Timestamp, UpdateSpec, Weekday};
use comic_feeds::parser::{parse_command, parse_config, parse_events};

fn instant(d: DateTime<Utc>) -> Timestamp {
    Timestamp { secs: d.timestamp(), nanos: d.timestamp_subsec_nanos() }
}

type Normal = (String, String, HashSet<UpdateSpec>, usize, Option<String>, Option<Vec<String>>);

/// A feed with its policies as a set, and how many it holds.
fn normal(r: Result<Vec<FeedInfo>, ParseError>) -> Result<Vec<Normal>, ParseError> {
    r.map(|v| {
        v.into_iter()
            .map(|f| {
                let n = f.update_policies.len();
                let set: HashSet<UpdateSpec> = f.update_policies.into_iter().collect();
                (f.name, f.url, set, n, f.root, f.command)
            })
            .collect()
    })
}

fn assert_same(got: Result<Vec<FeedInfo>, ParseError>, want: Result<Vec<FeedInfo>, ParseError>) {
    assert_eq!(normal(got), normal(want));
}

fn feed(name: &str, url: &str, policies: Vec<UpdateSpec>) -> FeedInfo {
    FeedInfo {
        name: name.into(),
        url: url.into(),
        update_policies: policies,
        root: None,
        command: None,
    }
}

fn only_feed(line: &str) -> Result<FeedInfo, ParseError> {
    parse_config(line).map(|mut v| {
        assert_eq!(v.len(), 1);
        v.remove(0)
    })
}

#[test]
fn test_config_parser() {
    let buf = r#"
"Questionable Content" <http://questionablecontent.net/QCRSS.xml> @ on Saturday @ every 10 days
"#;
    assert_same(
        parse_config(buf),
        Ok(vec![FeedInfo {
            name: "Questionable Content".into(),
            url: "http://questionablecontent.net/QCRSS.xml".into(),
            update_policies: vec![UpdateSpec::On(Weekday::Sat), UpdateSpec::Every(10)],
            root: None,
            command: None,
        }])
    );
}

#[test]
fn test_multi_feeds() {
    let buf = r#"

# Good and cute
"Goodbye To Halos" <http://goodbyetohalos.com/feed/> @ 3 new comics @ on Monday @ overlap 2 comics
# pe'i xamgu
"Electrum" <https://electrum.cubemelon.net/feed> @ On Thursday @ 5 new Comics

"Gunnerkrigg Court" <http://gunnerkrigg.com/rss.xml> @ 4 new comics @ on tuesday

# A tumblr comic that doesn't have forward/backward buttons on individual comics
"GQutie!" <http://gqutiecomics.com/rss> @ Open all
"#;
    assert_same(
        parse_config(buf),
        Ok(vec![
            FeedInfo {
                name: "Goodbye To Halos".into(),
                url: "http://goodbyetohalos.com/feed/".into(),
                update_policies: vec![
                    UpdateSpec::Comics(3),
                    UpdateSpec::On(Weekday::Mon),
                    UpdateSpec::Overlap(2),
                ],
                root: None,
                command: None,
            },
            FeedInfo {
                name: "Electrum".into(),
                url: "https://electrum.cubemelon.net/feed".into(),
                update_policies: vec![UpdateSpec::Comics(5), UpdateSpec::On(Weekday::Thu)],
                root: None,
                command: None,
            },
            FeedInfo {
                name: "Gunnerkrigg Court".into(),
                url: "http://gunnerkrigg.com/rss.xml".into(),
                update_policies: vec![UpdateSpec::Comics(4), UpdateSpec::On(Weekday::Tue)],
                root: None,
                command: None,
            },
            FeedInfo {
                name: "GQutie!".into(),
                url: "http://gqutiecomics.com/rss".into(),
                update_policies: vec![UpdateSpec::OpenAll],
                root: None,
                command: None,
            },
        ])
    )
}

#[test]
fn test_feed_root() {
    let buf = "\n\n\"Eth's Skin\" <http://www.eths-skin.com/rss>\n\nroot /hello/world\n\"Witchy\" <http://feeds.feedburner.com/WitchyComic?format=xml> @ on Wednesday\n\"Cucumber Quest\" <http://cucumber.gigidigi.com/feed/> @ on Sunday\nroot /oops/this/is/another/path\n\"Imogen Quest\" <http://imogenquest.net/?feed=rss2> @ on Friday\nroot\nroot \n\n\"Balderdash\" <http://www.balderdashcomic.com/rss.php>\n";

    assert_same(
        parse_config(buf),
        Ok(vec![
            FeedInfo {
                name: "Eth's Skin".into(),
                url: "http://www.eths-skin.com/rss".into(),
                update_policies: vec![],
                root: None,
                command: None,
            },
            FeedInfo {
                name: "Witchy".into(),
                url: "http://feeds.feedburner.com/WitchyComic?format=xml".into(),
                update_policies: vec![UpdateSpec::On(Weekday::Wed)],
                root: Some("/hello/world".into()),
                command: None,
            },
            FeedInfo {
                name: "Cucumber Quest".into(),
                url: "http://cucumber.gigidigi.com/feed/".into(),
                update_policies: vec![UpdateSpec::On(Weekday::Sun)],
                root: Some("/hello/world".into()),
                command: None,
            },
            FeedInfo {
                name: "Imogen Quest".into(),
                url: "http://imogenquest.net/?feed=rss2".into(),
                update_policies: vec![UpdateSpec::On(Weekday::Fri)],
                root: Some("/oops/this/is/another/path".into()),
                command: None,
            },
            FeedInfo {
                name: "Balderdash".into(),
                url: "http://www.balderdashcomic.com/rss.php".into(),
                update_policies: vec![],
                root: None,
                command: None,
            },
        ])
    )
}

#[test]
fn test_invalid_configs() {
    let bad_weekday = r#"
"Boozle" <http://boozle.sgoetter.com/feed/> @ on wendsday
"#;
    assert_same(
        parse_config(bad_weekday),
        Err(ParseError::expected("a weekday", 2, 49))
    );

    let bad_policy = r#"
"Boozle" <http://boozle.sgoetter.com/feed/> @ foo
"#;

    match parse_config(bad_policy).unwrap_err() {
        ParseError::ExpectedMsg { msg, row, .. } => {
            assert!(msg.starts_with("a policy definition"));
            assert_eq!(row, 2);
        }
        other => panic!("unexpected error {:?}", other),
    }
}

#[test]
fn test_feed_commands() {
    let input = r#"
"Eth's Skin" <http://www.eths-skin.com/rss>

command example "command here" 'single quotes' then-something
"Witchy" <http://feeds.feedburner.com/WitchyComic?format=xml>
"Cucumber Quest" <http://cucumber.gigidigi.com/feed/>
command
"Imogen Quest" <http://imogenquest.net/?feed=rss2>
"#;

    let command_vec = Some(vec![
        "example".into(),
        "command here".into(),
        "single quotes".into(),
        "then-something".into(),
    ]);

    assert_same(
        parse_config(input),
        Ok(vec![
            FeedInfo {
                name: "Eth's Skin".into(),
                url: "http://www.eths-skin.com/rss".into(),
                update_policies: vec![],
                root: None,
                command: None,
            },
            FeedInfo {
                name: "Witchy".into(),
                url: "http://feeds.feedburner.com/WitchyComic?format=xml".into(),
                update_policies: vec![],
                root: None,
                command: command_vec.clone(),
            },
            FeedInfo {
                name: "Cucumber Quest".into(),
                url: "http://cucumber.gigidigi.com/feed/".into(),
                update_policies: vec![],
                root: None,
                command: command_vec,
            },
            FeedInfo {
                name: "Imogen Quest".into(),
                url: "http://imogenquest.net/?feed=rss2".into(),
                update_policies: vec![],
                root: None,
                command: None,
            },
        ])
    )
}

#[test]
#[allow(deprecated)]
fn test_parse_events() {
    let input = r#"
<http://www.goodbyetohalos.com/comic/01137>

<http://www.goodbyetohalos.com/comic/01138-139>
 read 2017-07-17T03:21:21.492180+00:00
 <http://www.goodbyetohalos.com/comic/01140>
read 2017-07-18T23:41:58.130248+00:00
"#;
    assert_eq!(
        parse_events(input),
        Ok(vec![
            FeedEvent::ComicUrl("http://www.goodbyetohalos.com/comic/01137".into()),
            FeedEvent::ComicUrl("http://www.goodbyetohalos.com/comic/01138-139".into()),
            FeedEvent::Read(instant(Utc.ymd(2017, 07, 17).and_hms_micro(03, 21, 21, 492180))),
            FeedEvent::ComicUrl("http://www.goodbyetohalos.com/comic/01140".into()),
            FeedEvent::Read(instant(Utc.ymd(2017, 07, 18).and_hms_micro(23, 41, 58, 130248))),
        ])
    );

    assert!(parse_events("invalid").is_err());
}

#[test]
fn test_patterns() {
    let pattern_text = "
\"El Goonish Shive\" <http://www.egscomics.com/rss.php> @ ignore title /EGS:NP/ @ keep title \"\\d{4}-\\d{2}-\\d{2}\" @ keep url \u{1f49c}.\u{1f49c} @ ignore url /egsnp/
";
    assert_same(
        parse_config(pattern_text),
        Ok(vec![FeedInfo {
            name: "El Goonish Shive".into(),
            url: "http://www.egscomics.com/rss.php".into(),
            update_policies: vec![
                UpdateSpec::Filter(FilterType::IgnoreTitle, "EGS:NP".into()),
                UpdateSpec::Filter(FilterType::KeepTitle, "\\d{4}-\\d{2}-\\d{2}".into()),
                UpdateSpec::Filter(FilterType::KeepUrl, ".".into()),
                UpdateSpec::Filter(FilterType::IgnoreUrl, "egsnp".into()),
            ],
            root: None,
            command: None,
        }])
    );
}

#[test]
fn duplicate_policies_collapse() {
    let line = "\"X\" <http://x/> @ on monday @ every 2 days @ On MONDAY @ every 2 day @ keep title /a/ @ keep title |a| @ keep title /b/";
    assert_eq!(
        only_feed(line),
        Ok(feed(
            "X",
            "http://x/",
            vec![
                UpdateSpec::On(Weekday::Mon),
                UpdateSpec::Every(2),
                UpdateSpec::Filter(FilterType::KeepTitle, "a".into()),
                UpdateSpec::Filter(FilterType::KeepTitle, "b".into()),
            ]
        ))
    );
}

#[test]
fn weekdays_full_names_any_case() {
    let names = [
        ("sunday", Weekday::Sun),
        ("MONDAY", Weekday::Mon),
        ("Tuesday", Weekday::Tue),
        ("wEdNeSdAy", Weekday::Wed),
        ("thursday", Weekday::Thu),
        ("Friday", Weekday::Fri),
        ("saturday", Weekday::Sat),
    ];
    for (name, day) in names {
        let line = format!("\"X\" <u> @ on {}", name);
        assert_eq!(only_feed(&line), Ok(feed("X", "u", vec![UpdateSpec::On(day)])));
    }
}

#[test]
fn weekday_abbreviation_rejected() {
    assert_same(
        parse_config("\"X\" <u> @ on mon"),
        Err(ParseError::expected("a weekday", 1, 13))
    );
    assert_same(
        parse_config("\"X\" <u> @ on thurs"),
        Err(ParseError::expected("a weekday", 1, 13))
    );
}

#[test]
fn numbers_read_in_base_ten() {
    assert_eq!(
        only_feed("\"X\" <u> @ every 0123 days @ overlap 7 comic @ 45 new comic"),
        Ok(feed(
            "X",
            "u",
            vec![UpdateSpec::Every(123), UpdateSpec::Overlap(7), UpdateSpec::Comics(45)]
        ))
    );
}

#[test]
fn number_needs_a_digit() {
    assert_same(
        parse_config("\"X\" <u> @ every x days"),
        Err(ParseError::expected("digit", 1, 16))
    );
}

#[test]
fn number_too_large() {
    assert_same(
        parse_config("\"X\" <u> @ every 99999999999999999999999 days"),
        Err(ParseError::expected("a number that fits in a usize", 1, 16))
    );
}

#[test]
fn command_tokenization() {
    assert_eq!(
        parse_command("example \"command here\" 'single quotes' then-something"),
        Ok(vec![
            "example".to_string(),
            "command here".to_string(),
            "single quotes".to_string(),
            "then-something".to_string(),
        ])
    );
    assert_eq!(parse_command("   "), Ok(vec![]));
}

#[test]
fn command_unclosed_quote() {
    assert_eq!(parse_command("a 'b c"), Err(ParseError::expected_char('\'', 0, 6)));
}

#[test]
fn invalid_pattern_rejected_at_parse_time() {
    match parse_config("\"X\" <u> @ keep title /(abc/") {
        Err(ParseError::ExpectedMsg { msg, row, span }) => {
            let head = "/(abc/ to be a valid pattern: ";
            assert!(msg.starts_with(head));
            assert!(msg.len() > head.len());
            assert_eq!(row, 1);
            assert_eq!(span, Some((27, 27)));
        }
        other => panic!("unexpected result {:?}", other),
    }
}

#[test]
fn missing_closing_quote() {
    assert_same(
        parse_config("\"X <u>"),
        Err(ParseError::expected_char('"', 1, 6))
    );
}

#[test]
fn missing_url() {
    assert_same(
        parse_config("\"X\" u"),
        Err(ParseError::expected_char('<', 1, 4))
    );
}

#[test]
fn root_resets() {
    let input = "root /a/b\n\"A\" <u>\n# note\n\"B\" <v>\nroot\n\"C\" <w>\n";
    let feeds = parse_config(input).unwrap();
    assert_eq!(feeds.len(), 3);
    assert_eq!(feeds[0].root, Some("/a/b".to_string()));
    assert_eq!(feeds[1].root, Some("/a/b".to_string()));
    assert_eq!(feeds[2].root, None);
}

#[test]
fn root_needs_space() {
    assert_same(
        parse_config("rootx"),
        Err(ParseError::expected("whitespace", 1, 4))
    );
}

#[test]
fn event_log_scenario() {
    assert_eq!(
        parse_events("read 2017-07-17T03:21:21.492180+00:00\n<http://x/comic/01137>"),
        Ok(vec![
            FeedEvent::Read(Timestamp { secs: 1500261681, nanos: 492180000 }),
            FeedEvent::ComicUrl("http://x/comic/01137".into()),
        ])
    );
}

#[test]
fn event_offset_converted_to_utc() {
    assert_eq!(
        parse_events("read 2017-07-17T05:21:21.5+02:00"),
        Ok(vec![FeedEvent::Read(Timestamp { secs: 1500261681, nanos: 500000000 })])
    );
}

#[test]
fn event_bad_date() {
    assert_eq!(
        parse_events("\n  read yesterday"),
        Err(ParseError::expected("a valid date", 2, 7))
    );
}

#[test]
fn event_unknown_line() {
    match parse_events("<a>\nfoo") {
        Err(ParseError::ExpectedMsg { msg, row, span }) => {
            assert!(msg.starts_with("a feed event"));
            assert_eq!(row, 2);
            assert_eq!(span, None);
        }
        other => panic!("unexpected result {:?}", other),
    }
}

#[test]
fn event_url_followed_by_text() {
    assert_eq!(
        parse_events("<a>b"),
        Err(ParseError::expected("whitespace", 1, 3))
    );
}

#[test]
fn error_constructors() {
    assert_eq!(
        ParseError::expected("x", 3, (1, 4)),
        ParseError::ExpectedMsg { msg: "x".into(), row: 3, span: Some((1, 4)) }
    );
    assert_eq!(
        ParseError::expected_char('c', 2, None::<()>),
        ParseError::Expected { character: 'c', row: 2, span: None }
    );
}

#[test]
fn event_url_then_text_rejected() {
    assert_eq!(
        parse_events("<a> b"),
        Err(ParseError::expected("end of line", 1, 4))
    );
    assert_eq!(
        parse_events("<a>   \n"),
        Ok(vec![FeedEvent::ComicUrl("a".into())])
    );
}

#[test]
fn feed_line_then_junk_rejected() {
    assert_eq!(
        parse_config("\"A\" <h> j"),
        Err(ParseError::expected("end of line", 1, 8))
    );
    assert_eq!(
        parse_config("\"A\" <h> @ open all junk"),
        Err(ParseError::expected("end of line", 1, 19))
    );
}

#[test]
fn new_comics_clause_must_end() {
    assert_eq!(
        parse_config("\"X\" <u> @ 3 new comicsX"),
        Err(ParseError::expected("whitespace", 1, 22))
    );
}

#[test]
fn filter_clause_must_end() {
    assert_eq!(
        parse_config("\"X\" <u> @ keep title /x/y"),
        Err(ParseError::expected("whitespace", 1, 24))
    );
}

#[test]
fn command_directive_error_has_line_position() {
    assert_eq!(
        parse_config("\"A\" <h>\ncommand 'a"),
        Err(ParseError::expected_char('\'', 2, 10))
    );
}
