use soban::invocation::parse_invocation;

#[test]
fn name_with_number_and_text() {
    let invocation = parse_invocation("!recent123 foo").unwrap();
    assert_eq!(invocation.name, "recent");
    assert_eq!(invocation.args.num, Some(123));
    assert_eq!(invocation.args.msg, "foo");
}

#[test]
fn name_without_number_keeps_all_text() {
    let invocation = parse_invocation("!recent bar baz").unwrap();
    assert_eq!(invocation.name, "recent");
    assert_eq!(invocation.args.num, None);
    assert_eq!(invocation.args.msg, "bar baz");
}

#[test]
fn digits_alone_are_a_name() {
    let invocation = parse_invocation("!123").unwrap();
    assert_eq!(invocation.name, "123");
    assert_eq!(invocation.args.num, None);
    assert_eq!(invocation.args.msg, "");
}

#[test]
fn bare_name() {
    let invocation = parse_invocation("!rp").unwrap();
    assert_eq!(invocation.name, "rp");
    assert_eq!(invocation.args.num, None);
    assert_eq!(invocation.args.msg, "");
}

#[test]
fn no_prefix_is_no_command() {
    assert!(parse_invocation("").is_none());
    assert!(parse_invocation("recent 1").is_none());
    assert!(parse_invocation(" !recent").is_none());
    assert!(parse_invocation("hello !recent").is_none());
    assert!(parse_invocation("\u{a1}recent").is_none());
}

#[test]
fn prefix_alone_is_an_empty_name() {
    let invocation = parse_invocation("!").unwrap();
    assert_eq!(invocation.name, "");
    assert_eq!(invocation.args.num, None);
    assert_eq!(invocation.args.msg, "");
}

#[test]
fn only_the_first_space_counts() {
    let invocation = parse_invocation("!osu  two  spaces ").unwrap();
    assert_eq!(invocation.name, "osu");
    assert_eq!(invocation.args.msg, " two  spaces ");
    let invocation = parse_invocation("! osu").unwrap();
    assert_eq!(invocation.name, "");
    assert_eq!(invocation.args.msg, "osu");
}

#[test]
fn trailing_run_that_is_no_number_stays_in_the_name() {
    let invocation = parse_invocation("!recent-1 x").unwrap();
    assert_eq!(invocation.name, "recent-1");
    assert_eq!(invocation.args.num, None);
    assert_eq!(invocation.args.msg, "x");
    let invocation = parse_invocation("!recent1a2b?").unwrap();
    assert_eq!(invocation.name, "recent1a2b?");
    assert_eq!(invocation.args.num, None);
    let invocation = parse_invocation("!rs12\u{e9}").unwrap();
    assert_eq!(invocation.name, "rs12\u{e9}");
    assert_eq!(invocation.args.num, None);
}

#[test]
fn number_is_read_as_u32() {
    assert_eq!(parse_invocation("!rs0").unwrap().args.num, Some(0));
    assert_eq!(parse_invocation("!rs007").unwrap().args.num, Some(7));
    assert_eq!(parse_invocation("!rs+5").unwrap().args.num, Some(5));
    assert_eq!(parse_invocation("!rs+5").unwrap().name, "rs");
    assert_eq!(parse_invocation("!rs4294967295").unwrap().args.num, Some(u32::MAX));
    let over = parse_invocation("!rs4294967296").unwrap();
    assert_eq!(over.args.num, None);
    assert_eq!(over.name, "rs4294967296");
    let sign_only = parse_invocation("!rs+").unwrap();
    assert_eq!(sign_only.args.num, None);
    assert_eq!(sign_only.name, "rs+");
}

#[test]
fn letters_beyond_ascii_are_no_letters() {
    let invocation = parse_invocation("!\u{e9}12 x").unwrap();
    assert_eq!(invocation.name, "\u{e9}12");
    assert_eq!(invocation.args.num, None);
    let invocation = parse_invocation("!a\u{e9}b12 \u{1f600}").unwrap();
    assert_eq!(invocation.name, "a\u{e9}b");
    assert_eq!(invocation.args.num, Some(12));
    assert_eq!(invocation.args.msg, "\u{1f600}");
}

#[test]
fn parsing_twice_gives_the_same() {
    for text in ["!recent123 foo", "!rp", "hello", "", "!12 x y"] {
        let first = parse_invocation(text);
        let second = parse_invocation(text);
        assert_eq!(first.is_some(), second.is_some());
        if let (Some(first), Some(second)) = (first, second) {
            assert_eq!(first.name, second.name);
            assert_eq!(first.args.num, second.args.num);
            assert_eq!(first.args.msg, second.args.msg);
        }
    }
}

#[test]
fn message_put_together_is_read_back() {
    let names = ["a", "rs", "recent", "Recent", "a1b", "x-y", "\u{e9}t\u{e9}s", "!r"];
    let suffixes = ["", "0", "1", "25", "+3", "007", "4294967295"];
    let rests = ["", " ", "peppy", "white cat", "  two  spaces ", "!rs 1", "\u{1f600} \u{e9}"];
    for name in names {
        for suffix in suffixes {
            for rest in rests {
                let message = format!("!{name}{suffix} {rest}");
                let invocation = parse_invocation(&message).unwrap();
                assert_eq!(invocation.name, name, "{message:?}");
                assert_eq!(invocation.args.num, suffix.parse::<u32>().ok(), "{message:?}");
                assert_eq!(invocation.args.msg, rest, "{message:?}");
            }
        }
    }
}

#[test]
fn message_without_space_has_no_text() {
    let invocation = parse_invocation("!recent25").unwrap();
    assert_eq!(invocation.name, "recent");
    assert_eq!(invocation.args.num, Some(25));
    assert_eq!(invocation.args.msg, "");
    let invocation = parse_invocation("!recent25 ").unwrap();
    assert_eq!(invocation.name, "recent");
    assert_eq!(invocation.args.num, Some(25));
    assert_eq!(invocation.args.msg, "");
}

#[test]
fn last_letter_ends_the_name() {
    let invocation = parse_invocation("!top10plays5 x").unwrap();
    assert_eq!(invocation.name, "top10plays");
    assert_eq!(invocation.args.num, Some(5));
    let invocation = parse_invocation("!5a5").unwrap();
    assert_eq!(invocation.name, "5a");
    assert_eq!(invocation.args.num, Some(5));
    let invocation = parse_invocation("!Z9").unwrap();
    assert_eq!(invocation.name, "Z");
    assert_eq!(invocation.args.num, Some(9));
    let invocation = parse_invocation("!@9").unwrap();
    assert_eq!(invocation.name, "@9");
    assert_eq!(invocation.args.num, None);
    let invocation = parse_invocation("![9").unwrap();
    assert_eq!(invocation.name, "[9");
    let invocation = parse_invocation("!`9").unwrap();
    assert_eq!(invocation.name, "`9");
    let invocation = parse_invocation("!{9").unwrap();
    assert_eq!(invocation.name, "{9");
}
