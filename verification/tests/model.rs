use todo::error::Error;
use todo::model::{Action, Code, Item, Link, Prio, Status, Tags, CSV, ID};

#[test]
fn prio_try_from() {
    let cases = vec![
        ("low", Prio::Low),
        ("normal", Prio::Normal),
        ("high", Prio::High),
        ("critical", Prio::Critical),
    ];
    for (s, expected) in cases {
        let actual = Prio::try_from(s).unwrap();
        assert_eq!(expected, actual);
    }
}

#[test]
fn prio_try_from_invalid() {
    let r = Prio::try_from("unknown");
    assert!(r.is_err());
}

#[test]
fn prio_try_from_any_case() {
    assert_eq!(Prio::try_from("HIGH").unwrap(), Prio::High);
    assert_eq!(Prio::try_from("Critical").unwrap(), Prio::Critical);
    assert!(matches!(Prio::try_from(""), Err(Error::InvalidValue(_))));
}

#[test]
fn prio_names_and_ranks() {
    assert_eq!(Prio::Low.to_string(), "low");
    assert_eq!(Prio::Normal.to_string(), "normal");
    assert_eq!(Prio::High.to_string(), "high");
    assert_eq!(Prio::Critical.to_string(), "critical");
    assert_eq!(Prio::Critical.rank(), 0);
    assert_eq!(Prio::High.rank(), 1);
    assert_eq!(Prio::Normal.rank(), 2);
    assert_eq!(Prio::Low.rank(), 3);
    assert!(Prio::Critical.sorts_before(&Prio::High));
    assert!(Prio::Normal.sorts_before(&Prio::Low));
    assert!(!Prio::Low.sorts_before(&Prio::Low));
}

#[test]
fn status_try_from() {
    let cases = vec![
        ("new", Status::New),
        ("started", Status::Started),
        ("done", Status::Done),
        ("blocked", Status::Blocked),
    ];
    for (s, expected) in cases {
        let actual = Status::try_from(s).unwrap();
        assert_eq!(expected, actual);
    }
}

#[test]
fn status_try_from_invalid() {
    let r = Status::try_from("unknown");
    assert!(r.is_err());
}

#[test]
fn status_try_from_trims_and_lowers() {
    assert_eq!(Status::try_from("  DONE ").unwrap(), Status::Done);
    assert_eq!(Status::try_from("In-Progress").unwrap(), Status::Started);
    assert!(matches!(Status::try_from("do ne"), Err(Error::InvalidValue(_))));
    assert!(matches!(Status::from_keyword("DONE"), Err(Error::InvalidValue(_))));
}

#[test]
fn status_names_and_ranks() {
    assert_eq!(Status::New.to_string(), "new");
    assert_eq!(Status::Started.to_string(), "started");
    assert_eq!(Status::Done.to_string(), "done");
    assert_eq!(Status::Blocked.to_string(), "blocked");
    assert_eq!(Status::Started.rank(), 0);
    assert_eq!(Status::New.rank(), 1);
    assert_eq!(Status::Blocked.rank(), 2);
    assert_eq!(Status::Done.rank(), 3);
    assert!(Status::Started.sorts_before(&Status::New));
    assert!(Status::Blocked.sorts_before(&Status::Done));
    assert!(!Status::Done.sorts_before(&Status::New));
}

#[test]
fn parse_valid_links() {
    let tests = ["blocks:1", "blocked_by:1", "blockedby:2"];
    for t in tests {
        let res = Link::try_from(t);
        assert!(res.is_ok());
    }
}

#[test]
fn reject_invalid_links() {
    let tests = ["blocks", "blockedby:", "blocks:-1", "unknown"];
    for t in tests {
        let res = Link::try_from(t);
        assert!(res.is_err());
    }
}

#[test]
fn parse_links_exactly() {
    assert_eq!(Link::try_from("blocks:12").unwrap(), Link::Blocks(ID::new(12)));
    assert_eq!(Link::try_from("Blocked-By:7").unwrap(), Link::BlockedBy(ID::new(7)));
    assert_eq!(Link::try_from("RELATESTO:65535").unwrap(), Link::RelatesTo(ID::new(65535)));
    assert_eq!(Link::try_from("relates_to:0").unwrap(), Link::RelatesTo(ID::new(0)));
    assert!(matches!(Link::try_from("blocks:65536"), Err(Error::InvalidValue(_))));
    assert!(matches!(Link::try_from("blocks:1:2"), Err(Error::InvalidValue(_))));
    assert!(matches!(Link::try_from("likes:1"), Err(Error::InvalidValue(_))));
    assert!(matches!(Link::try_from(":1"), Err(Error::InvalidValue(_))));
}

#[test]
fn link_accessors() {
    let l = Link::Blocks(ID::new(3));
    assert_eq!(l.id(), ID::new(3));
    assert_eq!(l.with_id(ID::new(4)), Link::Blocks(ID::new(4)));
    assert_eq!(l.bi_directional(ID::new(9)), Some(Link::BlockedBy(ID::new(9))));
    assert_eq!(
        Link::BlockedBy(ID::new(3)).bi_directional(ID::new(9)),
        Some(Link::Blocks(ID::new(9)))
    );
    assert_eq!(Link::RelatesTo(ID::new(3)).bi_directional(ID::new(9)), None);
    assert!(l.is_blocks());
    assert!(!l.is_blocked_by());
    assert!(Link::BlockedBy(ID::new(1)).is_blocked_by());
}

#[test]
fn link_texts() {
    assert_eq!(Link::Blocks(ID::new(12)).encode(), "blocks:12");
    assert_eq!(Link::BlockedBy(ID::new(1)).encode(), "blockedby:1");
    assert_eq!(Link::RelatesTo(ID::new(0)).encode(), "relatesto:0");
    assert_eq!(Link::Blocks(ID::new(12)).to_string(), "blocks 12");
    assert_eq!(Link::BlockedBy(ID::new(1)).to_string(), "blocked by 1");
    assert_eq!(Link::RelatesTo(ID::new(0)).display(), "relates to 0");
    assert_eq!(Link::decode("blocks:12"), Some(Link::Blocks(ID::new(12))));
    assert_eq!(Link::decode("blocks"), None);
}

#[test]
fn id_from_text() {
    assert_eq!(ID::try_from("12").unwrap(), ID::new(12));
    assert_eq!(ID::new(12).value(), 12);
    assert_eq!(ID::new(12).to_string(), "12");
    assert!(matches!(ID::try_from("x"), Err(Error::InvalidValue(_))));
    assert!(matches!(ID::try_from(""), Err(Error::InvalidValue(_))));
    assert!(matches!(ID::try_from("-1"), Err(Error::InvalidValue(_))));
}

#[test]
fn try_from_string() {
    let csv: CSV<String> = CSV::try_from(String::from("1,2,3,4")).unwrap();
    assert_eq!(4, csv.len());
}

#[test]
fn decode_csv() {
    let csv: CSV<String> = CSV::decode("1,2,3,4").unwrap();
    assert_eq!(4, csv.len());
}

#[test]
fn csv_of_links_round_trip() {
    let csv: CSV<Link> = CSV::try_from(String::from(" blocks:1 , ,blockedby:2,")).unwrap();
    assert_eq!(csv.len(), 2);
    assert!(csv.contains(&Link::Blocks(ID::new(1))));
    assert!(csv.contains(&Link::BlockedBy(ID::new(2))));
    assert_eq!(csv.encode(), "blocks:1,blockedby:2");
    assert_eq!(csv.to_string(), "blocks 1, blocked by 2");
    assert_eq!(csv.display_values(), vec!["blocks 1".to_string(), "blocked by 2".to_string()]);
    let bad: Result<CSV<Link>, Error> = CSV::try_from(String::from("blocks:1,nonsense"));
    assert!(matches!(bad, Err(Error::InvalidValue(_))));
    let none: Option<CSV<Link>> = CSV::decode("blocks:x");
    assert!(none.is_none());
}

#[test]
fn csv_collection() {
    let mut csv: CSV<String> = CSV::empty();
    assert!(csv.is_empty());
    assert_eq!(csv.encode(), "");
    csv.push("a".to_string());
    csv.push("b".to_string());
    csv.push("a".to_string());
    assert_eq!(csv.len(), 3);
    assert!(!csv.is_empty());
    assert!(csv.has_any(&["x".to_string(), "b".to_string()]));
    assert!(!csv.has_any(&["x".to_string()]));
    assert!(!csv.has_any(&[]));
    let without_a = csv.remove(&"a".to_string());
    assert_eq!(without_a.len(), 1);
    assert_eq!(without_a.encode(), "b");
    csv.push_not_exists("b".to_string());
    assert_eq!(csv.len(), 3);
    csv.push_not_exists("c".to_string());
    assert_eq!(csv.len(), 4);
    assert_eq!(csv.duplicate().encode(), "a,b,a,c");
    let made = CSV::new(vec!["x".to_string()]);
    assert_eq!(made.len(), 1);
}

#[test]
fn tags_try_from() {
    let tags = Tags::try_from("one two").unwrap();
    assert_eq!(tags.tags.len(), 2);
}

#[test]
fn try_from_empty() {
    let tags = Tags::try_from("").unwrap();
    assert!(tags.tags.is_empty());
}

#[test]
fn has_any() {
    let tags = Tags::try_from("one two").unwrap();
    let a = vec!["one".to_string()];
    let b = vec!["three".to_string()];
    assert!(tags.has_any(&a));
    assert!(!tags.has_any(&b));
}

#[test]
fn tag_of_twenty_characters_is_accepted() {
    let twenty = "abcdefghijklmnopqrst";
    assert_eq!(twenty.chars().count(), 20);
    let tags = Tags::try_from(twenty).unwrap();
    assert_eq!(tags.values(), vec![twenty.to_string()]);
}

#[test]
fn tag_of_twenty_one_characters_is_rejected() {
    let twenty_one = "abcdefghijklmnopqrstu";
    assert_eq!(twenty_one.chars().count(), 21);
    assert!(matches!(Tags::try_from(twenty_one), Err(Error::InvalidValue(_))));
    let among = format!("ok {} fine", twenty_one);
    assert!(matches!(Tags::try_from(&among), Err(Error::InvalidValue(_))));
    assert!(matches!(
        Tags::from_words(vec!["a".to_string(), twenty_one.to_string()]),
        Err(Error::InvalidValue(_))
    ));
}

#[test]
fn tags_split_on_any_white_space() {
    let tags = Tags::try_from("  one\ttwo\n three ").unwrap();
    assert_eq!(
        tags.values(),
        vec!["one".to_string(), "two".to_string(), "three".to_string()]
    );
    assert_eq!(tags.to_string(), "one two three");
    assert!(Tags::empty().is_empty());
    assert_eq!(Tags::new(vec!["x".to_string()]).duplicate().values(), vec!["x".to_string()]);
}

#[test]
fn action_try_from() {
    assert_eq!(Action::try_from("add".to_string()).unwrap(), Action::Add);
    assert_eq!(Action::try_from("update".to_string()).unwrap(), Action::Update);
    assert_eq!(Action::try_from("remove".to_string()).unwrap(), Action::Remove);
    assert!(matches!(Action::try_from("Add".to_string()), Err(Error::InvalidValue(_))));
    assert_eq!(Action::Remove.to_string(), "remove");
}

#[test]
fn error_messages() {
    assert_eq!(Error::NotFound(Some("7".to_string())).message(), "not found: 7");
    assert_eq!(Error::NotFound(None).message(), "not found");
    assert_eq!(Error::new("boom".to_string()).message(), "boom");
    assert!(matches!(Error::new("boom".to_string()), Error::Store(_)));
    assert_eq!(Error::InvalidValue("a".to_string()).message(), "a");
    assert_eq!(Error::InvalidOperation("b".to_string()).message(), "b");
    assert_eq!(Error::AlreadyExists("c".to_string()).message(), "c");
    assert!(Error::NotFound(None).is_not_found());
    assert!(!Error::Store("x".to_string()).is_not_found());
}

#[test]
fn errors_say_what_was_wrong() {
    assert_eq!(ID::try_from("x1").unwrap_err().message(), "invalid id: x1");
    assert_eq!(Link::try_from("blocks").unwrap_err().message(), "invalid link: blocks");
    assert_eq!(Link::try_from("blocks:-1").unwrap_err().message(), "invalid id: -1");
    assert_eq!(Link::try_from("Likes:1").unwrap_err().message(), "invalid link: likes");
    assert_eq!(Status::try_from(" Do ne").unwrap_err().message(), "unknown status:  Do ne");
    assert_eq!(Prio::try_from("Urgent").unwrap_err().message(), "invalid prio value: Urgent");
    assert_eq!(
        Tags::try_from("abcdefghijklmnopqrstu").unwrap_err().message(),
        "invalid tag found: length greater than 20"
    );
    assert_eq!(
        Action::try_from("undo".to_string()).unwrap_err().message(),
        "invalid action: undo"
    );
}

#[test]
fn orders_compare_as_they_list() {
    assert!(Prio::Critical < Prio::High);
    assert!(Prio::High < Prio::Normal);
    assert!(Prio::Normal < Prio::Low);
    assert!(!(Prio::Low < Prio::Low));
    assert!(Status::Started < Status::New);
    assert!(Status::New < Status::Blocked);
    assert!(Status::Blocked < Status::Done);
    assert_eq!(Status::Done.partial_cmp(&Status::Done), Some(std::cmp::Ordering::Equal));
    assert_eq!(Prio::Low.partial_cmp(&Prio::High), Some(std::cmp::Ordering::Greater));
}

#[test]
fn numbers_are_read_as_decimal_digits() {
    assert_eq!(ID::try_from("+5").unwrap(), ID::new(5));
    assert_eq!(ID::try_from("007").unwrap(), ID::new(7));
    assert_eq!(ID::try_from("0").unwrap(), ID::new(0));
    assert_eq!(ID::try_from("65535").unwrap(), ID::new(65535));
    assert_eq!(ID::try_from("000065535").unwrap(), ID::new(65535));
    for bad in ["65536", "99999999999999999999", "", "+", "++5", "-0", "1 ", " 1", "1a", "0x1", "１"] {
        assert!(ID::try_from(bad).is_err(), "{}", bad);
        assert_eq!(bad.parse::<u16>().is_err(), ID::try_from(bad).is_err());
    }
    for n in [0u16, 9, 10, 99, 100, 4711, 65535] {
        assert_eq!(ID::new(n).to_string(), format!("{}", n));
        assert_eq!(ID::try_from(&ID::new(n).to_string()).unwrap(), ID::new(n));
    }
}
