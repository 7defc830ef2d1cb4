use todo::format::table::{
    format_row, height_of, pad, table_text, timestamp_text, truncate, Align, Col, Header,
};
use todo::format::{Card, Formatter, TableFormatter};
use todo::model::{Link, Prio, Status, Tags, Todo, CSV, ID};
use todo::repository::Repository;
use todo::style::StyleDisplay;
use todo::service::Service;
use todo::util::{chunk_words, line_chunks, word_chunks};

fn build_todos() -> Vec<Todo> {
    let dt = 1_700_000_000_000;
    vec![
        Todo::new(
            ID::new(1),
            dt,
            Status::New,
            Prio::Low,
            "new|no tags|no context".to_string(),
            "1st".to_string(),
            Tags::empty(),
            None,
            CSV::empty(),
        ),
        Todo::new(
            ID::new(2),
            dt,
            Status::New,
            Prio::Normal,
            "new|feat|no context".to_string(),
            "2nd".to_string(),
            Tags::new(vec!["feat".to_string()]),
            None,
            CSV::empty(),
        ),
        Todo::new(
            ID::new(3),
            dt,
            Status::New,
            Prio::High,
            "new|feat,test|no context".to_string(),
            "3rd".to_string(),
            Tags::new(vec!["feat".to_string(), "test".to_string()]),
            None,
            CSV::empty(),
        ),
        Todo::new(
            ID::new(4),
            dt,
            Status::New,
            Prio::Normal,
            "new|no tags|context:home".to_string(),
            "4th".to_string(),
            Tags::empty(),
            Some("home".to_string()),
            CSV::empty(),
        ),
        Todo::new(
            ID::new(5),
            dt,
            Status::Done,
            Prio::Critical,
            "done|test|context:home".to_string(),
            "4th".to_string(),
            Tags::new(vec!["test".to_string()]),
            Some("home".to_string()),
            CSV::empty(),
        ),
    ]
}

#[test]
fn test_word_chunks() {
    let s = "one two three four"; // length == 18
    let a = word_chunks(s, 10);
    assert_eq!(a.len(), 2);

    let b = word_chunks(s, 5);
    assert_eq!(b.len(), 4);
}

#[test]
fn word_chunks_exactly() {
    let s = "one two three four";
    assert_eq!(word_chunks(s, 10), vec!["one two ".to_string(), "three four".to_string()]);
    assert_eq!(
        word_chunks(s, 5),
        vec!["one ".to_string(), "two ".to_string(), "three".to_string(), "four ".to_string()]
    );
    assert_eq!(word_chunks(s, 19), vec![s.to_string()]);
    assert_eq!(word_chunks("ab\ncd", 3), vec!["ab".to_string(), "cd".to_string()]);
    assert!(word_chunks("", 3).is_empty());
}

#[test]
fn long_words_are_broken_with_a_hyphen() {
    assert_eq!(
        line_chunks("abcdefghij", 5),
        vec!["abc-".to_string(), "def-".to_string(), "ghij ".to_string()]
    );
    assert_eq!(line_chunks("abcdefg", 3), vec![
        "a-".to_string(),
        "b-".to_string(),
        "c-".to_string(),
        "d-".to_string(),
        "efg".to_string()
    ]);
    assert_eq!(line_chunks("     ", 3), vec!["".to_string()]);
    assert_eq!(chunk_words(&vec![], 3), vec!["".to_string()]);
    for line in word_chunks("a somewhat longer text with extraordinarily long words", 7) {
        assert!(line.chars().count() <= 7);
    }
}

#[test]
fn pad_fills_up_to_the_size() {
    assert_eq!(pad("ab", 5, &Align::Left), "ab   ");
    assert_eq!(pad("ab", 5, &Align::Center), " ab  ");
    assert_eq!(pad("ab", 6, &Align::Center), "  ab  ");
    assert_eq!(pad("ab", 3, &Align::Center), " ab");
    assert_eq!(pad("ab", 2, &Align::Center), "ab");
    assert_eq!(pad("", 2, &Align::Left), "  ");
}

#[test]
fn truncate_cuts_long_text() {
    assert_eq!(truncate("short", 12), "short");
    assert_eq!(truncate("exactly twelve", 12), "exactly  ...");
    assert_eq!(truncate("abcdefghijkl", 12), "abcdefgh ...");
    assert_eq!(truncate("abcdefghijk", 12), "abcdefghijk");
    assert_eq!(truncate("abcd", 4), " ...");
}

#[test]
fn columns_and_rows() {
    let a = Col::new(5, &"one two".to_string(), Align::Left);
    let b = Col::new(3, &"x".to_string(), Align::Left);
    assert_eq!(a.height(), 2);
    assert_eq!(b.height(), 1);
    assert_eq!(a.nth(0), "one  ");
    assert_eq!(a.nth(1), "two  ");
    assert_eq!(a.nth(2), "     ");
    assert_eq!(b.nth(1), "   ");
    let cols = vec![a, b];
    assert_eq!(height_of(&cols), 2);
    assert_eq!(format_row(&cols), "one   x  \ntwo      ");
    assert_eq!(format_row(&[]), "");
    let head = Col::new(8, &Header::from("Status"), Align::Left);
    assert!(head.nth(0).contains("Status  "));
    assert!(head.nth(0).len() > 8);
}

#[test]
fn test_format_todos() {
    let f = TableFormatter::new(true);
    let todos = build_todos();
    let s = f.todos(&todos);
    assert!(!s.is_empty());
}

#[test]
fn test_format_todo() {
    let f = TableFormatter::new(true);
    let todos = build_todos();
    let todo = todos.get(0).unwrap();
    let s = f.todo(todo);
    assert!(!s.is_empty());
}

#[test]
fn table_holds_a_row_for_each_todo() {
    let f = TableFormatter::new(true);
    let s = f.todos(&build_todos());
    assert_eq!(s.lines().count(), 6);
    assert!(s.contains("Subject"));
    assert!(s.contains("new|feat|no context"));
    assert!(s.contains("home"));
    let cols = TableFormatter::map_todo(&build_todos()[3]);
    assert_eq!(cols.len(), 5);
    assert_eq!(cols[0].nth(0), " 4 ");
    assert_eq!(cols[3].nth(0), "home        ");
    assert_eq!(cols[4].nth(0).chars().count(), 50);
}

#[test]
fn test_format() {
    let todo = Todo::new(
        ID::new(1),
        1_700_000_000_000,
        Status::New,
        Prio::Normal,
        "".to_string(),
        "".to_string(),
        Tags::empty(),
        None,
        CSV::empty(),
    );

    let card = Card::new(true);
    let s = card.format(&todo);
    assert!(!s.is_empty());
}

#[test]
fn plain_card_shows_every_field() {
    let mut links = CSV::empty();
    links.push(Link::Blocks(ID::new(2)));
    links.push(Link::RelatesTo(ID::new(3)));
    let todo = Todo::new(
        ID::new(1),
        1_700_000_000_000,
        Status::Started,
        Prio::High,
        "Subject".to_string(),
        "What is to be done".to_string(),
        Tags::new(vec!["a".to_string(), "b".to_string()]),
        Some("work".to_string()),
        links,
    );
    let card = Card::new(false);
    let s = card.format(&todo);
    let lines: Vec<&str> = s.lines().collect();
    assert_eq!(lines[0], "Subject");
    assert_eq!(lines[1], "");
    assert!(lines[2].starts_with("Created:     2023-"));
    assert_eq!(lines[3], "Status:      started");
    assert_eq!(lines[4], "Priority:    high");
    assert_eq!(lines[5], "Context:     work");
    assert_eq!(lines[6], "Tags:        a b");
    assert_eq!(lines[7], "Links:       blocks 2");
    assert_eq!(lines[8], "             relates to 3");
    assert_eq!(lines[9], "");
    assert_eq!(lines[10], "Description: What is to be done");
    assert_eq!(lines.len(), 11);
    assert_eq!(card.format_links(&CSV::empty()), None);
    assert_eq!(card.format_description(""), None);
}

#[test]
fn card_with_a_given_time() {
    let todo = Todo::new(
        ID::new(1),
        0,
        Status::New,
        Prio::Low,
        "S".to_string(),
        "".to_string(),
        Tags::empty(),
        None,
        CSV::empty(),
    );
    let card = Card::new(false);
    assert_eq!(
        card.format_at(&todo, "then"),
        "S\n\nCreated:     then\nStatus:      new\nPriority:    low"
    );
    let coloured = Card::new(true).format_at(&todo, "then");
    assert!(coloured.contains("then"));
    assert_ne!(coloured, card.format_at(&todo, "then"));
}

#[test]
fn table_of_events() {
    let mut svc = Service::new(Repository::new());
    svc.add_context("work").unwrap();
    svc.add_todo_at(1, Status::New, Prio::Low, "s".to_string(), "d".to_string(), Tags::empty())
        .unwrap();
    let f = TableFormatter::new(true);
    let s = f.events(svc.repo.get_events());
    assert_eq!(s.lines().count(), 3);
    assert!(s.contains("Details"));
    assert!(s.contains("Added new context with name 'work'"));
    assert!(s.contains("Added todo with ID 1"));
    let cols = TableFormatter::map_event(&svc.repo.get_events()[1]);
    assert_eq!(cols.len(), 4);
    assert_eq!(cols[0].nth(0), " 2 ");
    assert!(cols[1].nth(0).contains("  add   "));
    assert_eq!(cols[3].nth(0).trim_end(), "Added todo with ID 1");
}

#[test]
fn times_are_shown_to_the_second() {
    assert_eq!(timestamp_text(0), "1970-01-01 00:00:00");
    assert_eq!(timestamp_text(999), "1970-01-01 00:00:00");
    assert_eq!(timestamp_text(1_000), "1970-01-01 00:00:01");
    assert_eq!(timestamp_text(-1), "1969-12-31 23:59:59");
    assert_eq!(timestamp_text(-1_000), "1969-12-31 23:59:59");
    assert_eq!(timestamp_text(-1_001), "1969-12-31 23:59:58");
    assert_eq!(timestamp_text(1_700_000_000_000), "2023-11-14 22:13:20");
    assert_eq!(timestamp_text(i64::MAX), "");
    assert_eq!(timestamp_text(i64::MIN), "");
}

#[test]
fn table_is_head_and_rows() {
    assert_eq!(table_text("head".to_string(), &vec![]), "head\n");
    assert_eq!(table_text("head".to_string(), &vec!["a".to_string()]), "head\na");
    assert_eq!(
        table_text("head".to_string(), &vec!["a".to_string(), "b".to_string()]),
        "head\na\nb"
    );
    let f = TableFormatter::new(false);
    let todos = build_todos();
    let all = f.todos(&todos);
    let head = f.todo_table_header();
    assert!(all.starts_with(&format!("{}\n", head)));
    let rows: Vec<String> = todos.iter().map(|t| format_row(&TableFormatter::map_todo(t))).collect();
    assert_eq!(all, format!("{}\n{}", head, rows.join("\n")));
    assert_eq!(f.todo(&todos[1]), format!("{}\n{}", head, rows[1]));
    assert_eq!(
        rows[1],
        format!(
            " 2  {} {} {} {}",
            "normal    ",
            todos[1].status.style().replace("new", "new     "),
            " ".repeat(12),
            format!("{:<50}", "new|feat|no context")
        )
    );
    assert_eq!(f.events(&[]), format!("{}\n", f.event_table_header()));
}
