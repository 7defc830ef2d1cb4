use todo::error::Error;
use todo::model::{Action, Kind, Link, Prio, Status, Tags, Todo, ID};
use todo::repository::Repository;
use todo::service::order::sort_todos;
use todo::service::{Changeset, Filter, Service, StatusFilter};

struct Fixture {
    svc: Service,
    todo_new: Todo,
    todo_done: Todo,
    todo_started: Todo,
    todo_blocked: Todo,
    ctx: String,
}

fn setup() -> Fixture {
    let mut svc = Service::new(Repository::new());
    let ctx = String::from("test");
    let todo_new = svc
        .add_todo(
            Status::New,
            Prio::Normal,
            "New subject".to_string(),
            "Description.".to_string(),
            Tags::new(vec!["new".to_string()]),
        )
        .unwrap();
    let todo_done = svc
        .add_todo(
            Status::Done,
            Prio::Normal,
            "Done subject".to_string(),
            "Description.".to_string(),
            Tags::new(vec!["done".to_string()]),
        )
        .unwrap();
    let todo_started = svc
        .add_todo(
            Status::Started,
            Prio::Normal,
            "Started something".to_string(),
            "Description".to_string(),
            Tags::new(vec!["done".to_string()]),
        )
        .unwrap();
    let todo_blocked = svc
        .add_todo(
            Status::Blocked,
            Prio::Normal,
            "Blocked by started".to_string(),
            "Just blocked".to_string(),
            Tags::empty(),
        )
        .unwrap();
    svc.add_context(&ctx).unwrap();
    svc.link(todo_started.id, Link::Blocks(todo_blocked.id)).unwrap();
    let todo_blocked = svc.get_todo(&todo_blocked.id).unwrap();
    Fixture { svc, todo_new, todo_done, todo_started, todo_blocked, ctx }
}

fn create_todo(svc: &mut Service) -> Todo {
    svc.add_todo(
        Status::New,
        Prio::Normal,
        "Subject".to_string(),
        "Description".to_string(),
        Tags::empty(),
    )
    .unwrap()
}

fn todo_count(svc: &Service) -> usize {
    svc.list_todos(None).unwrap().len()
}

fn plain(id: u16, created: i64, status: Status, prio: Prio) -> Todo {
    Todo::new(
        ID::new(id),
        created,
        status,
        prio,
        String::new(),
        String::new(),
        Tags::empty(),
        None,
        todo::model::CSV::empty(),
    )
}

fn ids(todos: &[Todo]) -> Vec<u16> {
    todos.iter().map(|t| t.id.value()).collect()
}

#[test]
fn add_todo() {
    let mut fixture = setup();
    let before = fixture.svc.repo.event_count();
    let todo = fixture
        .svc
        .add_todo(
            Status::New,
            Prio::Normal,
            "Subject".to_string(),
            "description".to_string(),
            Tags::empty(),
        )
        .unwrap();
    let after = fixture.svc.repo.event_count();
    assert!(after > before);
    assert_eq!(todo.subject, "Subject");
    assert_eq!(todo.status, Status::New);
}

#[test]
fn add_todo_at_assigns_the_next_id() {
    let mut svc = Service::new(Repository::new());
    let a = svc
        .add_todo_at(5, Status::New, Prio::High, "a".to_string(), "b".to_string(), Tags::empty())
        .unwrap();
    let b = svc
        .add_todo_at(6, Status::New, Prio::Low, "c".to_string(), "d".to_string(), Tags::empty())
        .unwrap();
    assert_eq!(a.id, ID::new(1));
    assert_eq!(b.id, ID::new(2));
    assert_eq!(a.created, 5);
    assert_eq!(a.prio, Prio::High);
    assert_eq!(a.description, "b");
    assert!(a.links.is_empty());
    assert_eq!(a.context, None);
    assert_eq!(svc.repo.count(), 2);
    let events = svc.repo.get_events();
    assert_eq!(events.len(), 2);
    assert_eq!(events[0].id, ID::new(1));
    assert_eq!(events[0].action, Action::Add);
    assert_eq!(events[0].kind.type_str(), "add_todo");
    assert!(matches!(&events[1].kind, Kind::AddTodo(t) if t.id == ID::new(2)));
}

#[test]
fn get_context() {
    let fixture = setup();
    let context = fixture.svc.get_context().unwrap();
    assert!(context.is_none());
}

#[test]
fn get_contexts() {
    let fixture = setup();
    let contexts = fixture.svc.list_contexts().unwrap();
    assert_eq!(contexts.len(), 1);
}

#[test]
fn add_context() {
    let mut fixture = setup();
    fixture.svc.add_context("new").unwrap();
    let contexts = fixture.svc.list_contexts().unwrap();
    assert_eq!(contexts.len(), 2);
}

#[test]
fn add_context_invalid_name() {
    let mut fixture = setup();
    let res = fixture.svc.add_context("  ");
    assert!(res.is_err());
}

#[test]
fn context_name_lengths() {
    let mut fixture = setup();
    assert!(matches!(fixture.svc.add_context("a"), Err(Error::InvalidValue(_))));
    assert!(matches!(fixture.svc.add_context(" a "), Err(Error::InvalidValue(_))));
    assert!(matches!(fixture.svc.add_context("abcdefghijk"), Err(Error::InvalidValue(_))));
    assert!(fixture.svc.add_context("ab").is_ok());
    assert!(fixture.svc.add_context("  abcdefghij  ").is_ok());
    assert_eq!(
        fixture.svc.list_contexts().unwrap(),
        vec!["test".to_string(), "ab".to_string(), "abcdefghij".to_string()]
    );
    assert!(matches!(fixture.svc.add_context("ab"), Err(Error::AlreadyExists(_))));
    assert!(fixture.svc.add_context("AB").is_ok());
}

#[test]
fn set_known_context() {
    let mut fixture = setup();
    fixture.svc.set_context(&fixture.ctx.clone()).unwrap();
    let context = fixture.svc.get_context().unwrap();
    assert_eq!(context, Some(fixture.ctx));
}

#[test]
fn set_unknown_context() {
    let mut fixture = setup();
    let res = fixture.svc.set_context("unknown");
    assert!(res.is_err());
    assert!(matches!(res, Err(Error::NotFound(Some(name))) if name == "unknown"));
}

#[test]
fn set_context_twice_writes_one_event() {
    let mut fixture = setup();
    let before = fixture.svc.repo.event_count();
    fixture.svc.set_context("test").unwrap();
    fixture.svc.set_context(" test ").unwrap();
    assert_eq!(fixture.svc.repo.event_count(), before + 1);
    fixture.svc.unset_context().unwrap();
    fixture.svc.unset_context().unwrap();
    assert_eq!(fixture.svc.repo.event_count(), before + 2);
    assert_eq!(fixture.svc.get_context().unwrap(), None);
}

#[test]
fn add_todo_with_context_set() {
    let mut fixture = setup();
    fixture.svc.set_context(&fixture.ctx.clone()).unwrap();
    let todo = create_todo(&mut fixture.svc);
    assert_eq!(todo.context, Some(fixture.ctx));
}

#[test]
fn remove_context_no_cascade() {
    let mut fixture = setup();
    fixture.svc.set_context(&fixture.ctx.clone()).unwrap();
    let a = create_todo(&mut fixture.svc);
    create_todo(&mut fixture.svc);
    let before = todo_count(&fixture.svc);
    fixture.svc.remove_context(&fixture.ctx.clone(), false).unwrap();

    let after = todo_count(&fixture.svc);
    assert_eq!(before, after);
    let context = fixture.svc.get_context().unwrap();
    assert!(context.is_none());
    assert_eq!(fixture.svc.get_todo(&a.id).unwrap().context, None);
    assert!(fixture.svc.list_contexts().unwrap().is_empty());
}

#[test]
fn remove_context_cascade() {
    let mut fixture = setup();
    fixture.svc.set_context(&fixture.ctx.clone()).unwrap();
    let a = create_todo(&mut fixture.svc);
    create_todo(&mut fixture.svc);
    let before = todo_count(&fixture.svc);
    fixture.svc.remove_context(&fixture.ctx.clone(), true).unwrap();

    let after = todo_count(&fixture.svc);
    assert_eq!(after, before - 2);
    let context = fixture.svc.get_context().unwrap();
    assert!(context.is_none());
    assert!(fixture.svc.get_todo(&a.id).is_err());
    let events = fixture.svc.repo.get_events();
    assert!(matches!(&events[events.len() - 1].kind, Kind::RemoveContext(name, todos)
        if name == "test" && todos.len() == 2));
}

#[test]
fn list_todos_filter_none() {
    let fixture = setup();
    let todos = fixture.svc.list_todos(None).unwrap();
    assert!(!todos.is_empty());
}

#[test]
fn list_todos_filter_status_done() {
    let fixture = setup();
    let filter = Filter::default().status(StatusFilter::Status(Status::Done));
    let todos = fixture.svc.list_todos(Some(filter)).unwrap();
    assert_eq!(todos.len(), 1);
}

#[test]
fn list_todos_with_context_set() {
    let mut fixture = setup();
    fixture.svc.set_context(&fixture.ctx.clone()).unwrap();
    let expected = create_todo(&mut fixture.svc);

    let filter = Filter::default();
    if let [actual] = &fixture.svc.list_todos(Some(filter)).unwrap()[..] {
        assert_eq!(expected.id, actual.id);
    } else {
        panic!();
    }
}

#[test]
fn list_todos_default_hides_done() {
    let fixture = setup();
    let todos = fixture.svc.list_todos(Some(Filter::default())).unwrap();
    assert_eq!(todos.len(), 3);
    assert!(todos.iter().all(|t| t.status != Status::Done));
    let all = fixture
        .svc
        .list_todos(Some(
            Filter::default()
                .status(StatusFilter::Any)
                .context(todo::service::ContextFilter::Any),
        ))
        .unwrap();
    assert_eq!(all.len(), 4);
    assert_eq!(all[3].status, Status::Done);
}

#[test]
fn sorting_by_priority() {
    let todos = vec![
        plain(1, 7, Status::New, Prio::Low),
        plain(2, 7, Status::New, Prio::Critical),
        plain(3, 7, Status::New, Prio::Normal),
    ];
    let sorted = sort_todos(todos);
    assert_eq!(
        sorted.iter().map(|t| t.prio).collect::<Vec<Prio>>(),
        vec![Prio::Critical, Prio::Normal, Prio::Low]
    );
}

#[test]
fn sorting_puts_done_last_and_breaks_ties() {
    let todos = vec![
        plain(1, 9, Status::Done, Prio::Critical),
        plain(2, 9, Status::Blocked, Prio::High),
        plain(3, 9, Status::New, Prio::High),
        plain(4, 8, Status::New, Prio::High),
        plain(5, 9, Status::Started, Prio::High),
        plain(6, 1, Status::New, Prio::Low),
        plain(7, 1, Status::Done, Prio::Low),
        plain(8, 9, Status::New, Prio::Critical),
    ];
    assert_eq!(ids(&sort_todos(todos)), vec![8, 5, 4, 3, 2, 6, 1, 7]);
    assert!(sort_todos(vec![]).is_empty());
    assert!(plain(1, 1, Status::New, Prio::High).sorts_before(&plain(2, 0, Status::New, Prio::Low)));
    assert!(!plain(1, 1, Status::Done, Prio::High).sorts_before(&plain(2, 0, Status::New, Prio::Low)));
}

#[test]
fn remove_remove_new_todo() {
    let mut fixture = setup();
    fixture.svc.remove_todo(&fixture.todo_new.id).unwrap();
    assert!(fixture.svc.get_todo(&fixture.todo_new.id).is_err());
}

#[test]
fn remove_remove_done_todo() {
    let mut fixture = setup();
    fixture.svc.remove_todo(&fixture.todo_done.id).unwrap();
    assert!(fixture.svc.get_todo(&fixture.todo_done.id).is_err());
}

#[test]
fn remove_remove_unknown() {
    let mut fixture = setup();
    let before = fixture.svc.repo.event_count();
    let count = fixture.svc.repo.count();
    let err = match fixture.svc.remove_todo(&ID::new(9999)) {
        Err(Error::NotFound(_)) => true,
        _ => false,
    };
    assert!(err);
    assert_eq!(fixture.svc.repo.event_count(), before);
    assert_eq!(fixture.svc.repo.count(), count);
}

#[test]
fn removing_todo_removes_links() {
    let mut fixture = setup();
    fixture.svc.remove_todo(&fixture.todo_started.id).unwrap();
    let todo = fixture.svc.get_todo(&fixture.todo_blocked.id).unwrap();
    assert!(matches!(todo.status, Status::New));
    assert!(todo.links.is_empty());
}

#[test]
fn removed_ids_are_not_given_again() {
    let mut fixture = setup();
    fixture.svc.remove_todo(&fixture.todo_blocked.id).unwrap();
    let next = create_todo(&mut fixture.svc);
    assert_eq!(next.id, ID::new(5));
    let started = fixture.svc.get_todo(&fixture.todo_started.id).unwrap();
    assert!(started.links.is_empty());
}

#[test]
fn update_unknown_id() {
    let mut fixture = setup();
    let res = fixture.svc.update_todo(&ID::new(999), Changeset::default());
    let error = res.err().unwrap().message();
    assert!(error.contains("not found"));
}

#[test]
fn update_status() {
    let mut fixture = setup();
    let todo = fixture
        .svc
        .update_todo(&fixture.todo_new.id, Changeset::default().with_status(Status::Done))
        .unwrap();
    assert_eq!(todo.subject, fixture.todo_new.subject);
    assert_eq!(todo.status, Status::Done);
    assert_eq!(todo.description, fixture.todo_new.description);
}

#[test]
fn update_subject() {
    let mut fixture = setup();
    let todo = fixture
        .svc
        .update_todo(
            &fixture.todo_new.id,
            Changeset::default()
                .with_subject("Updated subject".to_string())
                .with_status(Status::Done),
        )
        .unwrap();
    assert_eq!(todo.subject, "Updated subject");
    assert_eq!(todo.status, Status::Done);
}

#[test]
fn update_context() {
    let mut fixture = setup();
    let todo = fixture
        .svc
        .update_todo(&fixture.todo_new.id, Changeset::default().with_context("test".to_string()))
        .unwrap();
    assert_eq!(todo.context, Some("test".to_string()));
}

#[test]
fn update_with_nothing_set_writes_nothing() {
    let mut fixture = setup();
    let before = fixture.svc.repo.event_count();
    assert!(Changeset::default().is_empty());
    let todo = fixture.svc.update_todo(&fixture.todo_new.id, Changeset::default()).unwrap();
    assert_eq!(todo.subject, "New subject");
    assert_eq!(fixture.svc.repo.event_count(), before);
}

#[test]
fn update_sets_every_field_but_the_links() {
    let mut fixture = setup();
    let mut links = todo::model::CSV::empty();
    links.push(Link::RelatesTo(ID::new(1)));
    let cs = Changeset::default()
        .with_prio(Prio::Critical)
        .with_description("d".to_string())
        .with_tags(Tags::new(vec!["t".to_string()]))
        .with_links(links);
    assert!(!cs.is_empty());
    let todo = fixture.svc.update_todo(&fixture.todo_started.id, cs).unwrap();
    assert_eq!(todo.prio, Prio::Critical);
    assert_eq!(todo.description, "d");
    assert_eq!(todo.tags.values(), vec!["t".to_string()]);
    assert_eq!(todo.status, Status::Started);
    assert_eq!(todo.links.len(), 1);
    assert!(todo.links.contains(&Link::Blocks(fixture.todo_blocked.id)));
    assert_eq!(todo.created, fixture.todo_started.created);
}

#[test]
fn add_link() {
    let mut fx = setup();
    let link = Link::Blocks(fx.todo_new.id);
    fx.svc.link(fx.todo_started.id, link).unwrap();

    let bi_dir = link.bi_directional(fx.todo_started.id).unwrap();
    let todo_new = fx.svc.get_todo(&fx.todo_new.id).unwrap();
    assert!(todo_new.links.has_any(&[bi_dir]));
    let started = fx.svc.get_todo(&fx.todo_started.id).unwrap();
    assert!(started.links.contains(&link));
}

#[test]
fn linking_unknown_gives_error() {
    let mut fixture = setup();
    let link = Link::Blocks(ID::new(99));
    let res = fixture.svc.link(fixture.todo_new.id, link);
    assert!(res.is_err());
    assert!(matches!(res, Err(Error::InvalidOperation(_))));
    assert!(fixture.svc.get_todo(&fixture.todo_new.id).unwrap().links.is_empty());
    let res = fixture.svc.link(ID::new(99), Link::Blocks(fixture.todo_new.id));
    assert!(matches!(res, Err(Error::NotFound(Some(id))) if id == "99"));
}

#[test]
fn linking_self_gives_error() {
    let mut fixture = setup();
    let link = Link::Blocks(fixture.todo_new.id);
    let res = fixture.svc.link(fixture.todo_new.id, link);
    assert!(res.is_err());
    assert!(matches!(res, Err(Error::InvalidOperation(_))));
    let res = fixture.svc.link(fixture.todo_new.id, Link::RelatesTo(fixture.todo_new.id));
    assert!(matches!(res, Err(Error::InvalidOperation(_))));
}

#[test]
fn linking_same_on_other() {
    let mut fixture = setup();
    let link = Link::Blocks(fixture.todo_new.id);
    fixture.svc.link(fixture.todo_started.id, link).unwrap();

    let link = Link::Blocks(fixture.todo_started.id);
    let res = fixture.svc.link(fixture.todo_new.id, link);

    assert!(res.is_err());
    assert!(matches!(res, Err(Error::InvalidOperation(m)) if m == "circular link not allowed"));
}

#[test]
fn add_existing_does_nothing() {
    let mut fixture = setup();
    let link = Link::Blocks(fixture.todo_new.id);
    fixture.svc.link(fixture.todo_started.id, link).unwrap();
    let events = fixture.svc.repo.event_count();
    fixture.svc.link(fixture.todo_started.id, link).unwrap();
    assert_eq!(fixture.svc.repo.event_count(), events);
    let started = fixture.svc.get_todo(&fixture.todo_started.id).unwrap();
    assert_eq!(started.links.len(), 2);
    let new = fixture.svc.get_todo(&fixture.todo_new.id).unwrap();
    assert_eq!(new.links.len(), 1);
}

#[test]
fn add_blocked_by_sets_status() {
    let mut fixture = setup();
    let link = Link::BlockedBy(fixture.todo_started.id);
    fixture.svc.link(fixture.todo_new.id, link).unwrap();

    let todo_new = fixture.svc.get_todo(&fixture.todo_new.id).unwrap();
    assert!(matches!(todo_new.status, Status::Blocked));
}

#[test]
fn add_blocks_sets_status() {
    let mut fixture = setup();
    let link = Link::Blocks(fixture.todo_new.id);
    fixture.svc.link(fixture.todo_started.id, link).unwrap();

    let todo_new = fixture.svc.get_todo(&fixture.todo_new.id).unwrap();
    assert!(matches!(todo_new.status, Status::Blocked));
}

#[test]
fn unlink_block_removes_blockedby() {
    let mut fixture = setup();
    let link = Link::Blocks(fixture.todo_blocked.id);
    fixture.svc.unlink(fixture.todo_started.id, link).unwrap();

    let todo = fixture.svc.get_todo(&fixture.todo_blocked.id).unwrap();
    assert!(matches!(todo.status, Status::New));
    assert!(todo.links.is_empty());
    let started = fixture.svc.get_todo(&fixture.todo_started.id).unwrap();
    assert!(!started.links.contains(&link));
}

#[test]
fn unlink_with_another_blocker_left_stays_blocked() {
    let mut fixture = setup();
    fixture.svc.link(fixture.todo_new.id, Link::Blocks(fixture.todo_blocked.id)).unwrap();
    fixture
        .svc
        .unlink(fixture.todo_blocked.id, Link::BlockedBy(fixture.todo_started.id))
        .unwrap();
    let todo = fixture.svc.get_todo(&fixture.todo_blocked.id).unwrap();
    assert_eq!(todo.status, Status::Blocked);
    assert_eq!(todo.links.len(), 1);
    fixture.svc.unlink_block(fixture.todo_new.id, fixture.todo_blocked.id).unwrap();
    let todo = fixture.svc.get_todo(&fixture.todo_blocked.id).unwrap();
    assert_eq!(todo.status, Status::New);
}

#[test]
fn unlink_of_unknown_todo_is_not_found() {
    let mut fixture = setup();
    let res = fixture.svc.unlink(ID::new(77), Link::Blocks(fixture.todo_new.id));
    assert!(matches!(res, Err(Error::NotFound(Some(id))) if id == "77"));
    let res = fixture.svc.unlink(ID::new(77), Link::RelatesTo(fixture.todo_new.id));
    assert!(matches!(res, Err(Error::NotFound(_))));
    let absent = fixture.svc.unlink(fixture.todo_new.id, Link::Blocks(fixture.todo_done.id));
    assert!(absent.is_ok());
}

#[test]
fn relation_is_held_by_one_side_only() {
    let mut fixture = setup();
    let link = Link::RelatesTo(fixture.todo_done.id);
    let todo = fixture.svc.link(fixture.todo_new.id, link).unwrap();
    assert!(todo.links.contains(&link));
    assert_eq!(todo.status, Status::New);
    fixture.svc.link(fixture.todo_new.id, link).unwrap();
    assert_eq!(fixture.svc.get_todo(&fixture.todo_new.id).unwrap().links.len(), 1);
    let other = fixture.svc.get_todo(&fixture.todo_done.id).unwrap();
    assert!(other.links.is_empty());
    assert_eq!(other.status, Status::Done);
    let todo = fixture.svc.unlink(fixture.todo_new.id, link).unwrap();
    assert!(todo.links.is_empty());
}

#[test]
fn setting_blocking_done_removes_blockedby() {
    let mut fixture = setup();
    let cs = Changeset::default().with_status(Status::Done);
    fixture.svc.update_todo(&fixture.todo_started.id, cs).unwrap();

    let todo = fixture.svc.get_todo(&fixture.todo_blocked.id).unwrap();
    assert!(matches!(todo.status, Status::New));
    let started = fixture.svc.get_todo(&fixture.todo_started.id).unwrap();
    assert_eq!(started.status, Status::Done);
    assert!(started.links.is_empty());
}

#[test]
fn starting_a_blocked_todo_lets_go_of_its_blockers() {
    let mut fixture = setup();
    let cs = Changeset::default().with_status(Status::Started);
    let todo = fixture.svc.update_todo(&fixture.todo_blocked.id, cs).unwrap();
    assert_eq!(todo.status, Status::Started);
    assert!(todo.links.is_empty());
    let started = fixture.svc.get_todo(&fixture.todo_started.id).unwrap();
    assert!(started.links.is_empty());
}

#[test]
fn store_keeps_what_it_is_given() {
    let mut repo = Repository::new();
    assert_eq!(repo.count(), 0);
    let stored = repo.add_todo(plain(0, 3, Status::New, Prio::Low)).unwrap();
    assert_eq!(stored.id, ID::new(1));
    assert_eq!(repo.position(ID::new(1)), Some(0));
    assert_eq!(repo.position(ID::new(2)), None);
    let mut changed = stored.duplicate();
    changed.subject = "x".to_string();
    repo.replace_todo(&changed).unwrap();
    assert_eq!(repo.get_todo(&ID::new(1)).unwrap().subject, "x");
    assert!(matches!(
        repo.replace_todo(&plain(9, 3, Status::New, Prio::Low)),
        Err(Error::NotFound(Some(id))) if id == "9"
    ));
    assert_eq!(repo.get_todos().len(), 1);
    let gone = repo.remove_todo(&ID::new(1)).unwrap();
    assert_eq!(gone.subject, "x");
    assert!(matches!(repo.remove_todo(&ID::new(1)), Err(Error::NotFound(_))));
    repo.add_context("work");
    repo.add_context("home");
    assert!(repo.has_context("home"));
    repo.remove_context("work");
    assert_eq!(repo.get_contexts(), vec!["home".to_string()]);
    repo.set_context("home");
    assert_eq!(repo.get_context(), Some("home".to_string()));
    repo.unset_context();
    assert_eq!(repo.get_context(), None);
}

#[test]
fn todo_reads() {
    let mut t = plain(1, 0, Status::Blocked, Prio::Low);
    assert!(t.is_blocked());
    assert!(!t.is_done());
    t.links.push(Link::Blocks(ID::new(2)));
    t.links.push(Link::RelatesTo(ID::new(3)));
    t.links.push(Link::Blocks(ID::new(4)));
    assert_eq!(t.blocks(), vec![Link::Blocks(ID::new(2)), Link::Blocks(ID::new(4))]);
    t.status = Status::Done;
    assert!(t.is_done());
}

#[test]
fn todos_compare_as_they_list() {
    let a = plain(1, 5, Status::New, Prio::High);
    let b = plain(2, 5, Status::New, Prio::Low);
    let done = plain(3, 1, Status::Done, Prio::Critical);
    assert!(a < b);
    assert!(b > a);
    assert!(a < done);
    assert!(done > a);
    assert_eq!(a.partial_cmp(&plain(9, 5, Status::New, Prio::High)), Some(std::cmp::Ordering::Equal));
    assert!(a == plain(1, 0, Status::Done, Prio::Low));
    assert!(a != b);
}

#[test]
fn context_errors_say_what_was_wrong() {
    let mut fixture = setup();
    assert_eq!(
        fixture.svc.add_context("   ").unwrap_err().message(),
        "invalid context name: empty"
    );
    assert_eq!(
        fixture.svc.add_context("a").unwrap_err().message(),
        "invalid context name: length less than 2"
    );
    assert_eq!(
        fixture.svc.add_context("abcdefghijk").unwrap_err().message(),
        "invalid context name: length greater than 10"
    );
    assert_eq!(
        fixture.svc.add_context("test").unwrap_err().message(),
        "context name already exists: test"
    );
    assert_eq!(fixture.svc.set_context("nowhere").unwrap_err().message(), "not found: nowhere");
    assert_eq!(
        fixture.svc.link(fixture.todo_new.id, Link::Blocks(fixture.todo_new.id)).unwrap_err().message(),
        "cannot link to self"
    );
    assert_eq!(
        fixture.svc.link(fixture.todo_new.id, Link::Blocks(ID::new(99))).unwrap_err().message(),
        "cannot link to a todo that does not exist"
    );
}
