use todo::model::{Event, Action, Kind, Prio, Status, Tags, Todo, CSV, ID};
use todo::repository::Repository;
use todo::service::{PruneFilter, Service};

fn plain(id: u16, created: i64, status: Status) -> Todo {
    Todo::new(
        ID::new(id),
        created,
        status,
        Prio::Normal,
        "s".to_string(),
        "d".to_string(),
        Tags::empty(),
        None,
        CSV::empty(),
    )
}

#[test]
fn kinds_describe_themselves() {
    assert_eq!(Kind::AddTodo(plain(3, 0, Status::New)).to_string(), "Added todo with ID 3");
    assert_eq!(Kind::RemoveTodo(plain(4, 0, Status::New)).to_string(), "Removed todo with ID 4");
    assert_eq!(
        Kind::AddContext("work".to_string()).to_string(),
        "Added new context with name 'work'"
    );
    assert_eq!(
        Kind::RemoveContext("work".to_string(), vec![plain(1, 0, Status::New)]).to_string(),
        "Removed context with name 'work' and 1 associated todos"
    );
    assert_eq!(
        Kind::SetContext { before: "".to_string(), after: "a".to_string() }.to_string(),
        "Context set to 'a'"
    );
    assert_eq!(
        Kind::SetContext { before: "a".to_string(), after: "".to_string() }.to_string(),
        "Unset context from 'a'"
    );
    assert_eq!(
        Kind::SetContext { before: "a".to_string(), after: "b".to_string() }.to_string(),
        "Changed context from 'a' to 'b'"
    );
}

#[test]
fn updates_list_what_changed() {
    let before = plain(1, 0, Status::New);
    let same = Kind::UpdateTodo { before: before.duplicate(), after: before.duplicate() };
    assert_eq!(same.to_string(), "Updated todo: no changes");
    let mut after = before.duplicate();
    after.status = Status::Done;
    after.prio = Prio::High;
    after.subject = "t".to_string();
    after.description = "e".to_string();
    after.context = Some("home".to_string());
    let kind = Kind::UpdateTodo { before: before.duplicate(), after: after.duplicate() };
    assert_eq!(
        kind.to_string(),
        "Updated todo: status: 'new' -> 'done', prio: 'normal' -> 'high', \
         subject: 's' -> 't', description: <...>, context: set to 'home'"
    );
    assert_eq!(kind.type_str(), "update_todo");
    assert_eq!(kind.action(), Action::Update);
    let mut moved = after.duplicate();
    moved.context = Some("work".to_string());
    assert_eq!(
        Kind::UpdateTodo { before: after.duplicate(), after: moved }.to_string(),
        "Updated todo: context: 'home' -> 'work'"
    );
    let mut cleared = after.duplicate();
    cleared.context = None;
    let event = Event::new(
        ID::new(9),
        Action::Update,
        Kind::UpdateTodo { before: after, after: cleared },
        5,
    );
    assert_eq!(event.to_string(), "9 -- Updated todo: context: removed from 'home'");
    assert_eq!(event.timestamp, 5);
}

#[test]
fn prune_removes_what_the_filter_targets() {
    let mut svc = Service::new(Repository::new());
    for (created, status) in [(1, Status::New), (2, Status::Done), (3, Status::Started), (4, Status::Done)] {
        svc.add_todo_at(created, status, Prio::Normal, "s".to_string(), "d".to_string(), Tags::empty())
            .unwrap();
    }
    let all = svc.repo.get_todos();
    let filter = PruneFilter::default().with_done(true);
    assert_eq!(filter.apply(all).iter().map(|t| t.id.value()).collect::<Vec<u16>>(), vec![2, 4]);
    assert!(PruneFilter::default().apply(svc.repo.get_todos()).is_empty());
    let old = PruneFilter::default().with_before(3);
    assert_eq!(old.apply(svc.repo.get_todos()).len(), 2);
    let young = PruneFilter::default().with_after(3);
    assert_eq!(young.apply(svc.repo.get_todos()).len(), 1);
    svc.prune(filter).unwrap();
    assert_eq!(
        svc.repo.get_todos().iter().map(|t| t.id.value()).collect::<Vec<u16>>(),
        vec![1, 3]
    );
    assert_eq!(svc.repo.event_count(), 6);
}

#[test]
fn restore_checks_the_identifiers() {
    let ok = Repository::restore(
        vec![plain(1, 0, Status::New), plain(5, 0, Status::New)],
        6,
        Some("work".to_string()),
        vec!["work".to_string()],
        vec![],
    );
    let repo = ok.unwrap();
    assert_eq!(repo.count(), 2);
    assert_eq!(repo.next_id(), 6);
    assert_eq!(repo.get_context(), Some("work".to_string()));
    let twice = Repository::restore(
        vec![plain(1, 0, Status::New), plain(1, 0, Status::New)],
        6,
        None,
        vec![],
        vec![],
    );
    assert!(twice.is_none());
    let beyond = Repository::restore(vec![plain(6, 0, Status::New)], 6, None, vec![], vec![]);
    assert!(beyond.is_none());
}
