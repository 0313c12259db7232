use dualis::queue::{WorkItem, WorkQueue};

fn item(id: &str, q: &str) -> WorkItem {
    WorkItem::new(id.to_string(), q.to_string())
}

#[test]
fn jobs_come_out_in_order_and_once() {
    let mut q = WorkQueue::new();
    q.enqueue(item("a", "qa"), false);
    q.enqueue(item("b", "qb"), false);
    q.enqueue(item("a", "other"), false);
    assert_eq!(q.waiting(), 2);
    let first = q.pop().unwrap();
    assert_eq!((first.track_id.as_str(), first.query.as_str()), ("a", "qa"));
    q.enqueue(item("a", "again"), true);
    assert_eq!(q.waiting(), 1);
    q.finish("a");
    q.enqueue(item("a", "again"), true);
    assert_eq!(q.waiting(), 2);
    assert_eq!(q.pop().unwrap().query, "again");
    assert_eq!(q.pop().unwrap().track_id, "b");
    assert!(q.pop().is_none());
}

#[test]
fn prioritising_moves_a_waiting_job_to_the_front() {
    let mut q = WorkQueue::new();
    q.enqueue(item("a", "1"), false);
    q.enqueue(item("b", "2"), false);
    q.enqueue(item("c", "3"), false);
    q.enqueue(item("c", "ignored"), true);
    assert_eq!(q.waiting(), 3);
    let c = q.pop().unwrap();
    assert_eq!((c.track_id.as_str(), c.query.as_str()), ("c", "3"));
    q.finish("b");
    assert_eq!(q.waiting(), 1);
    assert_eq!(q.pop().unwrap().track_id, "a");
}
