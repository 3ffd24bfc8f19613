use netidx_excel::dispatch::IRTDUpdateEventWrap;
use netidx_excel::registry::SubscriptionHandle;
use netidx_excel::server::{refresh_cells, Server, SubscribeError};
use netidx_excel::value::{Event, SubId, TopicId, Value};
use netidx_excel::variant::Variant;
use std::rc::Rc;
use std::sync::mpsc::{channel, Receiver};

type Outcome = Result<(SubscriptionHandle<String>, Event), SubscribeError>;

fn started() -> (Server<String>, Receiver<()>) {
    let (tx, rx) = channel();
    let mut server = Server::new();
    server.server_start(IRTDUpdateEventWrap::new(tx));
    (server, rx)
}

fn subscribed(id: u64, path: &str) -> Outcome {
    Ok((SubscriptionHandle { id: SubId(id), link: path.to_string() }, Event::Unsubscribed))
}

fn signals(rx: &Receiver<()>) -> usize {
    rx.try_iter().count()
}

fn pull(server: &mut Server<String>) -> Vec<(i32, Variant)> {
    let pending = server.refresh_data();
    let cells = refresh_cells(&pending);
    assert_eq!(cells.len(), pending.len());
    let mut out: Vec<(i32, Variant)> = cells.into_iter().map(|(t, c)| (t.0, c)).collect();
    out.sort_by_key(|p| p.0);
    out
}

fn update(id: u64, v: Value) -> (SubId, Event) {
    (SubId(id), Event::Update(v))
}

#[test]
fn update_signals_the_host_once() {
    let (tx, rx) = channel();
    let mut n = IRTDUpdateEventWrap::new(tx);
    assert_eq!(signals(&rx), 0);
    n.update_notify();
    assert_eq!(signals(&rx), 1);
    n.update_notify();
    n.update_notify();
    assert_eq!(signals(&rx), 2);
}

#[test]
fn update_notify_survives_a_hung_up_host() {
    let (tx, rx) = channel();
    let mut n = IRTDUpdateEventWrap::new(tx);
    drop(rx);
    n.update_notify();
}

#[test]
fn connected_topic_shows_the_update_on_refresh() {
    let (mut server, _rx) = started();
    assert_eq!(server.connect_data(TopicId(1), subscribed(10, "/a")), Ok(()));
    server.updates(vec![update(10, Value::I32(42))]);
    let cells = pull(&mut server);
    assert_eq!(cells, vec![(1, Variant::I4(42))]);
    assert_eq!(cells.len(), 1);
}

#[test]
fn topics_on_one_subscription_all_see_its_update() {
    let (mut server, _rx) = started();
    assert!(server.connect_data(TopicId(1), subscribed(10, "/a")).is_ok());
    assert!(server.connect_data(TopicId(2), subscribed(10, "/a")).is_ok());
    server.updates(vec![update(10, Value::String("v".to_string()))]);
    let cells = pull(&mut server);
    assert_eq!(
        cells,
        vec![(1, Variant::Bstr("v".to_string())), (2, Variant::Bstr("v".to_string()))]
    );
}

#[test]
fn disconnected_topic_gets_no_entry() {
    let (mut server, _rx) = started();
    assert!(server.connect_data(TopicId(1), subscribed(10, "/a")).is_ok());
    server.disconnect_data(TopicId(1));
    server.updates(vec![update(10, Value::I32(1))]);
    assert_eq!(pull(&mut server), vec![]);
}

#[test]
fn failed_connect_reports_the_error_and_spares_the_rest() {
    let (mut server, rx) = started();
    assert!(server.connect_data(TopicId(1), subscribed(10, "/a")).is_ok());
    assert_eq!(signals(&rx), 1);
    let refusal = SubscribeError { message: "bad path".to_string() };
    assert_eq!(server.connect_data(TopicId(2), Err(refusal.clone())), Err(refusal));
    assert_eq!(signals(&rx), 0);
    server.updates(vec![update(10, Value::U32(5))]);
    assert_eq!(pull(&mut server), vec![(1, Variant::UI4(5))]);
}

#[test]
fn byte_blob_is_shown_as_the_binary_marker() {
    let (mut server, _rx) = started();
    assert!(server.connect_data(TopicId(1), subscribed(10, "/a")).is_ok());
    server.updates(vec![update(10, Value::Bytes(vec![1, 2, 3]))]);
    assert_eq!(pull(&mut server), vec![(1, Variant::Bstr("#BIN".to_string()))]);
}

#[test]
fn connect_seeds_the_last_known_value_and_signals() {
    let (mut server, rx) = started();
    let last = Event::Update(Value::F64(2.5f64.to_bits()));
    let handle = SubscriptionHandle { id: SubId(3), link: "/x".to_string() };
    assert!(server.connect_data(TopicId(9), Ok((handle, last))).is_ok());
    assert_eq!(signals(&rx), 1);
    assert_eq!(pull(&mut server), vec![(9, Variant::R8(2.5f64.to_bits()))]);
    assert!(server.connect_data(TopicId(8), subscribed(4, "/y")).is_ok());
    assert!(server.connect_data(TopicId(7), subscribed(4, "/y")).is_ok());
    assert_eq!(signals(&rx), 2);
    assert_eq!(
        pull(&mut server),
        vec![(7, Variant::Bstr("#SUB".to_string())), (8, Variant::Bstr("#SUB".to_string()))]
    );
}

#[test]
fn second_refresh_without_updates_is_empty() {
    let (mut server, _rx) = started();
    assert!(server.connect_data(TopicId(1), subscribed(10, "/a")).is_ok());
    assert_eq!(pull(&mut server).len(), 1);
    assert_eq!(pull(&mut server), vec![]);
    assert!(server.refresh_data().is_empty());
}

#[test]
fn last_write_wins_within_and_across_batches() {
    let (mut server, _rx) = started();
    assert!(server.connect_data(TopicId(1), subscribed(10, "/a")).is_ok());
    assert!(server.connect_data(TopicId(2), subscribed(20, "/b")).is_ok());
    server.updates(vec![
        update(10, Value::I32(1)),
        update(20, Value::I32(100)),
        update(10, Value::I32(2)),
    ]);
    server.updates(vec![update(10, Value::I32(3)), (SubId(30), Event::Unsubscribed)]);
    assert_eq!(pull(&mut server), vec![(1, Variant::I4(3)), (2, Variant::I4(100))]);
    server.updates(vec![(SubId(20), Event::Unsubscribed)]);
    assert_eq!(pull(&mut server), vec![(2, Variant::Bstr("#SUB".to_string()))]);
}

#[test]
fn notifier_fires_only_on_the_empty_to_nonempty_edge() {
    let (mut server, rx) = started();
    assert!(server.connect_data(TopicId(1), subscribed(10, "/a")).is_ok());
    assert_eq!(signals(&rx), 1);
    server.updates(vec![update(10, Value::I32(1))]);
    assert_eq!(signals(&rx), 0);
    assert_eq!(pull(&mut server).len(), 1);
    server.updates(vec![update(99, Value::I32(1))]);
    assert_eq!(signals(&rx), 0);
    server.updates(vec![]);
    assert_eq!(signals(&rx), 0);
    server.updates(vec![update(10, Value::I32(2)), update(10, Value::I32(3))]);
    assert_eq!(signals(&rx), 1);
    server.updates(vec![update(10, Value::I32(4))]);
    assert_eq!(signals(&rx), 0);
    assert_eq!(pull(&mut server), vec![(1, Variant::I4(4))]);
    server.updates(vec![update(10, Value::I32(5))]);
    assert_eq!(signals(&rx), 1);
}

#[test]
fn idle_session_ignores_connects_and_updates() {
    let mut server: Server<String> = Server::new();
    assert!(!server.is_active());
    assert_eq!(server.connect_data(TopicId(1), subscribed(10, "/a")), Ok(()));
    let refusal = SubscribeError { message: "bad".to_string() };
    assert_eq!(server.connect_data(TopicId(1), Err(refusal)), Ok(()));
    server.updates(vec![update(10, Value::I32(1))]);
    server.disconnect_data(TopicId(1));
    assert_eq!(pull(&mut server), vec![]);
}

#[test]
fn start_forgets_the_topics_of_an_earlier_session() {
    let (mut server, old_rx) = started();
    assert!(server.is_active());
    assert!(server.connect_data(TopicId(1), subscribed(10, "/a")).is_ok());
    let (tx, rx) = channel();
    server.server_start(IRTDUpdateEventWrap::new(tx));
    assert_eq!(pull(&mut server), vec![]);
    server.updates(vec![update(10, Value::I32(1))]);
    assert_eq!(pull(&mut server), vec![]);
    assert_eq!(signals(&rx), 0);
    assert_eq!(signals(&old_rx), 1);
}

#[test]
fn terminate_clears_everything_and_goes_idle() {
    let (mut server, rx) = started();
    assert!(server.connect_data(TopicId(1), subscribed(10, "/a")).is_ok());
    assert_eq!(signals(&rx), 1);
    server.server_terminate();
    assert!(!server.is_active());
    assert_eq!(pull(&mut server), vec![]);
    server.updates(vec![update(10, Value::I32(1))]);
    assert_eq!(pull(&mut server), vec![]);
    assert_eq!(signals(&rx), 0);
}

#[test]
fn disconnect_of_an_unknown_topic_changes_nothing() {
    let (mut server, _rx) = started();
    assert!(server.connect_data(TopicId(1), subscribed(10, "/a")).is_ok());
    server.disconnect_data(TopicId(2));
    server.updates(vec![update(10, Value::True)]);
    assert_eq!(pull(&mut server), vec![(1, Variant::Bool(true))]);
}

#[test]
fn reconnecting_a_topic_moves_it_to_the_new_subscription() {
    let (mut server, _rx) = started();
    assert!(server.connect_data(TopicId(1), subscribed(10, "/a")).is_ok());
    assert!(server.connect_data(TopicId(1), subscribed(20, "/b")).is_ok());
    assert_eq!(pull(&mut server).len(), 1);
    server.updates(vec![update(10, Value::I32(1))]);
    assert_eq!(pull(&mut server), vec![]);
    server.updates(vec![update(20, Value::I32(2))]);
    assert_eq!(pull(&mut server), vec![(1, Variant::I4(2))]);
}

#[test]
fn session_drops_the_links_it_no_longer_needs() {
    let link = Rc::new(());
    let (tx, _rx) = channel();
    let mut server: Server<Rc<()>> = Server::new();
    let idle = SubscriptionHandle { id: SubId(1), link: link.clone() };
    assert!(server.connect_data(TopicId(1), Ok((idle, Event::Unsubscribed))).is_ok());
    assert_eq!(Rc::strong_count(&link), 1);
    server.server_start(IRTDUpdateEventWrap::new(tx));
    let first = SubscriptionHandle { id: SubId(1), link: link.clone() };
    let second = SubscriptionHandle { id: SubId(1), link: link.clone() };
    assert!(server.connect_data(TopicId(1), Ok((first, Event::Unsubscribed))).is_ok());
    assert!(server.connect_data(TopicId(2), Ok((second, Event::Unsubscribed))).is_ok());
    assert_eq!(Rc::strong_count(&link), 3);
    server.disconnect_data(TopicId(1));
    assert_eq!(Rc::strong_count(&link), 2);
    server.server_terminate();
    assert_eq!(Rc::strong_count(&link), 1);
}

#[test]
fn refresh_cells_pairs_every_topic_with_its_cell() {
    let mut pending = std::collections::HashMap::new();
    assert!(refresh_cells(&pending).is_empty());
    pending.insert(3, Event::Update(Value::Okay));
    pending.insert(-1, Event::Unsubscribed);
    pending.insert(7, Event::Update(Value::U64(7)));
    let mut cells = refresh_cells(&pending);
    cells.sort_by_key(|c| c.0 .0);
    assert_eq!(
        cells,
        vec![
            (TopicId(-1), Variant::Bstr("#SUB".to_string())),
            (TopicId(3), Variant::Bstr("OK".to_string())),
            (TopicId(7), Variant::UI8(7)),
        ]
    );
}
