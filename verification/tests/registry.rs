use netidx_excel::registry::{Registry, SubscriptionHandle};
use netidx_excel::value::{SubId, TopicId};
use std::rc::Rc;

fn handle(id: u64, link: &str) -> SubscriptionHandle<String> {
    SubscriptionHandle { id: SubId(id), link: link.to_string() }
}

fn sorted(topics: &Vec<TopicId>) -> Vec<i32> {
    let mut out: Vec<i32> = topics.iter().map(|t| t.0).collect();
    out.sort();
    out
}

#[test]
fn unknown_subscription_fans_out_to_nobody() {
    let r: Registry<String> = Registry::new();
    assert!(r.fan_out(SubId(7)).is_empty());
    assert!(!r.is_bound(TopicId(1)));
}

#[test]
fn bind_records_the_topic_under_its_subscription() {
    let mut r = Registry::new();
    r.bind(TopicId(1), handle(10, "/a"));
    assert!(r.is_bound(TopicId(1)));
    assert_eq!(sorted(r.fan_out(SubId(10))), vec![1]);
    assert!(r.fan_out(SubId(11)).is_empty());
}

#[test]
fn topics_that_share_a_subscription_share_its_fan_out_set() {
    let mut r = Registry::new();
    r.bind(TopicId(1), handle(10, "/a"));
    r.bind(TopicId(2), handle(10, "/a"));
    r.bind(TopicId(3), handle(20, "/b"));
    assert_eq!(sorted(r.fan_out(SubId(10))), vec![1, 2]);
    assert_eq!(sorted(r.fan_out(SubId(20))), vec![3]);
}

#[test]
fn unbind_returns_the_handle_and_shrinks_the_set() {
    let mut r = Registry::new();
    r.bind(TopicId(1), handle(10, "/a"));
    r.bind(TopicId(2), handle(10, "/a"));
    let h = r.unbind(TopicId(1)).unwrap();
    assert_eq!(h.id, SubId(10));
    assert_eq!(h.link, "/a");
    assert!(!r.is_bound(TopicId(1)));
    assert_eq!(sorted(r.fan_out(SubId(10))), vec![2]);
    assert!(r.unbind(TopicId(2)).is_some());
    assert!(r.fan_out(SubId(10)).is_empty());
}

#[test]
fn unbind_of_an_unknown_topic_does_nothing() {
    let mut r = Registry::new();
    r.bind(TopicId(1), handle(10, "/a"));
    assert!(r.unbind(TopicId(5)).is_none());
    assert!(r.is_bound(TopicId(1)));
    assert_eq!(sorted(r.fan_out(SubId(10))), vec![1]);
}

#[test]
fn rebinding_a_topic_leaves_no_stale_entry() {
    let mut r = Registry::new();
    r.bind(TopicId(1), handle(10, "/a"));
    r.bind(TopicId(1), handle(20, "/b"));
    assert!(r.fan_out(SubId(10)).is_empty());
    assert_eq!(sorted(r.fan_out(SubId(20))), vec![1]);
    r.bind(TopicId(1), handle(20, "/b"));
    assert_eq!(sorted(r.fan_out(SubId(20))), vec![1]);
    assert_eq!(r.unbind(TopicId(1)).unwrap().link, "/b");
    assert!(r.fan_out(SubId(20)).is_empty());
}

#[test]
fn indices_agree_after_a_run_of_binds_and_unbinds() {
    let mut r = Registry::new();
    for t in 0..20 {
        r.bind(TopicId(t), handle((t % 3) as u64, "/p"));
    }
    for t in (0..20).filter(|t| t % 2 == 0) {
        assert!(r.unbind(TopicId(t)).is_some());
    }
    for id in 0..3u64 {
        let expected: Vec<i32> = (0..20).filter(|t| t % 2 == 1 && (t % 3) as u64 == id).collect();
        assert_eq!(sorted(r.fan_out(SubId(id))), expected);
    }
    for t in 0..20 {
        assert_eq!(r.is_bound(TopicId(t)), t % 2 == 1);
    }
}

#[test]
fn clear_and_unbind_let_go_of_the_links() {
    let link = Rc::new(());
    let mut r = Registry::new();
    r.bind(TopicId(1), SubscriptionHandle { id: SubId(1), link: link.clone() });
    r.bind(TopicId(2), SubscriptionHandle { id: SubId(1), link: link.clone() });
    r.bind(TopicId(3), SubscriptionHandle { id: SubId(2), link: link.clone() });
    assert_eq!(Rc::strong_count(&link), 4);
    r.bind(TopicId(3), SubscriptionHandle { id: SubId(3), link: link.clone() });
    assert_eq!(Rc::strong_count(&link), 4);
    let _ = r.unbind(TopicId(1));
    assert_eq!(Rc::strong_count(&link), 3);
    r.clear();
    assert_eq!(Rc::strong_count(&link), 1);
    assert!(r.fan_out(SubId(1)).is_empty());
}
