use skylane::bundle::{Bundle, Request};
use skylane::object::ObjectId;

fn describe(requests: &[Request<&'static str>]) -> Vec<(bool, u32, &'static str)> {
    requests
        .iter()
        .map(|request| match request {
            Request::Create { id, object } => (true, id.get_value(), *object),
            Request::Destroy { id } => (false, id.get_value(), ""),
        })
        .collect()
}

#[test]
fn a_new_mediator_is_empty() {
    let bundle: Bundle<&'static str> = Bundle::new();
    let (requests, outbound) = bundle.into_parts();
    assert!(requests.is_empty());
    assert!(outbound.is_empty());
}

#[test]
fn requests_are_recorded_in_the_order_they_were_made() {
    let mut bundle: Bundle<&'static str> = Bundle::new();
    bundle.add_object(ObjectId::new(4), "surface");
    bundle.remove_object(ObjectId::new(9));
    bundle.add_object(ObjectId::new(9), "region");
    bundle.remove_object(ObjectId::new(4));
    let (requests, outbound) = bundle.into_parts();
    assert_eq!(
        describe(&requests),
        vec![(true, 4, "surface"), (false, 9, ""), (true, 9, "region"), (false, 4, "")]
    );
    assert!(outbound.is_empty());
}

#[test]
fn messages_are_written_one_after_the_other() {
    let mut bundle: Bundle<&'static str> = Bundle::new();
    bundle.send(&[1, 2, 3]);
    bundle.send(&[]);
    bundle.send(&[4]);
    let (requests, outbound) = bundle.into_parts();
    assert!(requests.is_empty());
    assert_eq!(outbound, vec![1u8, 2, 3, 4]);
}

#[test]
fn asking_and_writing_do_not_disturb_each_other() {
    let mut bundle: Bundle<&'static str> = Bundle::new();
    bundle.send(&[0xaa]);
    bundle.add_object(ObjectId::new(2), "callback");
    bundle.send(&[0xbb, 0xcc]);
    let (requests, outbound) = bundle.into_parts();
    assert_eq!(describe(&requests), vec![(true, 2, "callback")]);
    assert_eq!(outbound, vec![0xaau8, 0xbb, 0xcc]);
}
