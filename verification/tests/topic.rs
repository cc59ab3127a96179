use kaf9s::topic::{member_topics, message_count, parse_member_topics, watermark_difference, watermarks_or_unknown, MemberTopics};

fn metadata(count: i32, names: &[&[u8]]) -> Vec<u8> {
    let mut m = vec![0u8, 1];
    m.extend_from_slice(&count.to_be_bytes());
    for n in names {
        m.extend_from_slice(&(n.len() as i16).to_be_bytes());
        m.extend_from_slice(n);
    }
    m
}

#[test]
fn parses_topics() {
    let m = metadata(2, &[b"orders", b"payments"]);
    assert_eq!(parse_member_topics(&m), Ok(vec!["orders".to_string(), "payments".to_string()]));
    let mut with_user_data = m.clone();
    with_user_data.extend_from_slice(&[0, 0, 0, 4, 1, 2, 3, 4]);
    assert_eq!(parse_member_topics(&with_user_data), Ok(vec!["orders".to_string(), "payments".to_string()]));
    let m = metadata(1, &["tópico".as_bytes()]);
    assert_eq!(parse_member_topics(&m), Ok(vec!["tópico".to_string()]));
    let m = metadata(1, &[b""]);
    assert_eq!(parse_member_topics(&m), Ok(vec![String::new()]));
}

#[test]
fn count_not_positive_lists_nothing() {
    assert_eq!(parse_member_topics(&metadata(0, &[])), Ok(vec![]));
    assert_eq!(parse_member_topics(&metadata(-3, &[b"ignored"])), Ok(vec![]));
}

#[test]
fn malformed_metadata() {
    assert_eq!(parse_member_topics(&[]), Err(vec![]));
    assert_eq!(parse_member_topics(&[0, 1, 0, 0, 0]), Err(vec![]));
    assert_eq!(parse_member_topics(&metadata(2, &[b"one"])), Err(vec!["one".to_string()]));
    let mut m = metadata(1, &[]);
    m.extend_from_slice(&(-1i16).to_be_bytes());
    assert_eq!(parse_member_topics(&m), Err(vec![]));
    let mut m = metadata(2, &[b"first"]);
    m.extend_from_slice(&[0, 5, b'a', b'b']);
    assert_eq!(parse_member_topics(&m), Err(vec!["first".to_string()]));
    let m = metadata(1, &[&[0xff, 0xfe]]);
    assert_eq!(parse_member_topics(&m), Err(vec![]));
    let mut m = metadata(1, &[]);
    m.push(0);
    assert_eq!(parse_member_topics(&m), Err(vec![]));
}

#[test]
fn member_topics_only_for_consumer_protocol() {
    let m = metadata(1, &[b"orders"]);
    match member_topics("consumer", Some(m.as_slice())) {
        MemberTopics::Listed(t) => assert_eq!(t, vec!["orders".to_string()]),
        other => panic!("unexpected {:?}", other),
    }
    assert!(matches!(member_topics("connect", Some(m.as_slice())), MemberTopics::NotListed));
    assert!(matches!(member_topics("consumer", None), MemberTopics::NotListed));
    assert!(matches!(member_topics("consumers", Some(m.as_slice())), MemberTopics::NotListed));
    assert!(matches!(member_topics("consumer", Some(&[1, 2][..])), MemberTopics::Malformed(t) if t.is_empty()));
    let partial = metadata(3, &[b"a", b"b"]);
    match member_topics("consumer", Some(partial.as_slice())) {
        MemberTopics::Malformed(t) => assert_eq!(t, vec!["a".to_string(), "b".to_string()]),
        other => panic!("unexpected {:?}", other),
    }
}

#[test]
fn watermarks() {
    assert_eq!(watermarks_or_unknown(Some((3, 10))), (3, 10));
    assert_eq!(watermarks_or_unknown(None), (-1, -1));
    assert_eq!(watermark_difference((3, 10)), 7);
    assert_eq!(watermark_difference(watermarks_or_unknown(None)), 0);
    assert_eq!(message_count(&vec![]), 0);
    assert_eq!(message_count(&vec![(0, 5), (-1, -1), (10, 12)]), 7);
}
