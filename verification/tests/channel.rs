use telnet_chat::channel::ChannelProcess;

fn text(s: &str) -> String {
    s.to_string()
}

fn say(channel: &mut ChannelProcess, body: &str) -> Vec<u64> {
    let sent = channel.broadcast_message(text("#general"), text("[10:00 UTC] "), text("A"), text(body));
    assert_eq!(sent.channel, "#general");
    assert_eq!(sent.timestamp, "[10:00 UTC] ");
    assert_eq!(sent.name, "A");
    assert_eq!(sent.message, body);
    let mut recipients = sent.recipients;
    recipients.sort();
    recipients
}

#[test]
fn a_new_channel_is_empty() {
    let channel = ChannelProcess::init(text("#general"));
    assert_eq!(channel.member_count(), 0);
    assert!(channel.get_last_messages().is_empty());
    assert!(!channel.is_member(1));
}

#[test]
fn joining_twice_counts_once() {
    let mut channel = ChannelProcess::init(text("#general"));
    channel.join(7);
    channel.join(7);
    assert_eq!(channel.member_count(), 1);
    assert!(channel.is_member(7));
}

#[test]
fn members_are_joins_of_new_ids_less_leaves_of_present_ids() {
    let mut channel = ChannelProcess::init(text("#general"));
    channel.join(1);
    channel.join(2);
    channel.join(1);
    channel.leave(3);
    channel.join(3);
    channel.leave(1);
    channel.leave(1);
    channel.join(4);
    // joins of somebody new: 1, 2, 3, 4; leaves of somebody present: 1
    assert_eq!(channel.member_count(), 3);
    assert!(!channel.is_member(1));
    assert!(channel.is_member(2));
    assert!(channel.is_member(3));
    assert!(channel.is_member(4));
}

#[test]
fn leaving_without_being_in_changes_nothing() {
    let mut channel = ChannelProcess::init(text("#general"));
    channel.join(1);
    channel.leave(2);
    assert_eq!(channel.member_count(), 1);
}

#[test]
fn a_broadcast_goes_to_every_member() {
    let mut channel = ChannelProcess::init(text("#general"));
    assert_eq!(say(&mut channel, "nobody here"), Vec::<u64>::new());
    channel.join(1);
    channel.join(2);
    assert_eq!(say(&mut channel, "hello"), vec![1, 2]);
    channel.leave(1);
    assert_eq!(say(&mut channel, "still there?"), vec![2]);
}

#[test]
fn a_broadcast_is_stored() {
    let mut channel = ChannelProcess::init(text("#general"));
    channel.join(1);
    channel.join(2);
    channel.broadcast_message(text("#general"), text("[10:00 UTC] "), text("A"), text("hello"));
    assert_eq!(
        channel.get_last_messages(),
        vec![(text("[10:00 UTC] "), text("A"), text("hello"))]
    );
}

#[test]
fn ten_messages_are_all_kept() {
    let mut channel = ChannelProcess::init(text("#general"));
    for i in 0..10 {
        say(&mut channel, &format!("m{}", i));
        assert_eq!(channel.get_last_messages().len(), i + 1);
    }
    let kept = channel.get_last_messages();
    assert_eq!(kept[0].2, "m0");
    assert_eq!(kept[9].2, "m9");
}

#[test]
fn eleven_messages_leave_six() {
    let mut channel = ChannelProcess::init(text("#general"));
    channel.join(1);
    for i in 0..10 {
        say(&mut channel, &format!("m{}", i));
    }
    assert_eq!(channel.get_last_messages().len(), 10);
    say(&mut channel, "m10");
    let kept: Vec<String> = channel.get_last_messages().into_iter().map(|m| m.2).collect();
    assert_eq!(kept, vec!["m5", "m6", "m7", "m8", "m9", "m10"]);
}

#[test]
fn the_history_never_passes_ten_and_holds_the_latest() {
    let mut channel = ChannelProcess::init(text("#general"));
    for i in 0..100 {
        say(&mut channel, &format!("m{}", i));
        let kept = channel.get_last_messages();
        assert!(kept.len() <= 10);
        let first = i + 1 - kept.len();
        for (offset, message) in kept.iter().enumerate() {
            assert_eq!(message.2, format!("m{}", first + offset));
        }
    }
    // 100 messages: trimmed at 11, 16, 21, ..., 96, so 100 - 5 * 18 are left.
    assert_eq!(channel.get_last_messages().len(), 10);
}

#[test]
fn the_copy_of_the_history_is_a_copy() {
    let mut channel = ChannelProcess::init(text("#general"));
    say(&mut channel, "one");
    let mut copy = channel.get_last_messages();
    copy.clear();
    assert_eq!(channel.get_last_messages().len(), 1);
}
