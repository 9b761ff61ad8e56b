use telnet_chat::coordinator::CoordinatorProcess;
use telnet_chat::coordinator::CoordinatorSup;
use telnet_chat::coordinator::Info;
use telnet_chat::coordinator::LeaveOutcome;

fn text(s: &str) -> String {
    s.to_string()
}

fn listed(coordinator: &CoordinatorProcess) -> Vec<(String, usize)> {
    let mut list = coordinator.list_channels();
    list.sort();
    list
}

#[test]
fn the_supervisor_registers_the_coordinator_by_name() {
    assert_eq!(CoordinatorSup::init(text("coordinator")), ((), Some(text("coordinator"))));
}

#[test]
fn a_new_coordinator_knows_nobody() {
    let coordinator = CoordinatorProcess::init();
    assert_eq!(coordinator.total_clients(), 0);
    assert!(coordinator.list_channels().is_empty());
    assert!(!coordinator.is_registered(1));
    assert_eq!(coordinator.username_of(1), None);
}

#[test]
fn names_are_generated_from_a_counter() {
    let mut coordinator = CoordinatorProcess::init();
    assert_eq!(
        coordinator.join_server(40),
        Info { username: text("user_1"), total_clients: 1 }
    );
    assert_eq!(
        coordinator.join_server(41),
        Info { username: text("user_2"), total_clients: 2 }
    );
    assert_eq!(coordinator.username_of(40), Some(text("user_1")));
    assert_eq!(coordinator.username_of(41), Some(text("user_2")));
}

#[test]
fn the_counter_goes_on_after_somebody_left() {
    let mut coordinator = CoordinatorProcess::init();
    coordinator.join_server(1);
    coordinator.leave_server(1);
    assert_eq!(
        coordinator.join_server(2),
        Info { username: text("user_2"), total_clients: 1 }
    );
}

#[test]
fn generated_names_have_all_their_digits() {
    let mut coordinator = CoordinatorProcess::init();
    let mut last = String::new();
    for id in 0..120 {
        last = coordinator.join_server(id).username;
        if id == 9 {
            assert_eq!(last, "user_10");
        }
        if id == 99 {
            assert_eq!(last, "user_100");
        }
    }
    assert_eq!(last, "user_120");
    assert_eq!(coordinator.total_clients(), 120);
}

#[test]
fn joining_again_starts_afresh() {
    let mut coordinator = CoordinatorProcess::init();
    coordinator.join_server(1);
    coordinator.join_channel(1, text("#a"));
    let again = coordinator.join_server(1);
    assert_eq!(again, Info { username: text("user_2"), total_clients: 1 });
    assert!(coordinator.leave_server(1).is_empty());
    assert_eq!(coordinator.member_count("#a"), Some(1));
}

#[test]
fn a_free_name_is_taken_over() {
    let mut coordinator = CoordinatorProcess::init();
    coordinator.join_server(1);
    assert_eq!(coordinator.change_name(1, text("alice")), "alice");
    assert_eq!(coordinator.username_of(1), Some(text("alice")));
}

#[test]
fn a_taken_name_is_refused() {
    let mut coordinator = CoordinatorProcess::init();
    coordinator.join_server(1);
    coordinator.join_server(2);
    assert_eq!(coordinator.change_name(2, text("bob")), "bob");
    assert_eq!(coordinator.change_name(1, text("bob")), "user_1");
    assert_eq!(coordinator.username_of(1), Some(text("user_1")));
    assert_eq!(coordinator.username_of(2), Some(text("bob")));
    // again, with the same outcome
    assert_eq!(coordinator.change_name(1, text("bob")), "user_1");
    assert_eq!(coordinator.username_of(1), Some(text("user_1")));
}

#[test]
fn ones_own_name_counts_as_taken() {
    let mut coordinator = CoordinatorProcess::init();
    coordinator.join_server(1);
    assert_eq!(coordinator.change_name(1, text("user_1")), "user_1");
    assert_eq!(coordinator.username_of(1), Some(text("user_1")));
}

#[test]
fn names_are_compared_letter_by_letter() {
    let mut coordinator = CoordinatorProcess::init();
    coordinator.join_server(1);
    coordinator.join_server(2);
    assert_eq!(coordinator.change_name(1, text("bob")), "bob");
    assert_eq!(coordinator.change_name(2, text("Bob")), "Bob");
    assert_eq!(coordinator.change_name(2, text("bob ")), "bob ");
}

#[test]
fn a_name_is_free_again_after_its_owner_changed_it() {
    let mut coordinator = CoordinatorProcess::init();
    coordinator.join_server(1);
    coordinator.join_server(2);
    coordinator.change_name(1, text("bob"));
    coordinator.change_name(1, text("carol"));
    assert_eq!(coordinator.change_name(2, text("bob")), "bob");
}

#[test]
fn a_rename_keeps_the_channels() {
    let mut coordinator = CoordinatorProcess::init();
    coordinator.join_server(1);
    coordinator.join_channel(1, text("#a"));
    coordinator.change_name(1, text("alice"));
    assert_eq!(coordinator.leave_server(1), vec![(text("#a"), LeaveOutcome::Closed)]);
}

#[test]
fn the_first_join_makes_the_channel() {
    let mut coordinator = CoordinatorProcess::init();
    coordinator.join_server(1);
    coordinator.join_server(2);
    assert_eq!(coordinator.member_count("#general"), None);
    assert!(coordinator.join_channel(1, text("#general")));
    assert_eq!(coordinator.member_count("#general"), Some(1));
    assert!(!coordinator.join_channel(2, text("#general")));
    assert_eq!(coordinator.member_count("#general"), Some(2));
    assert_eq!(listed(&coordinator), vec![(text("#general"), 2)]);
}

#[test]
fn every_join_counts_also_of_the_same_client() {
    let mut coordinator = CoordinatorProcess::init();
    coordinator.join_server(1);
    assert!(coordinator.join_channel(1, text("#a")));
    assert!(!coordinator.join_channel(1, text("#a")));
    assert!(!coordinator.join_channel(1, text("#a")));
    assert_eq!(coordinator.member_count("#a"), Some(3));
    assert_eq!(coordinator.leave_channel(1, text("#a")), LeaveOutcome::Left);
    assert_eq!(coordinator.leave_channel(1, text("#a")), LeaveOutcome::Left);
    assert_eq!(coordinator.member_count("#a"), Some(1));
    assert_eq!(coordinator.leave_channel(1, text("#a")), LeaveOutcome::Closed);
    assert_eq!(coordinator.member_count("#a"), None);
    assert!(coordinator.list_channels().is_empty());
}

#[test]
fn a_join_counts_for_a_client_that_is_not_registered() {
    let mut coordinator = CoordinatorProcess::init();
    assert!(coordinator.join_channel(9, text("#a")));
    assert_eq!(coordinator.member_count("#a"), Some(1));
    assert_eq!(coordinator.leave_channel(9, text("#a")), LeaveOutcome::Closed);
}

#[test]
fn leaving_an_unknown_channel_does_nothing() {
    let mut coordinator = CoordinatorProcess::init();
    coordinator.join_server(1);
    coordinator.join_channel(1, text("#a"));
    assert_eq!(coordinator.leave_channel(1, text("#b")), LeaveOutcome::Unknown);
    assert_eq!(listed(&coordinator), vec![(text("#a"), 1)]);
    assert_eq!(coordinator.total_clients(), 1);
}

#[test]
fn a_channel_can_be_made_again_after_it_was_closed() {
    let mut coordinator = CoordinatorProcess::init();
    coordinator.join_server(1);
    assert!(coordinator.join_channel(1, text("#a")));
    assert_eq!(coordinator.leave_channel(1, text("#a")), LeaveOutcome::Closed);
    assert!(coordinator.join_channel(1, text("#a")));
    assert_eq!(coordinator.member_count("#a"), Some(1));
}

#[test]
fn the_list_names_every_channel_once() {
    let mut coordinator = CoordinatorProcess::init();
    coordinator.join_server(1);
    coordinator.join_server(2);
    coordinator.join_channel(1, text("#a"));
    coordinator.join_channel(1, text("#b"));
    coordinator.join_channel(2, text("#b"));
    coordinator.join_channel(2, text("#c"));
    assert_eq!(
        listed(&coordinator),
        vec![(text("#a"), 1), (text("#b"), 2), (text("#c"), 1)]
    );
}

#[test]
fn leaving_the_server_leaves_every_channel() {
    let mut coordinator = CoordinatorProcess::init();
    coordinator.join_server(1);
    coordinator.join_server(2);
    coordinator.join_channel(1, text("#a"));
    coordinator.join_channel(1, text("#b"));
    coordinator.join_channel(2, text("#b"));
    let mut left = coordinator.leave_server(1);
    left.sort_by(|x, y| x.0.cmp(&y.0));
    assert_eq!(
        left,
        vec![(text("#a"), LeaveOutcome::Closed), (text("#b"), LeaveOutcome::Left)]
    );
    assert_eq!(listed(&coordinator), vec![(text("#b"), 1)]);
    assert_eq!(coordinator.total_clients(), 1);
    assert!(!coordinator.is_registered(1));
    assert!(coordinator.is_registered(2));
}

#[test]
fn a_channel_that_was_left_is_not_left_again() {
    let mut coordinator = CoordinatorProcess::init();
    coordinator.join_server(1);
    coordinator.join_server(2);
    coordinator.join_channel(1, text("#a"));
    coordinator.join_channel(2, text("#a"));
    assert_eq!(coordinator.leave_channel(1, text("#a")), LeaveOutcome::Left);
    assert!(coordinator.leave_server(1).is_empty());
    assert_eq!(coordinator.member_count("#a"), Some(1));
}

#[test]
fn leaving_the_server_skips_a_channel_that_is_gone() {
    let mut coordinator = CoordinatorProcess::init();
    coordinator.join_server(1);
    coordinator.join_channel(1, text("#a"));
    // somebody else's leave closes the channel under the client
    assert_eq!(coordinator.leave_channel(2, text("#a")), LeaveOutcome::Closed);
    assert_eq!(coordinator.leave_server(1), vec![(text("#a"), LeaveOutcome::Unknown)]);
    assert!(coordinator.list_channels().is_empty());
}

#[test]
fn leaving_the_server_without_having_joined_does_nothing() {
    let mut coordinator = CoordinatorProcess::init();
    coordinator.join_server(1);
    coordinator.join_channel(1, text("#a"));
    assert!(coordinator.leave_server(5).is_empty());
    assert_eq!(coordinator.total_clients(), 1);
    assert_eq!(coordinator.member_count("#a"), Some(1));
}

#[test]
fn many_joins_then_as_many_leaves_close_the_channel() {
    let mut coordinator = CoordinatorProcess::init();
    for id in 0..25 {
        coordinator.join_channel(id % 3, text("#busy"));
    }
    assert_eq!(coordinator.member_count("#busy"), Some(25));
    for id in 0..24 {
        assert_eq!(coordinator.leave_channel(id, text("#busy")), LeaveOutcome::Left);
        assert_eq!(coordinator.member_count("#busy"), Some(24 - id as usize));
    }
    assert_eq!(coordinator.leave_channel(0, text("#busy")), LeaveOutcome::Closed);
    assert_eq!(coordinator.member_count("#busy"), None);
}

#[test]
fn a_generated_name_that_somebody_took_is_passed_over() {
    let mut coordinator = CoordinatorProcess::init();
    coordinator.join_server(1);
    assert_eq!(coordinator.change_name(1, text("user_2")), "user_2");
    assert_eq!(
        coordinator.join_server(2),
        Info { username: text("user_3"), total_clients: 2 }
    );
    assert_eq!(coordinator.next_id(), 3);
    assert_eq!(coordinator.join_server(3).username, "user_4");
    assert_eq!(coordinator.username_of(1), Some(text("user_2")));
    assert_eq!(coordinator.username_of(2), Some(text("user_3")));
}

#[test]
fn several_generated_names_in_a_row_are_passed_over() {
    let mut coordinator = CoordinatorProcess::init();
    for id in 1..=4 {
        coordinator.join_server(id);
    }
    // the counter stands at 4; the next three names are taken by renames
    coordinator.change_name(1, text("user_5"));
    coordinator.change_name(2, text("user_6"));
    coordinator.change_name(3, text("user_7"));
    assert_eq!(coordinator.join_server(9).username, "user_8");
    // names below the counter are not handed out again
    assert_eq!(coordinator.join_server(10).username, "user_9");
    let mut names = Vec::new();
    for id in [1, 2, 3, 4, 9, 10] {
        names.push(coordinator.username_of(id).unwrap());
    }
    names.sort();
    names.dedup();
    assert_eq!(names.len(), 6);
}

#[test]
fn a_client_that_joins_again_does_not_get_its_old_name() {
    let mut coordinator = CoordinatorProcess::init();
    coordinator.join_server(1);
    coordinator.change_name(1, text("user_2"));
    assert_eq!(coordinator.join_server(1).username, "user_3");
    assert_eq!(coordinator.total_clients(), 1);
}

#[test]
fn a_leave_from_a_channel_that_is_gone_changes_nothing() {
    let mut coordinator = CoordinatorProcess::init();
    coordinator.join_server(1);
    coordinator.join_channel(1, text("#g"));
    // somebody else's leave closes the channel
    assert_eq!(coordinator.leave_channel(2, text("#g")), LeaveOutcome::Closed);
    assert_eq!(coordinator.leave_channel(1, text("#g")), LeaveOutcome::Unknown);
    // the client's own record of what it joined is as it was
    assert_eq!(coordinator.leave_server(1), vec![(text("#g"), LeaveOutcome::Unknown)]);
}
