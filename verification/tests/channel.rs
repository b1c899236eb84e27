use ugo_ii_bot::channel::Channel;
use ugo_ii_bot::channel::Marker;
use ugo_ii_bot::channel::Message;
use ugo_ii_bot::error::InnerError;

fn message(id: u64, content: &str) -> Message {
    Message {
        id,
        content: content.to_string(),
        accept_attached: false,
        decline_attached: false,
        accepts: vec![],
        declines: vec![],
    }
}

#[test]
fn messages_get_ids_in_a_row() {
    let mut channel = Channel::new(10);
    assert_eq!(channel.send_message("a").unwrap(), 10);
    assert_eq!(channel.send_message("b").unwrap(), 11);
    assert_eq!(channel.messages, vec![message(10, "a"), message(11, "b")]);
    assert_eq!(channel.next_id, 12);
    assert_eq!(channel.find(11), Some(1));
    assert_eq!(channel.find(12), None);
}

#[test]
fn a_message_is_edited_in_place() {
    let mut channel = Channel::new(10);
    channel.send_message("a").unwrap();
    channel.send_message("b").unwrap();
    channel.add_reaction(10, Marker::Accept, 7).unwrap();
    channel.edit(10, "c").unwrap();
    assert_eq!(channel.messages[0].content, "c");
    assert_eq!(channel.messages[0].accepts, vec![7]);
    assert_eq!(channel.messages[1], message(11, "b"));
}

#[test]
fn a_deleted_message_is_gone() {
    let mut channel = Channel::new(10);
    channel.send_message("a").unwrap();
    channel.send_message("b").unwrap();
    channel.send_message("c").unwrap();
    channel.delete(11).unwrap();
    assert_eq!(channel.messages, vec![message(10, "a"), message(12, "c")]);
    assert_eq!(channel.next_id, 13);
}

#[test]
fn markers_are_attached_one_by_one() {
    let mut channel = Channel::new(10);
    channel.send_message("a").unwrap();
    channel.react(10, Marker::Decline).unwrap();
    assert!(!channel.messages[0].accept_attached);
    assert!(channel.messages[0].decline_attached);
    channel.react(10, Marker::Accept).unwrap();
    assert!(channel.messages[0].accept_attached);
    assert!(channel.messages[0].decline_attached);
    assert!(channel.messages[0].accepts.is_empty());
}

#[test]
fn reactions_come_and_go() {
    let mut channel = Channel::new(10);
    channel.send_message("a").unwrap();
    channel.add_reaction(10, Marker::Accept, 1).unwrap();
    channel.add_reaction(10, Marker::Accept, 2).unwrap();
    channel.add_reaction(10, Marker::Accept, 1).unwrap();
    channel.add_reaction(10, Marker::Decline, 3).unwrap();
    assert_eq!(channel.reaction_users(10, Marker::Accept).unwrap(), vec![1, 2]);
    assert_eq!(channel.reaction_users(10, Marker::Decline).unwrap(), vec![3]);
    channel.remove_reaction(10, Marker::Accept, 1).unwrap();
    channel.remove_reaction(10, Marker::Decline, 1).unwrap();
    assert_eq!(channel.reaction_users(10, Marker::Accept).unwrap(), vec![2]);
    assert_eq!(channel.reaction_users(10, Marker::Decline).unwrap(), vec![3]);
}

#[test]
fn a_message_that_is_not_there_cannot_be_touched() {
    let mut channel = Channel::new(10);
    channel.send_message("a").unwrap();
    let before = channel.messages.clone();
    assert!(matches!(channel.edit(11, "x").unwrap_err().error, InnerError::DiscordError(_)));
    assert!(matches!(channel.delete(11).unwrap_err().error, InnerError::DiscordError(_)));
    assert!(matches!(channel.react(11, Marker::Accept).unwrap_err().error, InnerError::DiscordError(_)));
    assert!(matches!(
        channel.add_reaction(11, Marker::Accept, 1).unwrap_err().error,
        InnerError::DiscordError(_)
    ));
    assert!(matches!(
        channel.remove_reaction(11, Marker::Accept, 1).unwrap_err().error,
        InnerError::DiscordError(_)
    ));
    assert!(matches!(
        channel.reaction_users(11, Marker::Accept).unwrap_err().error,
        InnerError::DiscordError(_)
    ));
    assert_eq!(channel.messages, before);
}

#[test]
fn a_channel_without_ids_takes_no_message() {
    let mut channel = Channel::new(u64::MAX - 1);
    assert_eq!(channel.send_message("last").unwrap(), u64::MAX - 1);
    let err = channel.send_message("one too many").unwrap_err();
    assert!(matches!(err.error, InnerError::DiscordError(_)));
    assert_eq!(channel.messages.len(), 1);
}
