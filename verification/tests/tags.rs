use task_service::error_handler::handle_error;
use task_service::tags::{join_tags_exec, split_tags_exec};
use task_service::task_controller::Payload;

#[test]
fn join_puts_one_comma_between_tags() {
    let tags = vec!["a".to_string(), "b".to_string(), "c".to_string()];
    assert_eq!(join_tags_exec(&tags), "a,b,c");
    assert_eq!(join_tags_exec(&vec!["solo".to_string()]), "solo");
    assert_eq!(join_tags_exec(&Vec::new()), "");
}

#[test]
fn split_cuts_at_every_comma() {
    let pieces = split_tags_exec(&"a,b,c".to_string());
    assert_eq!(pieces, vec!["a".to_string(), "b".to_string(), "c".to_string()]);
    assert_eq!(split_tags_exec(&"solo".to_string()), vec!["solo".to_string()]);
    assert_eq!(split_tags_exec(&"".to_string()), vec!["".to_string()]);
    assert_eq!(
        split_tags_exec(&"a,,b".to_string()),
        vec!["a".to_string(), "".to_string(), "b".to_string()]
    );
}

#[test]
fn split_undoes_join_on_comma_free_tags() {
    let tags = vec!["one".to_string(), "two".to_string(), "three".to_string()];
    assert_eq!(split_tags_exec(&join_tags_exec(&tags)), tags);
}

#[test]
fn error_responder_prefixes_the_message() {
    let reply = handle_error("boom".to_string());
    assert_eq!(reply.status, 500);
    match reply.payload {
        Payload::Message(m) => assert_eq!(m, "Error: boom"),
        _ => panic!("expected a message body"),
    }
}
