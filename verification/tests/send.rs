use arangodb_types::aql::AqlBuilder;
use arangodb_types::send::is_write_conflict;
use arangodb_types::send::send_generic_aql;
use arangodb_types::send::send_generic_aql_with_manual_retries;
use arangodb_types::send::AqlRun;
use arangodb_types::send::Batch;
use arangodb_types::send::RetryAction;
use arangodb_types::send::SendAction;
use arangodb_types::send::SendReply;

type Reply = SendReply<u32, &'static str, &'static str>;
type Action = SendAction<u32, &'static str, &'static str>;

fn command(handle_write_conflicts: bool) -> AqlBuilder {
    let mut aql = AqlBuilder::new_for_in_collection("i", "users");
    aql.batch_size = Some(2);
    aql.full_count = true;
    aql.handle_write_conflicts = handle_write_conflicts;
    aql.vars.push(("name".to_string(), "\"x\"".to_string()));
    aql
}

/// A command that is about to be sent.
fn started(aql: &AqlBuilder) -> AqlRun<u32> {
    let (run, action): (AqlRun<u32>, Action) = send_generic_aql(aql);
    assert!(matches!(action, SendAction::Query));
    run
}

fn more(id: &str, result: Vec<u32>) -> Reply {
    SendReply::Batch(Batch { id: Some(id.to_string()), more: true, result, rest: "more" })
}

fn last(result: Vec<u32>) -> Reply {
    SendReply::Batch(Batch { id: None, more: false, result, rest: "last" })
}

fn failed(write_conflict: bool) -> Reply {
    SendReply::Failed { error: "no", write_conflict }
}

fn finished(action: Action) -> Vec<u32> {
    match action {
        SendAction::Finish(batch) => {
            assert!(!batch.more);
            assert_eq!(batch.rest, "last");
            assert_eq!(batch.id, None);
            batch.result
        }
        _ => panic!("the run goes on"),
    }
}

#[test]
fn request_holds_the_command() {
    let run = started(&command(true));
    assert_eq!(run.request.query, "FOR i IN users");
    assert_eq!(run.request.bind_vars, vec![("name".to_string(), "\"x\"".to_string())]);
    assert_eq!(run.request.batch_size, Some(2));
    assert!(run.request.full_count);
    assert!(run.handle_write_conflicts);
    assert!(run.results.is_empty());
}

#[test]
fn new_commands_have_every_setting_off() {
    let run = started(&AqlBuilder::new_for_in_list("i", vec![]));
    assert_eq!(run.request.batch_size, None);
    assert!(!run.request.full_count);
    assert!(!run.handle_write_conflicts);
    assert!(run.request.bind_vars.is_empty());
}

#[test]
fn single_batch_is_the_answer() {
    let mut run = started(&command(false));
    assert_eq!(finished(run.on_reply(last(vec![4, 5]))), vec![4, 5]);
}

#[test]
fn batches_are_joined_in_order() {
    let mut run = started(&command(false));
    assert!(matches!(run.on_reply(more("c1", vec![1, 2])), SendAction::NextBatch { id } if id == "c1"));
    assert!(matches!(run.on_reply(more("c2", vec![])), SendAction::NextBatch { id } if id == "c2"));
    assert!(matches!(run.on_reply(more("c2", vec![3])), SendAction::NextBatch { id } if id == "c2"));
    assert_eq!(finished(run.on_reply(last(vec![4]))), vec![1, 2, 3, 4]);
}

#[test]
fn handled_conflict_starts_over() {
    let mut run = started(&command(true));
    assert!(matches!(run.on_reply(failed(true)), SendAction::Query));
    assert!(matches!(run.on_reply(more("c1", vec![1, 2])), SendAction::NextBatch { .. }));
    assert!(matches!(run.on_reply(failed(true)), SendAction::Query));
    assert_eq!(run.request.query, "FOR i IN users");
    assert_eq!(finished(run.on_reply(last(vec![9]))), vec![9]);
}

#[test]
fn other_failure_ends_the_run() {
    let mut run = started(&command(true));
    assert!(matches!(run.on_reply(more("c1", vec![1])), SendAction::NextBatch { .. }));
    assert!(matches!(run.on_reply(failed(false)), SendAction::Fail("no")));
}

#[test]
fn unhandled_conflict_ends_the_run() {
    let mut run = started(&command(false));
    assert!(matches!(run.on_reply(failed(true)), SendAction::Fail("no")));
    let mut run = started(&command(false));
    assert!(matches!(run.on_reply(more("c1", vec![1])), SendAction::NextBatch { .. }));
    assert!(matches!(run.on_reply(failed(true)), SendAction::Fail("no")));
}

#[test]
fn check_decides_about_retries() {
    assert!(matches!(send_generic_aql_with_manual_retries::<u8>(Ok(true)), RetryAction::Finish));
    assert!(matches!(send_generic_aql_with_manual_retries::<u8>(Ok(false)), RetryAction::Resend));
    assert!(matches!(send_generic_aql_with_manual_retries(Err(7)), RetryAction::Fail(7)));
}

#[test]
fn command_is_sent_once_more_than_it_met_conflicts() {
    for handled in [true, false] {
        let mut run = started(&command(handled));
        let mut sends = 1;
        let mut conflicts = 0;
        for conflict in [true, true, false, true] {
            let reply = if conflict { failed(true) } else { more("c1", vec![1]) };
            conflicts += usize::from(conflict);
            match run.on_reply(reply) {
                SendAction::Query => sends += 1,
                SendAction::Fail(_) => break,
                _ => {}
            }
        }
        assert_eq!((sends, conflicts), if handled { (4, 3) } else { (1, 1) });
    }
}

#[test]
fn conflicts_are_known_by_their_number() {
    assert!(is_write_conflict(1200));
    assert!(!is_write_conflict(1201));
    assert!(!is_write_conflict(0));
}
