use upgrade_harness::address::AccountAddress;
use upgrade_harness::command::{Call, Signer, Step};
use upgrade_harness::error::{Violation, WorkflowError};
use upgrade_harness::protocol::Reply;
use upgrade_harness::script::{Cursor, Progress};

fn plan() -> Vec<Step> {
    let who = AccountAddress { bytes: [1; 32] };
    vec![
        Step::Enact { call: Call::SetBalance { who, new_free: 5, new_reserved: 1 } },
        Step::Submit { signer: Signer::Sponsor, call: Call::Transfer { dest: who, value: 9 } },
        Step::Wait { seconds: 3 },
        Step::Submit { signer: Signer::Account(0), call: Call::SubmitCandidacy { candidate_count: 0 } },
    ]
}

const UNEXPECTED: WorkflowError = WorkflowError::InvariantViolation(Violation::UnexpectedReply);

#[test]
fn steps_are_handed_out_one_by_one_in_their_order() {
    let plan = plan();
    let replies = [Reply::Begin, Reply::Submitted, Reply::Submitted, Reply::Elapsed, Reply::Submitted];
    let mut cursor = Cursor::start();
    let mut handed = Vec::new();
    for reply in &replies {
        let (next, progress) = cursor.resume(&plan, reply);
        cursor = next;
        handed.push(progress);
    }
    assert_eq!(
        handed,
        vec![
            Progress::Perform(0),
            Progress::Perform(1),
            Progress::Perform(2),
            Progress::Perform(3),
            Progress::Finish,
        ]
    );
    assert_eq!(cursor, Cursor { position: 4, failure: None });
}

#[test]
fn empty_script_is_finished_at_once() {
    let (cursor, progress) = Cursor::start().resume(&Vec::new(), &Reply::Begin);
    assert_eq!(progress, Progress::Finish);
    assert_eq!(cursor, Cursor::start());
}

#[test]
fn failed_step_gives_the_script_up_for_good() {
    let plan = plan();
    let (cursor, _) = Cursor::start().resume(&plan, &Reply::Begin);
    let (cursor, _) = cursor.resume(&plan, &Reply::Submitted);
    let (cursor, progress) = cursor.resume(&plan, &Reply::Failed);
    assert_eq!(progress, Progress::Abort(WorkflowError::RemoteCommunicationFailure));
    assert_eq!(
        cursor,
        Cursor { position: 2, failure: Some(WorkflowError::RemoteCommunicationFailure) }
    );
    for reply in [Reply::Submitted, Reply::Elapsed, Reply::Begin, Reply::Failed] {
        let (after, progress) = cursor.resume(&plan, &reply);
        assert_eq!(progress, Progress::Abort(WorkflowError::RemoteCommunicationFailure));
        assert_eq!(after, cursor);
    }
}

#[test]
fn reply_that_is_not_awaited_gives_the_script_up() {
    let plan = plan();
    let (_, progress) = Cursor::start().resume(&plan, &Reply::Submitted);
    assert_eq!(progress, Progress::Abort(UNEXPECTED));
    let (cursor, _) = Cursor::start().resume(&plan, &Reply::Begin);
    let (_, progress) = cursor.resume(&plan, &Reply::Elapsed);
    assert_eq!(progress, Progress::Abort(UNEXPECTED));
    let waiting = Cursor { position: 3, failure: None };
    let (_, progress) = waiting.resume(&plan, &Reply::Submitted);
    assert_eq!(progress, Progress::Abort(UNEXPECTED));
    let (_, progress) = waiting.resume(&plan, &Reply::Counter(Some(1)));
    assert_eq!(progress, Progress::Abort(UNEXPECTED));
    let (_, progress) = waiting.resume(&plan, &Reply::Elapsed);
    assert_eq!(progress, Progress::Perform(3));
}
