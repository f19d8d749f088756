use pooprusteek::app::conversation::ConversationId;
use pooprusteek::app::interaction::{
    current_is_target, presentation_status, slot_is_busy, Arrival, InteractionQueue, Waiting,
};

fn approval(ticket: u64, conversation: u64, tool: &str) -> Waiting {
    Waiting::Approval { ticket, conversation: ConversationId(conversation), tool_name: tool.to_string() }
}

#[test]
fn an_allowed_tool_runs_without_asking() {
    let mut q = InteractionQueue::new();
    let (arrival, status) = q.approval_requested(1, ConversationId(1), "bash".to_string(), true, true);
    assert_eq!(arrival, Arrival::AutoApprove);
    assert_eq!(status, "Running bash (auto-approved)");
    assert_eq!(q.len(), 0);
}

#[test]
fn a_busy_screen_queues_and_counts() {
    let mut q = InteractionQueue::new();
    let (arrival, status) = q.approval_requested(1, ConversationId(1), "bash".to_string(), false, true);
    assert_eq!(arrival, Arrival::Queued);
    assert_eq!(status, "1 interaction(s) queued");
    let (arrival, status) = q.approval_requested(2, ConversationId(2), "edit".to_string(), false, true);
    assert_eq!(arrival, Arrival::Queued);
    assert_eq!(status, "2 interaction(s) queued");
    let (arrival, status) = q.approval_requested(3, ConversationId(2), "edit".to_string(), false, false);
    assert_eq!(arrival, Arrival::Present);
    assert_eq!(status, "Approve tool edit?");
    assert_eq!(q.len(), 2);
}

#[test]
fn questions_queue_behind_a_busy_screen() {
    let mut q = InteractionQueue::new();
    assert!(!q.question_requested(7, true));
    assert!(q.question_requested(8, false));
    assert_eq!(q.items(), &[Waiting::Question { ticket: 7 }][..]);
}

#[test]
fn next_skips_approvals_allowed_meanwhile() {
    let mut q = InteractionQueue::new();
    q.approval_requested(1, ConversationId(1), "read".to_string(), false, true);
    q.approval_requested(2, ConversationId(1), "read".to_string(), false, true);
    q.question_requested(3, true);
    q.approval_requested(4, ConversationId(2), "bash".to_string(), false, true);
    let (settled, shown) = q.present_next(&[true, true, false, false]);
    assert_eq!(settled, vec![1, 2]);
    assert_eq!(shown, Some(Waiting::Question { ticket: 3 }));
    assert_eq!(q.items(), &[approval(4, 2, "bash")][..]);
    let (settled, shown) = q.present_next(&[true]);
    assert_eq!(settled, vec![4]);
    assert_eq!(shown, None);
    assert_eq!(q.len(), 0);
}

#[test]
fn purge_denies_only_the_cancelled_conversations_approvals() {
    let mut q = InteractionQueue::new();
    q.approval_requested(1, ConversationId(1), "bash".to_string(), false, true);
    q.question_requested(2, true);
    q.approval_requested(3, ConversationId(2), "edit".to_string(), false, true);
    q.approval_requested(4, ConversationId(1), "edit".to_string(), false, true);
    let denied = q.purge(ConversationId(1));
    assert_eq!(denied, vec![1, 4]);
    assert_eq!(q.items(), &[Waiting::Question { ticket: 2 }, approval(3, 2, "edit")][..]);
    assert!(q.purge(ConversationId(9)).is_empty());
    assert_eq!(q.len(), 2);
}

#[test]
fn screen_and_target_checks() {
    assert!(slot_is_busy(false, false, true));
    assert!(!slot_is_busy(false, false, false));
    assert!(current_is_target(Some(ConversationId(3)), ConversationId(3)));
    assert!(!current_is_target(Some(ConversationId(2)), ConversationId(3)));
    assert!(!current_is_target(None, ConversationId(3)));
    assert_eq!(presentation_status(&approval(1, 1, "bash")), "Approve tool bash?");
    assert_eq!(presentation_status(&Waiting::Question { ticket: 1 }), "Question pending...");
}
