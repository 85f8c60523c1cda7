use smtp_discord_bridge::dispatch::{DeliveryOutcome, DiscordWebhookCommand, DispatchQueue, WorkerAction};
use smtp_discord_bridge::discord::DiscordWebhookAuth;
use smtp_discord_bridge::mailer::{AcceptRecipientResult, DiscordMailSink, DiscordMailerBuilder, Mail};
use smtp_discord_bridge::message::{embed_fields, join_lines_of};

fn sink(id: &str, body: &[u8]) -> DiscordMailSink {
    let mut s = DiscordMailSink::new(id.to_string(), "a@x".to_string(), vec!["b@y".to_string()]);
    s.start_send(body);
    s
}

fn delivered_body(a: WorkerAction<u32>) -> (String, u32) {
    match a {
        WorkerAction::Deliver { body, reply, .. } => (body, reply),
        _ => panic!("expected a delivery"),
    }
}

#[test]
fn chunks_accumulate_into_body() {
    let mut s = DiscordMailSink::new("m1".to_string(), "a@x".to_string(), vec!["b@y".to_string()]);
    for chunk in ["He", "ll", "o"] {
        s.start_send(chunk.as_bytes());
    }
    let mail = s.finalize();
    assert_eq!(mail.body, b"Hello".to_vec());
    assert_eq!(mail.id, "m1");
    assert_eq!(mail.sender, "a@x");
    assert_eq!(mail.recipients, vec!["b@y".to_string()]);
}

#[test]
fn empty_mail_has_empty_body() {
    let s = DiscordMailSink::new("m".to_string(), "a".to_string(), vec![]);
    assert!(s.finalize().body.is_empty());
}

#[test]
fn deliveries_follow_submission_order() {
    for n in 1..6u32 {
        let mut q: DispatchQueue<u32> = DispatchQueue::new();
        for i in 0..n {
            assert!(sink(&format!("m{}", i), format!("body {}", i).as_bytes()).queue(&mut q, i));
        }
        for i in 0..n {
            let (body, reply) = delivered_body(q.next_action());
            assert_eq!(body, format!("body {}", i));
            assert_eq!(reply, i);
            assert!(matches!(q.next_action(), WorkerAction::Wait));
            q.complete(format!("m{}", i), true);
        }
        assert!(matches!(q.next_action(), WorkerAction::Wait));
    }
}

#[test]
fn failed_delivery_does_not_poison() {
    let mut q: DispatchQueue<u32> = DispatchQueue::new();
    assert!(sink("m1", b"one").queue(&mut q, 1));
    let _ = delivered_body(q.next_action());
    assert!(matches!(q.complete("m1".to_string(), false), DeliveryOutcome::Failed));
    assert!(sink("m2", b"two").queue(&mut q, 2));
    let (body, reply) = delivered_body(q.next_action());
    assert_eq!((body.as_str(), reply), ("two", 2));
    match q.complete("m2".to_string(), true) {
        DeliveryOutcome::QueuedWithId(id) => assert_eq!(id, "m2"),
        DeliveryOutcome::Failed => panic!("second mail should succeed"),
    }
}

#[test]
fn invalid_text_body_fails_without_blocking() {
    let mut q: DispatchQueue<u32> = DispatchQueue::new();
    assert!(!sink("bad", &[0xff, 0xfe, 0x41]).queue(&mut q, 1));
    assert!(matches!(q.next_action(), WorkerAction::Wait));
    assert!(sink("good", b"fine").queue(&mut q, 2));
    let (body, _) = delivered_body(q.next_action());
    assert_eq!(body, "fine");
}

#[test]
fn utf8_body_is_decoded() {
    let mut q: DispatchQueue<u32> = DispatchQueue::new();
    assert!(sink("u", "héllo".as_bytes()).queue(&mut q, 0));
    let (body, _) = delivered_body(q.next_action());
    assert_eq!(body, "héllo");
}

#[test]
fn shutdown_drains_then_refuses() {
    let mut q: DispatchQueue<u32> = DispatchQueue::new();
    assert!(sink("m1", b"one").queue(&mut q, 1));
    assert!(q.submit(DiscordWebhookCommand::shutdown(), 0));
    assert!(!sink("m2", b"two").queue(&mut q, 2));
    assert!(!q.submit(DiscordWebhookCommand::shutdown(), 3));
    let (body, _) = delivered_body(q.next_action());
    assert_eq!(body, "one");
    q.complete("m1".to_string(), true);
    assert!(matches!(q.next_action(), WorkerAction::Stop));
    assert!(matches!(q.next_action(), WorkerAction::Stop));
    assert!(!sink("m3", b"three").queue(&mut q, 4));
}

#[test]
fn send_message_command_keeps_fields() {
    let c = DiscordWebhookCommand::send_message("f".to_string(), vec!["r".to_string()], "b".to_string());
    match c {
        DiscordWebhookCommand::SendMessage { from, recipients, body } => {
            assert_eq!(from, "f");
            assert_eq!(recipients, vec!["r".to_string()]);
            assert_eq!(body, "b");
        }
        DiscordWebhookCommand::Shutdown => panic!("wrong command"),
    }
}

#[test]
fn mail_into_command() {
    let m = Mail { id: "i".to_string(), sender: "s".to_string(), recipients: vec![], body: vec![0xc3] };
    assert!(m.into_command().is_none());
    let m = Mail { id: "i".to_string(), sender: "s".to_string(), recipients: vec![], body: b"ok".to_vec() };
    assert!(matches!(m.into_command(), Some(DiscordWebhookCommand::SendMessage { body, .. }) if body == "ok"));
}

#[test]
fn recipients_join_one_per_line() {
    assert_eq!(join_lines_of(&vec![]), "");
    assert_eq!(join_lines_of(&vec!["a".to_string()]), "a");
    assert_eq!(join_lines_of(&vec!["a".to_string(), "b".to_string(), "c".to_string()]), "a\nb\nc");
}

#[test]
fn embed_has_title_and_fields() {
    let m = embed_fields(&"me".to_string(), &vec!["x".to_string(), "y".to_string()], &"hi".to_string());
    assert_eq!(m.title, "New Email");
    assert_eq!(m.from, "me");
    assert_eq!(m.to, "x\ny");
    assert_eq!(m.body, "hi");
}

#[test]
fn gate_accepts_every_recipient() {
    let mailer = DiscordMailerBuilder::new().build(DiscordWebhookAuth::new(1, "t".to_string()));
    assert!(matches!(mailer.accept("z@q".to_string()), AcceptRecipientResult::Accepted(r) if r == "z@q"));
}

#[test]
fn builder_names() {
    let auth = || DiscordWebhookAuth::new(1, "t".to_string());
    assert_eq!(DiscordMailerBuilder::new().build(auth()).name(), "DiscordMailer");
    let m = DiscordMailerBuilder::new().with_name("relay").build(auth());
    assert_eq!(m.name(), "relay");
    assert_eq!(m.webhook_auth().id, 1);
}

#[test]
fn mailer_starts_empty_mail() {
    let m = DiscordMailerBuilder::new().build(DiscordWebhookAuth::new(1, "t".to_string()));
    let mail = m.mail("i".to_string(), "f".to_string(), vec!["r".to_string()]).finalize();
    assert!(mail.body.is_empty());
    assert_eq!(mail.recipients, vec!["r".to_string()]);
}
