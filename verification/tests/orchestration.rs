use gif_relay::classify::{classified_gif_links, probe_targets};
use gif_relay::orchestrate::{
    should_relocate, Action, ActionKind, Relocation, RelocationState, StepOutcome,
};
use gif_relay::relay::{
    gif_attachment_indices, keep_fetched, AttachmentInfo, FetchedAttachment, Handler, MessageInfo,
    ScreenDecision,
};

fn handler() -> Handler {
    Handler {
        dest_channel_id: 900,
        gif_keep_millis: 10000,
        gif_domains: vec!["tenor.com".to_string()],
    }
}

fn kind_of(a: &Action) -> ActionKind {
    match a {
        Action::React { .. } => ActionKind::React,
        Action::Wait { .. } => ActionKind::Wait,
        Action::PostFiles { .. } => ActionKind::PostFiles,
        Action::PostMessage { .. } => ActionKind::PostMessage,
        Action::EditMessage { .. } => ActionKind::EditMessage,
        Action::DeleteMessage { .. } => ActionKind::DeleteMessage,
        Action::Finish => ActionKind::Finish,
    }
}

#[test]
fn attachment_message_relocates_in_order() {
    let h = handler();
    let msg = MessageInfo {
        id: 7,
        channel_id: 5,
        author_id: 42,
        author_is_bot: false,
        content: "my favourite".to_string(),
        attachments: vec![AttachmentInfo {
            filename: "a.gif".to_string(),
            content_type: Some("image/gif".to_string()),
        }],
    };
    match h.screen(&msg) {
        ScreenDecision::Classify { candidates } => assert!(candidates.is_empty()),
        ScreenDecision::Reject => panic!("should classify"),
    }
    let idx = gif_attachment_indices(&msg.attachments);
    assert_eq!(idx, vec![0]);
    let files = keep_fetched(vec![Some(FetchedAttachment {
        filename: "a.gif".to_string(),
        bytes: vec![0x47, 0x49, 0x46],
    })]);
    assert!(should_relocate(0, idx.len()));

    let mut r = Relocation::new(&h, &msg, Vec::new(), files);
    assert_eq!(r.state, RelocationState::Classified);
    assert_eq!(r.cleaned, "my favourite");

    let mut kinds = Vec::new();

    let a1 = r.step(StepOutcome::Done);
    kinds.push(kind_of(&a1));
    match &a1 {
        Action::React { channel_id, message_id, emoji } => {
            assert_eq!(*channel_id, 5);
            assert_eq!(*message_id, 7);
            assert_eq!(emoji, "\u{23f1}\u{fe0f}");
        },
        _ => panic!("expected a reaction first"),
    }

    let a2 = r.step(StepOutcome::Done);
    kinds.push(kind_of(&a2));
    match &a2 {
        Action::Wait { millis } => assert_eq!(*millis, 10000),
        _ => panic!("expected the grace delay"),
    }

    let a3 = r.step(StepOutcome::Done);
    kinds.push(kind_of(&a3));
    match &a3 {
        Action::PostFiles { channel_id, body } => {
            assert_eq!(*channel_id, 900);
            assert_eq!(body, "");
            assert_eq!(r.files.len(), 1);
        },
        _ => panic!("expected the gif post"),
    }

    let a4 = r.step(StepOutcome::Posted {
        message_id: 111,
        permalink: "https://chat.example/900/111".to_string(),
    });
    kinds.push(kind_of(&a4));
    match &a4 {
        Action::PostMessage { channel_id, body } => {
            assert_eq!(*channel_id, 5);
            assert_eq!(
                body,
                "my favourite\nGif(s) rerouted to https://chat.example/900/111. \
                 Original message sent by <@42>"
            );
        },
        _ => panic!("expected the trace post"),
    }

    let a5 = r.step(StepOutcome::Posted {
        message_id: 222,
        permalink: "https://chat.example/5/222".to_string(),
    });
    kinds.push(kind_of(&a5));
    match &a5 {
        Action::EditMessage { channel_id, message_id, body } => {
            assert_eq!(*channel_id, 900);
            assert_eq!(*message_id, 111);
            assert_eq!(body, "Gif from: https://chat.example/5/222");
        },
        _ => panic!("expected the backlink edit"),
    }

    let a6 = r.step(StepOutcome::Done);
    kinds.push(kind_of(&a6));
    match &a6 {
        Action::DeleteMessage { channel_id, message_id } => {
            assert_eq!(*channel_id, 5);
            assert_eq!(*message_id, 7);
        },
        _ => panic!("expected the original's deletion"),
    }

    let a7 = r.step(StepOutcome::Done);
    kinds.push(kind_of(&a7));
    assert!(matches!(a7, Action::Finish));
    assert_eq!(r.state, RelocationState::OriginalDeleted);

    assert_eq!(
        kinds,
        vec![
            ActionKind::React,
            ActionKind::Wait,
            ActionKind::PostFiles,
            ActionKind::PostMessage,
            ActionKind::EditMessage,
            ActionKind::DeleteMessage,
            ActionKind::Finish,
        ]
    );
}

#[test]
fn link_message_classifies_and_rewrites() {
    let h = handler();
    let msg = MessageInfo {
        id: 8,
        channel_id: 5,
        author_id: 42,
        author_is_bot: false,
        content: "check this https://example.com/x.gif out".to_string(),
        attachments: Vec::new(),
    };
    let candidates = match h.screen(&msg) {
        ScreenDecision::Classify { candidates } => candidates,
        ScreenDecision::Reject => panic!("should classify"),
    };
    assert_eq!(candidates, vec!["https://example.com/x.gif".to_string()]);
    let targets = probe_targets(&candidates, &h.gif_domains);
    assert!(targets.is_empty());
    let gifs = classified_gif_links(&candidates, &h.gif_domains, &Vec::new());
    assert_eq!(gifs, vec!["https://example.com/x.gif".to_string()]);

    let r = Relocation::new(&h, &msg, gifs, Vec::new());
    assert_eq!(r.cleaned, "check this out");

    let mut r = r;
    r.step(StepOutcome::Done);
    r.step(StepOutcome::Done);
    let post = r.step(StepOutcome::Done);
    match &post {
        Action::PostFiles { channel_id, body } => {
            assert_eq!(*channel_id, 900);
            assert_eq!(body, "New gif!");
        },
        _ => panic!("expected the gif post"),
    }
    let edit_target = r.step(StepOutcome::Posted {
        message_id: 300,
        permalink: "https://chat.example/900/300".to_string(),
    });
    match &edit_target {
        Action::PostMessage { body, .. } => {
            assert_eq!(
                body,
                "check this out\nGif(s) rerouted to https://chat.example/900/300. \
                 Original message sent by <@42>"
            );
        },
        _ => panic!("expected the trace post"),
    }
    let edit = r.step(StepOutcome::Posted {
        message_id: 301,
        permalink: "https://chat.example/5/301".to_string(),
    });
    match &edit {
        Action::EditMessage { message_id, body, .. } => {
            assert_eq!(*message_id, 300);
            assert_eq!(
                body,
                "Gif from: https://chat.example/5/301\nhttps://example.com/x.gif"
            );
        },
        _ => panic!("expected the backlink edit"),
    }
}

#[test]
fn attachment_only_trace_text_is_normalized() {
    let h = handler();
    let msg = MessageInfo {
        id: 11,
        channel_id: 5,
        author_id: 42,
        author_is_bot: false,
        content: "  spaced \t out  ".to_string(),
        attachments: vec![AttachmentInfo {
            filename: "a.gif".to_string(),
            content_type: Some("image/gif".to_string()),
        }],
    };
    let files = keep_fetched(vec![Some(FetchedAttachment {
        filename: "a.gif".to_string(),
        bytes: vec![1],
    })]);
    let mut r = Relocation::new(&h, &msg, Vec::new(), files);
    assert_eq!(r.cleaned, "spaced out");
    r.step(StepOutcome::Done);
    r.step(StepOutcome::Done);
    r.step(StepOutcome::Done);
    let trace = r.step(StepOutcome::Posted {
        message_id: 400,
        permalink: "https://chat.example/900/400".to_string(),
    });
    match &trace {
        Action::PostMessage { body, .. } => {
            assert_eq!(
                body,
                "spaced out\nGif(s) rerouted to https://chat.example/900/400. \
                 Original message sent by <@42>"
            );
        },
        _ => panic!("expected the trace post"),
    }
}

#[test]
fn empty_classified_set_is_not_relocated() {
    assert!(!should_relocate(0, 0));
    assert!(should_relocate(1, 0));
    assert!(should_relocate(0, 1));
}

#[test]
fn partial_download_failure_still_relocates() {
    let h = handler();
    let msg = MessageInfo {
        id: 9,
        channel_id: 5,
        author_id: 42,
        author_is_bot: false,
        content: String::new(),
        attachments: vec![
            AttachmentInfo {
                filename: "a.gif".to_string(),
                content_type: Some("image/gif".to_string()),
            },
            AttachmentInfo {
                filename: "b.gif".to_string(),
                content_type: Some("image/gif".to_string()),
            },
        ],
    };
    let idx = gif_attachment_indices(&msg.attachments);
    assert_eq!(idx, vec![0, 1]);
    let files = keep_fetched(vec![
        None,
        Some(FetchedAttachment { filename: "b.gif".to_string(), bytes: vec![1] }),
    ]);
    assert_eq!(files.len(), 1);
    assert!(should_relocate(0, idx.len()));
    let mut r = Relocation::new(&h, &msg, Vec::new(), files);
    r.step(StepOutcome::Done);
    r.step(StepOutcome::Done);
    let post = r.step(StepOutcome::Done);
    assert!(matches!(post, Action::PostFiles { .. }));
    assert_eq!(r.files.len(), 1);
    assert_eq!(r.files[0].filename, "b.gif");
}

#[test]
fn failed_step_abandons_the_rest() {
    let h = handler();
    let msg = MessageInfo {
        id: 10,
        channel_id: 5,
        author_id: 42,
        author_is_bot: false,
        content: String::new(),
        attachments: Vec::new(),
    };
    let mut r = Relocation::new(&h, &msg, vec!["https://e.com/x.gif".to_string()], Vec::new());
    r.step(StepOutcome::Done);
    r.step(StepOutcome::Done);
    r.step(StepOutcome::Done);
    let after_failure = r.step(StepOutcome::Failed);
    assert!(matches!(after_failure, Action::Finish));
    assert_eq!(r.state, RelocationState::Aborted);
    let again = r.step(StepOutcome::Done);
    assert!(matches!(again, Action::Finish));
    assert_eq!(r.state, RelocationState::Aborted);
}
