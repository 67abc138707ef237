use gif_relay::relay::{
    gif_attachment_indices, keep_fetched, AttachmentInfo, FetchedAttachment, Handler, MessageInfo,
    ScreenDecision,
};

fn handler() -> Handler {
    Handler {
        dest_channel_id: 900,
        gif_keep_millis: 10000,
        gif_domains: vec!["tenor.com".to_string()],
    }
}

fn plain_message(channel_id: u64, bot: bool, content: &str, atts: Vec<AttachmentInfo>) -> MessageInfo {
    MessageInfo {
        id: 1,
        channel_id,
        author_id: 42,
        author_is_bot: bot,
        content: content.to_string(),
        attachments: atts,
    }
}

fn gif_attachment(name: &str) -> AttachmentInfo {
    AttachmentInfo { filename: name.to_string(), content_type: Some("image/gif".to_string()) }
}

#[test]
fn message_without_attachments_or_links_is_rejected() {
    let h = handler();
    let msg = plain_message(5, false, "nothing to see here", Vec::new());
    assert!(matches!(h.screen(&msg), ScreenDecision::Reject));
    let empty = plain_message(5, false, "", Vec::new());
    assert!(matches!(h.screen(&empty), ScreenDecision::Reject));
}

#[test]
fn message_in_destination_channel_is_rejected() {
    let h = handler();
    let msg = plain_message(900, false, "https://e.com/x.gif", vec![gif_attachment("a.gif")]);
    assert!(matches!(h.screen(&msg), ScreenDecision::Reject));
}

#[test]
fn message_from_automated_account_is_rejected() {
    let h = handler();
    let msg = plain_message(5, true, "hi", vec![gif_attachment("a.gif")]);
    assert!(matches!(h.screen(&msg), ScreenDecision::Reject));
}

#[test]
fn message_with_attachment_proceeds_to_classification() {
    let h = handler();
    let msg = plain_message(5, false, "look", vec![gif_attachment("a.gif")]);
    match h.screen(&msg) {
        ScreenDecision::Classify { candidates } => assert!(candidates.is_empty()),
        ScreenDecision::Reject => panic!("message should be classified"),
    }
}

#[test]
fn screen_extracts_link_candidates_in_order() {
    let h = handler();
    let msg = plain_message(
        5,
        false,
        "check this https://example.com/x.gif out and https://example.com/y too",
        Vec::new(),
    );
    match h.screen(&msg) {
        ScreenDecision::Classify { candidates } => {
            assert_eq!(
                candidates,
                vec![
                    "https://example.com/x.gif".to_string(),
                    "https://example.com/y".to_string()
                ]
            );
        },
        ScreenDecision::Reject => panic!("message with links should be classified"),
    }
}

#[test]
fn gif_attachments_are_selected_by_declared_type() {
    let atts = vec![
        AttachmentInfo { filename: "a.png".to_string(), content_type: Some("image/png".to_string()) },
        gif_attachment("b.gif"),
        AttachmentInfo { filename: "c".to_string(), content_type: None },
        gif_attachment("d.gif"),
    ];
    let idx = gif_attachment_indices(&atts);
    assert_eq!(idx, vec![1, 3]);
}

#[test]
fn failed_download_drops_only_that_attachment() {
    let results = vec![
        Some(FetchedAttachment { filename: "a.gif".to_string(), bytes: vec![1, 2, 3] }),
        None,
        Some(FetchedAttachment { filename: "c.gif".to_string(), bytes: vec![9] }),
    ];
    let kept = keep_fetched(results);
    assert_eq!(kept.len(), 2);
    assert_eq!(kept[0].filename, "a.gif");
    assert_eq!(kept[0].bytes, vec![1, 2, 3]);
    assert_eq!(kept[1].filename, "c.gif");
}
