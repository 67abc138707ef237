use gif_relay::classify::{
    classify_attachment, classify_link_local, classify_probe_outcome, classified_gif_links,
    probe_reply_indicates_gif, probe_targets, ProbeOutcome,
};

fn domains(list: &[&str]) -> Vec<String> {
    list.iter().map(|d| d.to_string()).collect()
}

#[test]
fn attachment_gif_iff_exact_media_type() {
    assert!(classify_attachment(&Some("image/gif".to_string())));
    assert!(!classify_attachment(&Some("image/png".to_string())));
    assert!(!classify_attachment(&Some("image/gifv".to_string())));
    assert!(!classify_attachment(&Some("IMAGE/GIF".to_string())));
    assert!(!classify_attachment(&Some("image/gif; charset=utf-8".to_string())));
    assert!(!classify_attachment(&None));
}

#[test]
fn link_with_gif_extension_is_gif_without_probe() {
    let ds = domains(&[]);
    assert!(classify_link_local("https://example.com/x.gif", &ds));
    assert!(classify_link_local("https://example.com/X.GIF", &ds));
    assert!(!classify_link_local("https://example.com/x.png", &ds));
    let urls = vec!["https://example.com/x.gif".to_string()];
    let targets = probe_targets(&urls, &ds);
    assert!(targets.is_empty());
}

#[test]
fn link_with_allow_listed_domain_is_gif_without_probe() {
    let ds = domains(&["tenor.com"]);
    assert!(classify_link_local("https://tenor.com/view/abc", &ds));
    assert!(classify_link_local("https://TENOR.com/view/abc", &ds));
    assert!(!classify_link_local("https://example.com/view/abc", &ds));
    let urls = vec!["https://tenor.com/view/abc".to_string()];
    let targets = probe_targets(&urls, &ds);
    assert!(targets.is_empty());
}

#[test]
fn allow_list_matching_ignores_case_of_the_domain_too() {
    let ds = domains(&["Tenor.com"]);
    assert!(classify_link_local("https://tenor.com/view/abc", &ds));
    assert!(classify_link_local("https://TENOR.COM/view/abc", &ds));
    assert!(!classify_link_local("https://example.com/view/abc", &ds));
    let urls = vec!["https://tenor.com/view/abc".to_string()];
    let targets = probe_targets(&urls, &ds);
    assert!(targets.is_empty());
}

#[test]
fn undecided_link_is_probed() {
    let ds = domains(&["tenor.com"]);
    let urls = vec![
        "https://example.com/a".to_string(),
        "https://tenor.com/b".to_string(),
        "https://example.com/c.gif".to_string(),
    ];
    let targets = probe_targets(&urls, &ds);
    assert_eq!(targets, vec!["https://example.com/a".to_string()]);
}

#[test]
fn failed_probe_is_never_a_gif() {
    assert!(!classify_probe_outcome(&ProbeOutcome::Failed));
}

#[test]
fn probe_reply_without_content_type_is_not_a_gif() {
    assert!(!classify_probe_outcome(&ProbeOutcome::Reply(
        "HTTP/1.1 200 OK\r\nserver: nginx\r\n".to_string()
    )));
    assert!(!probe_reply_indicates_gif(""));
}

#[test]
fn probe_reply_with_gif_content_type_is_a_gif() {
    let raw = "HTTP/1.1 200 OK\r\nContent-Type: image/gif\r\nserver: nginx\r\n";
    assert!(probe_reply_indicates_gif(raw));
    let lower = "http/1.1 200 ok\ncontent-type: image/gif\n";
    assert!(probe_reply_indicates_gif(lower));
}

#[test]
fn probe_reply_first_content_type_line_decides() {
    let raw = "Content-Type: text/html\nContent-Type: image/gif\n";
    assert!(!probe_reply_indicates_gif(raw));
    let raw2 = "Content-Type: image/gif\nContent-Type: text/html\n";
    assert!(probe_reply_indicates_gif(raw2));
}

#[test]
fn probe_reply_with_other_content_type_is_not_a_gif() {
    let raw = "HTTP/1.1 200 OK\r\nContent-Type: text/html; charset=utf-8\r\n";
    assert!(!probe_reply_indicates_gif(raw));
}

#[test]
fn classified_links_merge_local_and_probed_in_order() {
    let ds = domains(&[]);
    let urls = vec![
        "https://example.com/a.gif".to_string(),
        "https://example.com/b".to_string(),
        "https://example.com/c".to_string(),
    ];
    let targets = probe_targets(&urls, &ds);
    assert_eq!(
        targets,
        vec!["https://example.com/b".to_string(), "https://example.com/c".to_string()]
    );
    let probes = vec![
        ProbeOutcome::Reply("content-type: image/gif\n".to_string()),
        ProbeOutcome::Failed,
    ];
    let gifs = classified_gif_links(&urls, &ds, &probes);
    assert_eq!(
        gifs,
        vec!["https://example.com/a.gif".to_string(), "https://example.com/b".to_string()]
    );
}
