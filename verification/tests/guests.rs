use runloop::crew::common::Review;
use runloop::guests::blocks::expand_home;
use runloop::guests::context::{build_context, contact_bytes, decode_payload};
use runloop::guests::critic::{critique, DraftText};
use runloop::guests::helper::{request, tell};
use runloop::guests::host::{
    complete_model, decode_prefixed, exec_capture, map_model_error, ExecError, ExecResult, ModelError, ModelOutput,
    ModelOutputMeta,
};
use runloop::guests::mailer::{check_review, send, ContactInput, DraftInput};
use runloop::guests::resolver::{resolve, slug};
use runloop::guests::shell::{
    bashrc_path, history_change, parse_input, render_tmux_block, report, tmux_change, tmux_path,
    upsert_history_limits, upsert_tmux_block, Input, TMUX_MARKER_START,
};
use runloop::guests::tmux::{commands, line_count, outcome, render_block, sh_escape, upsert_block, Preset};
use runloop::guests::writer::{render, ContextInput, Recipient, SnippetInput};
use runloop::json::compact;

fn reviewed(body: &str) -> Review {
    critique(&DraftText { body_md: body.to_string(), word_count: body.split_whitespace().count() })
}

#[test]
fn marks_overlong_as_blocking() {
    let r = reviewed(&"word ".repeat(200));
    assert!(!r.ok);
    assert_eq!(r.notes.summary, "Draft needs attention.");
    assert!(r.notes.suggestions.iter().any(|s| s.contains("Trim the draft")));
}

#[test]
fn missing_thank_you_is_non_blocking() {
    let r = reviewed(&"hello ".repeat(25));
    assert!(r.ok);
    assert_eq!(r.notes.summary, "Draft looks good with minor polish.");
    assert!(r.notes.suggestions.iter().any(|s| s.contains("thank-you")));
}

#[test]
fn main_blocks_too_short_draft() {
    let r = reviewed("Hello there");
    assert!(!r.ok);
    assert_eq!(r.notes.summary, "Draft needs attention.");
    assert!(r.notes.suggestions.iter().any(|s| s.contains("at least")));
}

#[test]
fn approves_clean_draft() {
    let body =
        "thanks for reviewing this draft. it covers the requested updates and next steps we discussed.".repeat(2);
    let r = reviewed(&body);
    assert!(r.ok);
    assert_eq!(r.notes.summary, "Draft looks good.");
    assert!(r.notes.suggestions.is_empty());
}

#[test]
fn unreported_words_are_counted() {
    let r = critique(&DraftText { body_md: "thanks ".repeat(12), word_count: 0 });
    assert!(r.ok);
    let s = critique(&DraftText { body_md: "thanks ".repeat(12), word_count: 3 });
    assert!(!s.ok);
}

#[test]
fn includes_delivery_metadata() {
    let draft = DraftInput { artifact_id: 42, body_md: "hello".to_string() };
    let contact = ContactInput { email: "test@example.com".to_string() };
    let mail = send(&draft, &contact);
    assert_eq!(mail.status, "dry-run");
    assert_eq!(mail.message_id, "dryrun-42");
    assert_eq!(mail.delivered_at_ms, 0);
    assert!(mail.body_preview.as_ref().is_some_and(|p| p.contains("hello")));
}

#[test]
fn previews_have_eight_lines() {
    let draft = DraftInput { artifact_id: 0, body_md: "1\n2\n3\r\n4\n5\n6\n7\n8\n9\n".to_string() };
    let mail = send(&draft, &ContactInput { email: "e".to_string() });
    assert_eq!(mail.message_id, "dryrun");
    assert_eq!(mail.body_preview.as_deref(), Some("1\n2\n3\n4\n5\n6\n7\n8"));
    assert_eq!(mail.recipients, vec!["e".to_string()]);
    assert!(check_review(true).is_ok());
    assert_eq!(check_review(false).unwrap_err(), "review rejected draft");
}

#[test]
fn parses_empty_input() {
    let input = parse_input(None, None).unwrap();
    assert!(input.tmux_conf.is_none());
}

#[test]
fn inputs_that_cannot_be_read_are_refused() {
    assert!(parse_input(Some("  "), None).is_ok());
    assert_eq!(
        parse_input(Some("x"), None).unwrap_err(),
        "input must be JSON (see agents/system_tra/README.md for shape)"
    );
    let read = Input { history_limit: Some(3), ..Input::default() };
    assert_eq!(parse_input(Some("{}"), Some(read)).unwrap().history_limit, Some(3));
}

#[test]
fn renders_and_upserts_tmux_block() {
    let block = render_tmux_block(42, &vec!["set -g mouse on".to_string()]);
    assert!(block.contains("history_limit=42"));
    let merged = upsert_tmux_block("set -g base-index 1\n", &block);
    assert!(merged.contains(TMUX_MARKER_START));
    let merged_again = upsert_tmux_block(&merged, &block);
    assert_eq!(merged, merged_again);
}

#[test]
fn a_tmux_block_takes_the_place_of_the_last() {
    let first = render_tmux_block(42, &vec!["set -g mouse on".to_string()]);
    let second = render_tmux_block(7, &vec![]);
    let merged = upsert_tmux_block(&upsert_tmux_block("a\n", &first), &second);
    assert_eq!(merged, upsert_tmux_block("a\n", &second));
    assert_eq!(merged.matches(TMUX_MARKER_START).count(), 1);
    assert!(!merged.contains("mouse"));
}

#[test]
fn updates_history_limits() {
    let existing = "export PATH=/bin\nHISTSIZE=10\n# keep above\nHISTFILESIZE=10\n";
    let updated = upsert_history_limits(existing, 100, 200, "# managed");
    assert!(updated.contains("HISTSIZE=100"));
    assert!(updated.contains("HISTFILESIZE=200"));
    assert!(updated.ends_with('\n'));
    assert!(!updated.contains("HISTSIZE=10\n"));
    assert!(!updated.contains("HISTFILESIZE=10\n"));
    assert_eq!(updated, "export PATH=/bin\n# keep above\n\n# managed\nHISTSIZE=100\nHISTFILESIZE=200\n");
}

#[test]
fn blocks_replace_blocks() {
    let block = render_block(Preset::Minimal, &vec![]);
    let text = format!("before\n\n{}\nafter\n", block);
    let other = render_block(Preset::Stacked, &vec!["x".to_string()]);
    let merged = upsert_block(&text, &other);
    assert_eq!(merged, format!("before\n\n{}\n\nafter\n\n", other.trim_end()));
    assert_eq!(upsert_block("", &block), block);
    assert_eq!(upsert_block(&block, &block), block);
    assert_eq!(upsert_block(&upsert_block("a\n", &block), &other), upsert_block("a\n", &other));
    assert_eq!(upsert_block("a\n\n\n", &block), format!("a\n\n{block}"));
}

#[test]
fn presets_have_their_lines() {
    assert_eq!(line_count(&render_block(Preset::Sensible, &vec![])), 25);
    assert_eq!(line_count(&render_block(Preset::Minimal, &vec![])), 14);
    assert_eq!(line_count(&render_block(Preset::Stacked, &vec!["x".to_string()])), 23);
    assert_eq!(Preset::Stacked.as_str(), "stacked");
    let b = render_block(Preset::Sensible, &vec![]);
    assert!(b.starts_with("# >>> runloop:tmux_layout preset=sensible\n# managed by the tmux_layout agent\n"));
    assert!(b.contains("bind r source-file ~/.tmux.conf \\; display-message \"reloaded ~/.tmux.conf\"\n"));
    assert!(b.ends_with("# <<< runloop:tmux_layout\n"));
}

#[test]
fn commands_are_quoted_for_the_shell() {
    assert_eq!(sh_escape(""), "''");
    assert_eq!(sh_escape("a'b"), "'a'\\''b'");
    assert_eq!(
        commands("/h/.tmux.conf", true, &Some("tiled".to_string())),
        vec!["tmux source-file '/h/.tmux.conf'".to_string(), "tmux select-layout 'tiled'".to_string()]
    );
    assert!(commands("/h", false, &None).is_empty());
}

#[test]
fn outcomes_tell_of_failures() {
    let good = outcome(
        "c",
        Ok(ExecResult { exit_code: 2, stdout: "o".to_string(), stderr: "e".to_string() }),
    );
    assert_eq!(good.exit_code, Some(2));
    assert!(good.error.is_none());
    let bad = outcome("c", Err(ExecError::Signal));
    assert_eq!(bad.error.as_deref(), Some("process terminated by signal"));
    assert!(bad.exit_code.is_none());
}

#[test]
fn changes_are_planned() {
    let input = Input::default();
    let home = Some("/home/u".to_string());
    assert_eq!(tmux_path(&input, &home).unwrap(), "/home/u/.tmux.conf");
    assert_eq!(bashrc_path(&input, &home).unwrap(), "/home/u/.bashrc");
    assert_eq!(tmux_path(&input, &None).unwrap_err(), "HOME not set in environment");
    assert_eq!(expand_home("/x", &None).unwrap(), "/x");
    let t = tmux_change(&input, "");
    assert!(t.updated);
    assert!(t.text.contains("set -g history-limit 50000\n"));
    assert!(!tmux_change(&input, &t.text).updated);
    let h = history_change(&input, "");
    assert_eq!(h.text, "# runloop:system_tra\nHISTSIZE=50000\nHISTFILESIZE=100000\n");
    let r = report(&input, "a".to_string(), true, "b".to_string(), false);
    assert_eq!((r.history_limit, r.hist_size, r.hist_file_size, r.extra_tmux_lines), (50000, 50000, 100000, 0));
}

#[test]
fn writers_render_mails() {
    let recipient = Recipient { name: Some("Ann".to_string()) };
    let context = Some(ContextInput {
        snippets: vec![
            SnippetInput { excerpt: Some("Up".to_string()), event_id: Some(4) },
            SnippetInput { excerpt: Some(String::new()), event_id: Some(5) },
            SnippetInput { excerpt: None, event_id: None },
        ],
    });
    let out = render(&recipient, &context, "Q4", "formal");
    assert_eq!(
        out.body_md,
        "Hello Ann,\n\nI wanted to follow up about Q4.\n\nKey updates:\n- Up\n\nLet me know if you have any questions or if you'd like to chat more.\n\nBest,\nRunloop Agent"
    );
    assert_eq!(out.rationale, "Draft generated for Ann about Q4");
    assert_eq!(out.citations, vec![4, 5]);
    assert_eq!(out.word_count, out.body_md.split_whitespace().count());
    let plain = render(&Recipient { name: Some(String::new()) }, &None, "Q4", "enthusiastic");
    assert!(plain.body_md.starts_with("Hey there,\n\nI wanted to follow up about Q4.\n\nLet me know"));
    assert!(plain.citations.is_empty());
}

#[test]
fn contexts_are_built() {
    let b = build_context("Q4", &Some("Ann".to_string()), Some(9));
    assert_eq!(b.snippets.len(), 3);
    assert_eq!(b.snippets[0].title, "Q4 planning sync");
    assert_eq!(b.snippets[2].excerpt, "Ann prefers concise status updates.");
    assert_eq!(b.generated_at_ms, Some(9));
    assert_eq!(build_context("Q4", &None, None).snippets.len(), 2);
}

#[test]
fn handed_over_bytes_are_decoded() {
    assert_eq!(decode_payload("aGVsbG8=", "draft").unwrap(), b"hello".to_vec());
    assert_eq!(decode_payload("!", "draft").unwrap_err(), "failed to decode draft payload");
    assert_eq!(contact_bytes(&None).unwrap(), None);
    assert_eq!(contact_bytes(&Some(String::new())).unwrap(), None);
    assert_eq!(contact_bytes(&Some("aGk=".to_string())).unwrap(), Some(b"hi".to_vec()));
    assert_eq!(contact_bytes(&Some("?".to_string())).unwrap_err(), "failed to decode contact payload");
}

#[test]
fn known_contacts_are_found() {
    assert_eq!(resolve("  JOHN ").unwrap().email, "john@acme.com");
    assert_eq!(resolve("maria@").unwrap().contact_id, "contact:maria-lee");
    assert_eq!(resolve(" ").unwrap_err(), "--query must not be empty");
    let stub = resolve("new  person").unwrap();
    assert_eq!(stub.contact_id, "contact:new-person");
    assert_eq!(stub.name, "New Person");
    assert_eq!(stub.email, "new-person@unknown.local");
    let by_mail = resolve("Some.One@X.org").unwrap();
    assert_eq!(by_mail.name, "Some.One");
    assert_eq!(by_mail.email, "some.one@x.org");
    assert_eq!(by_mail.contact_id, "contact:someonexorg");
    let odd = resolve("¿?").unwrap();
    assert_eq!(odd.contact_id.len(), "contact:".len() + 36);
    assert_eq!(slug("A__b -c").as_deref(), Some("a-b-c"));
    assert_eq!(slug("--"), None);
}

#[test]
fn host_answers_are_decoded() {
    assert_eq!(decode_prefixed(&vec![2, 0, 0, 0, b'h', b'i', 9]).unwrap().as_deref(), Some("hi"));
    assert_eq!(decode_prefixed(&vec![3, 0, 0, 0, b'h', b'i']).unwrap(), None);
    assert_eq!(decode_prefixed(&vec![0, 0, 0, 0]).unwrap(), None);
    assert_eq!(decode_prefixed(&vec![1]).unwrap(), None);
    assert!(decode_prefixed(&vec![1, 0, 0, 0, 0xff]).unwrap_err().contains("invalid utf-8"));
    let reply = complete_model(2, &b"hi!".to_vec(), &vec![1, 0, 0, 0, 0xc0]).unwrap();
    assert_eq!(reply.text, "hi");
    assert_eq!(reply.meta, Some(vec![0xc0]));
    assert!(matches!(complete_model(-6, &vec![], &vec![]), Err(ModelError::NoSpace)));
    assert!(matches!(complete_model(1, &vec![0xff], &vec![]), Err(ModelError::Utf8(_))));
    let ran = exec_capture(3, &vec![2, 0, 0, 0, b'o', b'k'], &vec![]).unwrap();
    assert_eq!((ran.exit_code, ran.stdout.as_str(), ran.stderr.as_str()), (3, "ok", ""));
    assert!(matches!(exec_capture(-2, &vec![], &vec![]), Err(ExecError::SpawnFailed)));
    assert!(matches!(exec_capture(0, &vec![], &vec![1, 0, 0, 0, 0xff]), Err(ExecError::Utf8(_))));
}

#[test]
fn host_failures_are_told() {
    let told: Vec<String> = (1..=8).map(|n| map_model_error(-n).message()).collect();
    assert_eq!(
        told,
        vec![
            "streaming unsupported",
            "budget exceeded",
            "request timed out",
            "provider failed",
            "invalid request",
            "output truncated",
            "request cancelled",
            "hostcall failed: unexpected code -8",
        ]
    );
    let codes: Vec<String> = [-1, -2, -3, -4, -5]
        .iter()
        .map(|c| exec_capture(*c, &vec![], &vec![]).unwrap_err().message())
        .collect();
    assert_eq!(
        codes,
        vec![
            "invalid arguments",
            "spawn failed",
            "process terminated by signal",
            "insufficient buffer for output",
            "hostcall failed: unexpected code -5",
        ]
    );
    assert_eq!(ModelError::Meta("m".to_string()).message(), "failed to decode metadata: m");
    assert_eq!(ModelError::Serialize("m".to_string()).message(), "failed to serialize request: m");
}

#[test]
fn helpers_tell_what_they_did() {
    let r = request("gemini-1.5-flash", "p".to_string());
    assert_eq!(r.params.as_ref().unwrap().temperature.as_ref().unwrap().short, "0.4");
    assert_eq!((r.budget_tokens, r.timeout_ms), (Some(4096), Some(15000)));
    assert_eq!(compact(&tell(&None, &None, &None)), "{}");
    let answer = Some(ModelOutput {
        text: "t".to_string(),
        meta: Some(ModelOutputMeta {
            tokens_in: Some(1),
            tokens_out: None,
            cached: true,
            provider: "p".to_string(),
            provider_model: "m".to_string(),
            latency_ms: 5,
            finish_reason: None,
        }),
    });
    let ran = Some(ExecResult { exit_code: -1, stdout: "o".to_string(), stderr: String::new() });
    assert_eq!(
        compact(&tell(&answer, &Some("ls".to_string()), &ran)),
        r#"{"exec":{"command":"ls","exit_code":-1,"stderr":"","stdout":"o"},"model":{"meta":{"cached":true,"finish_reason":null,"latency_ms":5,"provider":"p","provider_model":"m","tokens_in":1,"tokens_out":null},"text":"t"}}"#
    );
}
