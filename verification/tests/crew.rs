use runloop::broker::types::{BrokerError, Fraction};
use runloop::crew::common::{
    contact_payload, ActionDecision, AgentError, ContextBundle, ContextSnippet, DraftArtifact, Errand,
    ResolvedContact, Review, ReviewNotes,
};
use runloop::crew::critic::{critique, ReviewRequest};
use runloop::crew::gatherer::{
    context_query, gather, normalize_like_pattern, payload_like_clause, row_fit, summarisable, summarise_payload,
    ContextRequest,
};
use runloop::crew::mailer::{propose_mail, send, DraftData, MailRequest};
use runloop::crew::resolver::{
    best_score, create_stub_contact, likeness, lookup_query, row_to_contact, row_trust, slug, Likeness,
};
use runloop::crew::writer::{
    artifact_payload, draft_artifact, draft_body, draft_citations, draft_event, draft_path, draft_rationale, fallback_output,
    model_request, new_draft_path, render_prompt, DraftRequest,
};
use runloop::ids::{AgentId, EventId, OpeningId, TraceId};
use runloop::json::{compact, read_json, text_in};
use runloop::kb::ledger::{event_row, KbError};
use runloop::kb::views::{apply_event, PendingEvent, ViewChange};
use runloop::prose::{capitalize_words, trim_to_words};

fn fraction(short: &str, wide: &str) -> Fraction {
    Fraction { short: short.to_string(), wide: wide.to_string() }
}

fn contact(name: &str, email: &str, org: Option<&str>) -> ResolvedContact {
    ResolvedContact {
        contact_id: "test".to_string(),
        name: name.to_string(),
        email: email.to_string(),
        org: org.map(|s| s.to_string()),
        confidence: fraction("1.0", "1.0"),
        last_event_id: None,
    }
}

fn errand() -> Errand {
    Errand { trace_id: TraceId(1), opening_id: OpeningId(2), agent_id: AgentId(3) }
}

#[test]
fn contact_payload_omits_org_when_none() {
    let payload = contact_payload(&contact("Test User", "test@example.com", None), &fraction("0.5", "0.5"));
    assert!(payload.get("org").is_none());
    assert_eq!(text_in(payload.get("name")).map(|s| s.as_str()), Some("Test User"));
}

#[test]
fn contact_payload_includes_org_when_some() {
    let payload =
        contact_payload(&contact("Test User", "test@example.com", Some("Acme Corp")), &fraction("0.5", "0.5"));
    assert_eq!(text_in(payload.get("org")).map(|s| s.as_str()), Some("Acme Corp"));
}

#[test]
fn contact_payload_is_exact() {
    let payload = contact_payload(&contact("A", "a@b", Some("C")), &fraction("0.2", "0.20000000298023224"));
    assert_eq!(
        compact(&payload),
        r#"{"email":"a@b","evidence":[],"name":"A","org":"C","trust":0.20000000298023224}"#
    );
}

#[test]
fn summarise_payload_highlights_topic_window() {
    let payload = "The team discussed the Q4 plan and next steps during the sync.";
    assert!(summarisable(payload, "Q4"));
    let excerpt = summarise_payload(payload, "Q4");
    assert!(excerpt.contains("Q4"));
    assert!(excerpt.len() <= payload.len());
}

#[test]
fn long_payloads_are_cut() {
    let long = format!("{}needle{}", "a".repeat(100), "b".repeat(100));
    assert_eq!(summarise_payload(&long, "NEEDLE"), format!("…{}needle{}…", "a".repeat(30), "b".repeat(30)));
    assert_eq!(summarise_payload(&long, ""), format!("{}needle{}…", "a".repeat(100), "b".repeat(11)));
    assert_eq!(summarise_payload(&long, "absent"), format!("{}needle{}…", "a".repeat(100), "b".repeat(11)));
    let start = format!("needle{}", "b".repeat(200));
    assert_eq!(summarise_payload(&start, "needle"), format!("…needle{}…", "b".repeat(30)));
    let end = format!("{}needle", "a".repeat(200));
    assert_eq!(summarise_payload(&end, "needle"), format!("…{}needle…", "a".repeat(30)));
}

#[test]
fn windows_within_a_character_are_noticed() {
    let bad = format!("{}é{}needle", "a".repeat(100), "b".repeat(29));
    assert!(!summarisable(&bad, "needle"));
    let good = format!("{}é{}needle", "a".repeat(100), "b".repeat(28));
    assert!(summarisable(&good, "needle"));
    assert_eq!(summarise_payload(&good, "needle"), format!("…é{}needle…", "b".repeat(28)));
}

#[test]
fn normalize_like_pattern_escapes_specials_and_lowercases() {
    assert_eq!(normalize_like_pattern(r#"Q4_Plan 50%\ Path's"#), r#"q4\_plan 50\%\\ path''s"#);
}

#[test]
fn payload_like_clause_builds_literal_case_insensitive_match() {
    let clause = payload_like_clause("John_Doe 50%");
    assert_eq!(clause, "LOWER(payload_json) LIKE '%john\\_doe 50\\%%' ESCAPE '\\\\'");
}

#[test]
fn context_queries_name_contact_and_topic() {
    let none = ContextRequest { topic: String::new(), contact: None };
    assert_eq!(
        context_query(&none),
        "SELECT id, kind, payload_json FROM events WHERE 1=1 ORDER BY id DESC LIMIT 5"
    );
    let all = ContextRequest { topic: "Q".to_string(), contact: Some(contact("N", "e@x", None)) };
    assert_eq!(
        context_query(&all),
        format!(
            "SELECT id, kind, payload_json FROM events WHERE {} OR {} OR {} ORDER BY id DESC LIMIT 5",
            payload_like_clause("e@x"),
            payload_like_clause("N"),
            payload_like_clause("Q")
        )
    );
}

#[test]
fn gathering_skips_broken_rows_and_never_ends_empty() {
    let req = ContextRequest { topic: "plan".to_string(), contact: Some(contact("Ann", "a@x", None)) };
    let rows = vec![
        read_json(r#"{"id": 4, "kind": "run.started", "payload_json": "short"}"#).unwrap(),
        read_json(r#"{"id": "x", "kind": "run.started", "payload_json": "short"}"#).unwrap(),
    ];
    assert!(rows.iter().all(|r| row_fit(r, "plan")));
    let bundle = gather(&req, &rows);
    assert_eq!(bundle.snippets.len(), 1);
    assert_eq!(bundle.snippets[0].title, "run.started event");
    assert_eq!(bundle.snippets[0].excerpt, "short");
    assert_eq!(bundle.snippets[0].event_id.0, 4);
    let empty = gather(&req, &vec![]);
    assert_eq!(empty.snippets[0].title, "No prior events for Ann");
    assert_eq!(
        empty.snippets[0].excerpt,
        "No recorded artifacts mention \"plan\" yet. Consider adding recent notes."
    );
    assert_eq!(empty.snippets[0].event_id.0, 0);
}

fn draft_with(body: &str) -> DraftArtifact {
    DraftArtifact {
        artifact_id: EventId(1),
        path: "/tmp/draft.md".to_string(),
        sha256: "abc123".to_string(),
        body_md: body.to_string(),
        rationale: "test".to_string(),
        citations: Vec::new(),
        word_count: body.split_whitespace().count(),
    }
}

fn review(body: &str) -> Review {
    critique(&ReviewRequest { draft: draft_with(body) })
}

#[test]
fn flags_too_long_drafts() {
    let r = review(&"word ".repeat(190));
    assert!(!r.ok);
    assert_eq!(r.notes.summary, "Draft needs attention.");
    assert!(r.notes.suggestions.iter().any(|s| s.contains("Trim the draft")));
    assert_eq!(r.notes.suggestions[0], "Trim the draft to at most 180 words (currently 190).");
}

#[test]
fn lib_blocks_too_short_draft() {
    let r = review("Hello there");
    assert!(!r.ok, "short drafts should be blocking");
    assert_eq!(r.notes.summary, "Draft needs attention.");
    assert!(r.notes.suggestions.iter().any(|s| s.contains("at least")));
}

#[test]
fn suggests_thank_you_when_missing() {
    let r = review(&"hello ".repeat(25));
    assert!(r.ok, "missing thank-you is advisory, not blocking");
    assert_eq!(r.notes.summary, "Draft looks good with minor polish.");
    assert!(r.notes.suggestions.iter().any(|s| s.contains("thank-you")));
}

#[test]
fn passes_well_formed_draft() {
    let body =
        "thanks for reviewing this draft. it covers the requested updates and next steps for the team.".repeat(2);
    let r = review(&body);
    assert!(r.ok);
    assert_eq!(r.notes.summary, "Draft looks good.");
    assert!(r.notes.suggestions.is_empty());
}

#[test]
fn thank_you_check_is_case_insensitive() {
    let body = "thanks for your help pulling the data together for this release. the details were really useful for closing out the plan.";
    let r = review(body);
    assert!(r.ok);
    assert_eq!(r.notes.summary, "Draft looks good.");
    assert!(r.notes.suggestions.is_empty());
    assert!(review(&body.to_uppercase()).notes.suggestions.is_empty());
}

fn sample_request() -> DraftRequest {
    DraftRequest {
        recipient: ResolvedContact {
            contact_id: "contact:test".to_string(),
            name: "Alex".to_string(),
            email: "alex@example.com".to_string(),
            org: None,
            confidence: fraction("0.9", "0.8999999761581421"),
            last_event_id: None,
        },
        topic: "Roadmap".to_string(),
        context: ContextBundle {
            topic: "Roadmap".to_string(),
            snippets: vec![ContextSnippet {
                title: "Update".to_string(),
                excerpt: "Shipped auth".to_string(),
                event_id: EventId(1),
            }],
        },
        tone: Some("upbeat".to_string()),
        length_hint: Some((50, 80)),
        model: None,
        max_words: Some(180),
    }
}

#[test]
fn trim_to_words_enforces_limit() {
    let body = "one two three four five";
    assert_eq!(trim_to_words(body, 3), "one two three");
    assert_eq!(trim_to_words("  one \n two ", 9), "one two");
}

#[test]
fn render_prompt_includes_context_bullets() {
    let prompt = render_prompt(&sample_request());
    assert!(prompt.contains("Target length: 50-80 words."));
    assert!(prompt.contains("- Shipped auth"));
    assert!(prompt.contains("Tone: upbeat"));
}

#[test]
fn prompts_and_requests_are_exact() {
    let mut req = sample_request();
    assert_eq!(
        render_prompt(&req),
        "Write an email to Alex (alex@example.com) about \"Roadmap\". Tone: upbeat. Target length: 50-80 words.\nContext bullets:\n- Shipped auth\n"
    );
    req.tone = None;
    req.length_hint = None;
    req.context.snippets.clear();
    assert_eq!(
        render_prompt(&req),
        "Write an email to Alex (alex@example.com) about \"Roadmap\". Tone: neutral-friendly. Target length: under 180 words."
    );
    let m = model_request(&req, TraceId(5));
    assert_eq!(m.model, "null:compose");
    assert_eq!(m.budget_tokens, Some(4000));
    assert_eq!(m.timeout_ms, Some(10000));
    assert_eq!(m.cache_ttl_ms, Some(60000));
    assert!(!m.stream);
}

#[test]
fn templates_stand_in_for_models() {
    let out = fallback_output(&sample_request());
    assert_eq!(
        out.text,
        "Hi Alex,\n\nI wanted to follow up about roadmap. Recently, Shipped auth. Let me know if you have any questions or if you'd like to chat more.\n\nBest,\nRunloop\n"
    );
    assert_eq!(out.provider, "fallback");
    assert_eq!(out.finish_reason.as_deref(), Some("fallback"));
}

#[test]
fn drafts_are_cut_and_recorded() {
    assert_eq!(draft_body("  a b c  ", Some(2)), "a b");
    assert_eq!(draft_body("  a  b ", Some(2)), "a  b");
    let long = "w ".repeat(200);
    assert_eq!(draft_body(&long, None).split_whitespace().count(), 180);
    let req = sample_request();
    assert_eq!(draft_rationale(&req), "draft generated for Alex about Roadmap");
    let ids = draft_citations(&req);
    assert_eq!(ids.len(), 1);
    assert_eq!(
        compact(&artifact_payload("/p", "abc", "Alex", &ids)),
        r#"{"citations":[1],"kind":"draft_email.md","path":"/p","sha256":"ba7816bf8f01cfea414140de5dae2223b00361a396177a9cb410ff61f20015ad","summary":"Draft email to Alex"}"#
    );
    let event = draft_event(&errand(), "/p", "abc", "Alex", &ids, "why");
    assert_eq!(event.kind, "artifact.created");
    assert_eq!(event.scope(), "user");
    assert_eq!(compact(&event.payload), compact(&artifact_payload("/p", "abc", "Alex", &ids)));
    assert_eq!(event.provenance.rationale.as_deref(), Some("why"));
    let d = draft_artifact(EventId(8), "/p".to_string(), "abc d".to_string(), "r".to_string(), ids);
    assert_eq!(d.word_count, 2);
    assert_eq!(d.artifact_id.0, 8);
    assert_eq!(draft_path("/w", 0), "/w/artifacts/drafts/draft-00000000-0000-0000-0000-000000000000.md");
    assert_ne!(new_draft_path("/w"), new_draft_path("/w"));
}

#[test]
fn contacts_are_looked_up() {
    assert!(lookup_query("").is_none());
    assert_eq!(
        lookup_query("O'Brien").unwrap(),
        "SELECT contact_key, name, email, org, trust, source_event FROM contacts WHERE lower(name) LIKE '%o''brien%' OR lower(email) LIKE '%o''brien%' ORDER BY trust DESC, source_event DESC LIMIT 5"
    );
    let row = read_json(
        r#"{"contact_key": "k", "name": "John Smith", "email": "john@acme.com", "org": "Acme", "trust": 0.9, "source_event": 3}"#,
    )
    .unwrap();
    assert_eq!(compact(&runloop::json::Json::Number(row_trust(&row))), "0.9");
    let c = row_to_contact(&row, fraction("0.9", "0.8999999761581421")).expect("contact");
    assert_eq!(c.contact_id, "contact:k");
    assert_eq!(c.email, "john@acme.com");
    assert_eq!(c.last_event_id, Some(EventId(3)));
    assert_eq!(likeness(&c, " JOHN@acme.com "), Likeness::Address);
    assert_eq!(likeness(&c, "smith"), Likeness::Name);
    assert_eq!(likeness(&c, "else"), Likeness::Nothing);
    let poor = read_json(r#"{"contact_key": "k", "email": ""}"#).unwrap();
    assert!(row_to_contact(&poor, fraction("0.5", "0.5")).is_none());
    assert_eq!(compact(&runloop::json::Json::Number(row_trust(&poor))), "0.5");
}

#[test]
fn resolves_seed_contact() {
    let payload = read_json(
        r#"{"name": "John Smith", "email": "john@acme.com", "org": "Acme", "trust": 0.9, "evidence": []}"#,
    )
    .unwrap();
    let delta = errand().propose_event("contact.upserted", payload, Some("seed".to_string()));
    let kept = event_row(&delta, 1).expect("row");
    let event = PendingEvent::from_row(1, kept.kind, &kept.payload_json, &kept.provenance_json).expect("event");
    let row = match apply_event(&event).expect("applied") {
        ViewChange::Contact { key, name, email, org, trust } => {
            assert_eq!(compact(&runloop::json::Json::Number(trust)), "0.9");
            read_json(&format!(
                r#"{{"contact_key": "{key}", "name": "{}", "email": "{}", "org": "{}", "trust": 0.9, "source_event": 1}}"#,
                name.unwrap(),
                email.unwrap(),
                org.unwrap()
            ))
            .unwrap()
        }
        other => panic!("unexpected change {other:?}"),
    };
    assert!(lookup_query("John").unwrap().contains("lower(name) LIKE '%john%'"));
    let found = vec![row_to_contact(&row, fraction("0.9", "0.8999999761581421")).expect("contact")];
    assert_eq!(likeness(&found[0], "John"), Likeness::Name);
    let best = best_score(&vec![(0.9f32 + 0.1).to_bits()]).expect("a contact");
    assert_eq!(found[best].email, "john@acme.com");
}

#[test]
fn the_first_of_the_best_wins() {
    assert_eq!(best_score(&vec![1, 5, 5, 2]), Some(1));
    assert_eq!(best_score(&vec![0, 0]), None);
    assert_eq!(best_score(&vec![]), None);
}

#[test]
fn unknown_contacts_get_a_stub() {
    let s = create_stub_contact("jane doe-smith!", &errand());
    assert_eq!(s.contact.name, "Jane Doe-smith!");
    assert_eq!(s.contact.email, "janedoe-smith@unknown.local");
    assert_eq!(s.contact.confidence.short, "0.4");
    assert_eq!(s.event.kind, "contact.upserted");
    assert_eq!(s.event.provenance.rationale.as_deref(), Some("stub created for query 'jane doe-smith!'"));
    let a = create_stub_contact("Jane@X.org", &errand());
    assert_eq!(a.contact.name, "Unknown");
    assert_eq!(a.contact.email, "jane@x.org");
    assert_eq!(a.contact.contact_id, create_stub_contact(" jane@x.ORG ", &errand()).contact.contact_id);
    assert!(compact(&a.event.payload).contains("\"trust\":0.20000000298023224"));
    assert_eq!(slug("--A b_C--"), "abc");
    assert_eq!(capitalize_words("one  two"), "One Two");
}

fn mail_request(ok: bool) -> MailRequest {
    MailRequest {
        draft: DraftData { artifact_id: EventId(7), path: "/d".to_string(), body_preview: "Body".to_string() },
        contact: contact("N", "n@x", None),
        review: Review { ok, notes: ReviewNotes { summary: String::new(), suggestions: vec![] } },
        topic: "T".to_string(),
    }
}

#[test]
fn mails_need_review_and_consent() {
    let e = propose_mail(&mail_request(false), &errand(), true).expect_err("not reviewed");
    assert_eq!(e.message(), "invalid input: draft not approved by critic");
    let f = propose_mail(&mail_request(true), &errand(), false).expect_err("no one to ask");
    assert_eq!(f.message(), "confirmation provider unavailable");
    let p = propose_mail(&mail_request(true), &errand(), true).expect("proposal");
    assert_eq!(p.id, "mail:7");
    assert_eq!(p.summary, "Send draft 'T' to n@x");
    assert_eq!(p.recipients, vec!["n@x".to_string()]);
    let no = send(&mail_request(true), &errand(), &ActionDecision::rejected(None)).expect_err("declined");
    assert_eq!(no.message(), "action was declined by the operator");
    let sent = send(&mail_request(true), &errand(), &ActionDecision::approved(None)).expect("sent");
    assert_eq!(sent.lines[1], "To: n@x");
    assert_eq!(sent.event.kind, "email.sent");
    assert_eq!(sent.event.provenance.rationale.as_deref(), Some("mailer dry-run"));
    assert_eq!(compact(&sent.event.payload), r#"{"artifact_id":7,"subject":"T","to":["n@x"]}"#);
    assert_eq!(sent.result.status, "dry-run");
    let why = send(&mail_request(true), &errand(), &ActionDecision::approved(Some("fine".to_string()))).expect("sent");
    assert_eq!(why.event.provenance.rationale.as_deref(), Some("fine"));
}

#[test]
fn agents_propose_in_the_users_scope() {
    let d = errand().propose_event("email.sent", read_json("{}").unwrap(), Some("why".to_string()));
    assert_eq!(d.scope(), "user");
    assert_eq!(d.actor, "agent:00000000-0000-0000-0000-000000000003");
    assert_eq!(d.provenance.trace_id, "trace:00000000-0000-0000-0000-000000000001");
    assert_eq!(d.provenance.rationale.as_deref(), Some("why"));
}

#[test]
fn agent_errors_are_told() {
    assert_eq!(
        AgentError::KnowledgeBase(KbError::QueryNotReadOnly).message(),
        "knowledge base error: query must be read-only"
    );
    let m = AgentError::Model(BrokerError::StreamingUnsupported).message();
    assert!(m.starts_with("model broker error: "));
    assert_eq!(AgentError::Io("x".to_string()).message(), "io error: x");
    assert_eq!(AgentError::Serialization("x".to_string()).message(), "serialization error: x");
    assert_eq!(AgentError::Other("x".to_string()).message(), "x");
}
