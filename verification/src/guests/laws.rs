//! What the programs inside the sandbox promise.

use crate::armor::base64_bytes;
use crate::crew::resolver::is_letter_or_digit;
use crate::guests::context::{contact_bytes_in, known_snippets};
use crate::guests::helper::{helper_request, meta_tree, number_or_null};
use crate::guests::host::{le_number, model_fault, prefixed, prefixed_text, ModelFault, ModelOutputMeta};
use crate::guests::mailer::{message_name, preview};
use crate::guests::resolver::{
    first_match, hyphenated, is_separator, mentions, slug_in, stub_entry, EntryModel,
};
use crate::guests::shell::{limit_lines, or_lines, or_number, other_lines, sets_limit, tmux_lines};
use crate::guests::writer::{called, cited_events, draft_lines, greeting, update_lines, NoteModel};
use crate::json::{insert_then_get, map_insert, tree_get, JsonModel, MapModel, NumeralModel};
use crate::kb::traces::text_or_null;
use crate::prose::{capitalized, text_in_bytes};
use crate::text::{
    decimal, has_text, join, lines, lower, lower_char, opt_text, signed_decimal, split_once, texts, trim,
};
use crate::guests::tmux::{shell_word, tmux_commands};
use crate::guests::blocks::at_home;
use crate::paths::joined_path;
use vstd::prelude::*;

verus! {

/// The host's codes mean what they say, and an unknown one is told.
pub proof fn codes_mean_what_they_say(code: i32)
    ensures
        code == -1 ==> model_fault(code) == ModelFault::StreamUnsupported,
        code == -2 ==> model_fault(code) == ModelFault::BudgetExceeded,
        code == -3 ==> model_fault(code) == ModelFault::Timeout,
        code == -4 ==> model_fault(code) == ModelFault::ProviderFault,
        code == -5 ==> model_fault(code) == ModelFault::InvalidRequest,
        code == -6 ==> model_fault(code) == ModelFault::NoSpace,
        code == -7 ==> model_fault(code) == ModelFault::Cancelled,
        code < -7 || code >= 0 ==> model_fault(code) == ModelFault::Host(
            "unexpected code "@ + signed_decimal(code as int),
        ),
        model_fault(code) == ModelFault::Timeout <==> code == -3,
        model_fault(code) == ModelFault::BudgetExceeded <==> code == -2,
{
}

/// Bytes are those behind their length, which is written with the lowest byte first; what is not all
/// there is nothing.
pub proof fn bytes_follow_their_length(n: Seq<u8>, b: Seq<u8>, more: Seq<u8>)
    requires
        n.len() == 4,
    ensures
        le_number(n) == n[0] + 256 * n[1] + 65536 * n[2] + 16777216 * n[3],
        b.len() > 0 && le_number(n) == b.len() ==> prefixed(n + b + more) == Some(b),
        le_number(n) > b.len() ==> prefixed(n + b) is None,
        le_number(n) == 0 ==> prefixed(n + b) is None,
        b.len() < 4 ==> prefixed(b) is None,
{
    let all = n + b + more;
    if b.len() > 0 && le_number(n) == b.len() {
        assert(le_number(all) == le_number(n));
        assert(all.subrange(4, 4int + le_number(n)) =~= b);
    }
    assert((n + b)[0] == n[0] && (n + b)[1] == n[1] && (n + b)[2] == n[2] && (n + b)[3] == n[3]);
}

/// A text is read from its bytes, and bytes that are none are told.
pub proof fn texts_are_read_behind_their_length(buf: Seq<u8>, b: Seq<u8>)
    ensures
        prefixed(buf) is None ==> prefixed_text(buf) == Ok::<Option<Seq<char>>, Seq<char>>(None),
        prefixed(buf) == Some(b) ==> (text_in_bytes(b) matches Ok(t) ==> prefixed_text(buf) == Ok::<
            Option<Seq<char>>,
            Seq<char>,
        >(Some(t))),
        prefixed(buf) == Some(b) && text_in_bytes(b) is Err ==> prefixed_text(buf) is Err,
{
}

/// The resolver knows its contacts by a part of their name or address, whatever the case; the first
/// that fits is the one.
pub proof fn the_first_contact_that_fits_is_found(s: Seq<EntryModel>, q: Seq<char>)
    ensures
        first_match(s, q) matches Some(e) ==> fits(e, q) && exists|i: int|
            0 <= i < s.len() && #[trigger] s[i] == e && forall|k: int| 0 <= k < i ==> !fits(#[trigger] s[k], q),
        first_match(s, q) is None <==> forall|k: int| 0 <= k < s.len() ==> !fits(#[trigger] s[k], q),
    decreases s.len(),
{
    if s.len() > 0 {
        let rest = s.skip(1);
        the_first_contact_that_fits_is_found(rest, q);
        assert(mentions(s[0], q) == fits(s[0], q));
        if fits(s[0], q) {
            assert(s[0] == first_match(s, q)->0);
        } else if first_match(rest, q) is Some {
            let e = first_match(rest, q)->0;
            let i = choose|i: int|
                0 <= i < rest.len() && #[trigger] rest[i] == e && forall|k: int|
                    0 <= k < i ==> !fits(#[trigger] rest[k], q);
            assert(s[i + 1] == e);
            assert forall|k: int| 0 <= k < i + 1 implies !fits(#[trigger] s[k], q) by {
                if k > 0 {
                    assert(s[k] == rest[k - 1]);
                }
            }
        } else {
            assert forall|k: int| 0 <= k < s.len() implies !fits(#[trigger] s[k], q) by {
                if k > 0 {
                    assert(s[k] == rest[k - 1]);
                }
            }
        }
    }
}

/// Whether a question is a part of a contact's name or address.
pub open spec fn fits(e: EntryModel, q: Seq<char>) -> bool {
    has_text(lower(e.name), lower(q)) || has_text(lower(e.email), lower(q))
}

/// A contact that is not known keeps the address that it was asked for under, and gets one of its own
/// where it was asked for by name.
pub proof fn unknown_contacts_get_an_address(q: Seq<char>, id: Seq<char>)
    ensures
        stub_entry(q, id).contact_id == "contact:"@ + id,
        stub_entry(q, id).org is None,
        split_once(q, '@') is None ==> stub_entry(q, id).name == capitalized(trim(q)) && stub_entry(q, id).email
            == id + "@unknown.local"@,
        split_once(q, '@') matches Some((a, b)) ==> stub_entry(q, id).name == capitalized(trim(a)) && stub_entry(
            q,
            id,
        ).email == lower(trim(q)),
{
}

/// Letters and digits are kept in lower case, a run of separators is one hyphen, and anything else is
/// left out.
pub proof fn names_become_identifiers(s: Seq<char>, c: char)
    ensures
        is_letter_or_digit(c) ==> hyphenated(s.push(c)) == hyphenated(s).push(lower_char(c)),
        !is_letter_or_digit(c) && is_separator(c) && (hyphenated(s).len() == 0 || hyphenated(s).last()
            != '-') ==> hyphenated(s.push(c)) == hyphenated(s).push('-'),
        !is_letter_or_digit(c) && is_separator(c) && hyphenated(s).len() > 0 && hyphenated(s).last()
            == '-' ==> hyphenated(s.push(c)) == hyphenated(s),
        !is_letter_or_digit(c) && !is_separator(c) ==> hyphenated(s.push(c)) == hyphenated(s),
        is_separator(' ') && is_separator('-') && is_separator('_') && !is_separator('a') && !is_separator('.'),
        slug_in(s) matches Some(t) ==> t.len() > 0,
{
    assert(s.push(c).drop_last() =~= s);
}

/// A draft greets by the tone and the name, names its topic, and lists what is known where there is
/// something.
pub proof fn drafts_greet_and_tell(name: Option<Seq<char>>, s: Seq<NoteModel>, topic: Seq<char>, tone: Seq<char>)
    ensures
        draft_lines(name, s, topic, tone)[0] == greeting(tone) + " "@ + called(name) + ","@,
        draft_lines(name, s, topic, tone)[2] == "I wanted to follow up about "@ + topic + "."@,
        greeting("formal"@) == "Hello"@,
        greeting("enthusiastic"@) == "Hey"@,
        tone != "formal"@ && tone != "enthusiastic"@ ==> greeting(tone) == "Hi"@,
        name matches Some(n) ==> n.len() > 0 ==> called(name) == n,
        name is None ==> called(name) == "there"@,
        forall|i: int|
            0 <= i < update_lines(s).len() ==> draft_lines(name, s, topic, tone)[i + 5] == #[trigger] update_lines(
                s,
            )[i],
        update_lines(s).len() > 0 ==> draft_lines(name, s, topic, tone).len() == update_lines(s).len() + 10,
        update_lines(s).len() == 0 ==> draft_lines(name, s, topic, tone).len() == 8,
{
    reveal_strlit("formal");
    reveal_strlit("enthusiastic");
    assert("formal"@.len() != "enthusiastic"@.len());
}

/// Each note that says something is an item of the list, and every event behind a note is cited.
pub proof fn notes_are_listed_and_cited(s: Seq<NoteModel>, n: NoteModel)
    ensures
        n.excerpt matches Some(t) ==> t.len() > 0 ==> update_lines(s.push(n)) == update_lines(s).push("- "@ + t),
        n.excerpt is None || n.excerpt->0.len() == 0 ==> update_lines(s.push(n)) == update_lines(s),
        n.event_id matches Some(e) ==> cited_events(s.push(n)) == cited_events(s).push(e),
        n.event_id is None ==> cited_events(s.push(n)) == cited_events(s),
{
    assert(s.push(n).drop_last() =~= s);
}

/// A contact is handed over in base64; nothing and an empty one are none.
pub proof fn contacts_are_handed_over(t: Seq<char>, b: Seq<u8>)
    ensures
        contact_bytes_in(None) == Ok::<Option<Seq<u8>>, Seq<char>>(None),
        base64_bytes(t) == Some(b) && b.len() > 0 ==> contact_bytes_in(Some(t)) == Ok::<
            Option<Seq<u8>>,
            Seq<char>,
        >(Some(b)),
        base64_bytes(t) is None ==> contact_bytes_in(Some(t)) is Err,
{
}

/// The snippets are about the topic, and about the contact where there is one.
pub proof fn snippets_are_about_the_topic(topic: Seq<char>, name: Seq<char>)
    ensures
        known_snippets(topic, None).len() == 2,
        known_snippets(topic, Some(name)).len() == 3,
        known_snippets(topic, Some(name)).take(2) == known_snippets(topic, None),
        known_snippets(topic, None)[0].title == topic + " planning sync"@,
        known_snippets(topic, Some(name))[2].excerpt == name + " prefers concise status updates."@,
{
    assert(known_snippets(topic, Some(name)).take(2) =~= known_snippets(topic, None));
}

/// A mail is named after its draft, and shown by its first eight lines.
pub proof fn mails_are_named_and_shown(id: i64, body: Seq<char>)
    ensures
        id != 0 ==> message_name(id) == "dryrun-"@ + signed_decimal(id as int),
        message_name(0) == "dryrun"@,
        lines(body).len() <= 8 ==> preview(body) == join(lines(body), "\n"@),
        lines(body).len() > 8 ==> preview(body) == join(lines(body).take(8), "\n"@),
{
}

/// The helper asks the model that is named for the prompt, within a limit and a time.
pub proof fn helpers_ask_the_named_model(model: Seq<char>, prompt: Seq<char>)
    ensures
        helper_request(model, prompt).model == model,
        helper_request(model, prompt).prompt == prompt,
        helper_request(model, prompt).budget_tokens == Some(4096u32),
        helper_request(model, prompt).timeout_ms == Some(15000u32),
        !helper_request(model, prompt).stream,
        helper_request(model, prompt).role_system is None,
{
}

/// The lines for tmux set the limit, and hold what else is asked for.
pub proof fn tmux_is_told_the_limit(limit: u32, extra: Seq<Seq<char>>, k: int)
    ensures
        tmux_lines(limit, extra)[2] == "set -g history-limit "@ + decimal(limit as nat),
        0 <= k < extra.len() ==> tmux_lines(limit, extra)[k + 4] == extra[k],
        extra.len() == 0 ==> tmux_lines(limit, extra).len() == 4,
        extra.len() > 0 ==> tmux_lines(limit, extra).len() == extra.len() + 5,
{
}

/// The limits of the shell's history are the new ones, behind all lines that set none.
pub proof fn shells_are_told_the_limits(text: Seq<char>, size: u32, file_size: u32, tag: Seq<char>)
    ensures
        ({
            let l = limit_lines(text, size, file_size, tag);
            let kept = other_lines(lines(text));
            &&& l.last() == "HISTFILESIZE="@ + decimal(file_size as nat)
            &&& l[l.len() - 2] == "HISTSIZE="@ + decimal(size as nat)
            &&& l[l.len() - 3] == tag
            &&& l.take(kept.len() as int) == kept
        }),
{
    let l = limit_lines(text, size, file_size, tag);
    let kept = other_lines(lines(text));
    assert(l.take(kept.len() as int) =~= kept);
}

/// A line that sets a limit is dropped, and every other is kept in its place.
pub proof fn other_lines_are_kept(s: Seq<Seq<char>>, t: Seq<char>)
    ensures
        sets_limit(t) ==> other_lines(s.push(t)) == other_lines(s),
        !sets_limit(t) ==> other_lines(s.push(t)) == other_lines(s).push(t),
        other_lines(Seq::<Seq<char>>::empty()).len() == 0,
{
    assert(s.push(t).drop_last() =~= s);
}

/// What is given counts, and the usual value only where nothing is.
pub proof fn given_values_count(n: u32, usual: u32, v: Vec<String>)
    ensures
        or_number(Some(n), usual) == n,
        or_number(None, usual) == usual,
        or_lines(Some(v)) == texts(v@),
        or_lines(None).len() == 0,
{
}

/// What is told of a model's answer is what the host said of it.
pub proof fn answers_tell_their_cost(m: ModelOutputMeta, n: u32)
    ensures
        tree_get(meta_tree(m), "tokens_in"@) == Some(number_or_null(m.tokens_in)),
        tree_get(meta_tree(m), "tokens_out"@) == Some(number_or_null(m.tokens_out)),
        tree_get(meta_tree(m), "cached"@) == Some(JsonModel::Bool(m.cached)),
        tree_get(meta_tree(m), "provider"@) == Some(JsonModel::Text(m.provider@)),
        tree_get(meta_tree(m), "provider_model"@) == Some(JsonModel::Text(m.provider_model@)),
        tree_get(meta_tree(m), "latency_ms"@) == Some(JsonModel::Number(NumeralModel::Unsigned(m.latency_ms as u64))),
        tree_get(meta_tree(m), "finish_reason"@) == Some(text_or_null(opt_text(m.finish_reason))),
        number_or_null(Some(n)) == JsonModel::Number(NumeralModel::Unsigned(n as u64)),
        number_or_null(None) == JsonModel::Null,
{
    reveal_strlit("tokens_in");
    reveal_strlit("tokens_out");
    reveal_strlit("cached");
    reveal_strlit("provider");
    reveal_strlit("provider_model");
    reveal_strlit("latency_ms");
    reveal_strlit("finish_reason");
    assert("tokens_in"@.len() != "tokens_out"@.len());
    assert("tokens_in"@.len() != "cached"@.len());
    assert("tokens_in"@.len() != "provider"@.len());
    assert("tokens_in"@.len() != "provider_model"@.len());
    assert("tokens_in"@.len() != "latency_ms"@.len());
    assert("tokens_in"@.len() != "finish_reason"@.len());
    assert("tokens_out"@.len() != "cached"@.len());
    assert("tokens_out"@.len() != "provider"@.len());
    assert("tokens_out"@.len() != "provider_model"@.len());
    assert("tokens_out"@[0] != "latency_ms"@[0]);
    assert("tokens_out"@.len() != "finish_reason"@.len());
    assert("cached"@.len() != "provider"@.len());
    assert("cached"@.len() != "provider_model"@.len());
    assert("cached"@.len() != "latency_ms"@.len());
    assert("cached"@.len() != "finish_reason"@.len());
    assert("provider"@.len() != "provider_model"@.len());
    assert("provider"@.len() != "latency_ms"@.len());
    assert("provider"@.len() != "finish_reason"@.len());
    assert("provider_model"@.len() != "latency_ms"@.len());
    assert("provider_model"@.len() != "finish_reason"@.len());
    assert("latency_ms"@.len() != "finish_reason"@.len());
    let m0 = MapModel::empty();
    let m1 = map_insert(m0, "tokens_in"@, number_or_null(m.tokens_in));
    let m2 = map_insert(m1, "tokens_out"@, number_or_null(m.tokens_out));
    let m3 = map_insert(m2, "cached"@, JsonModel::Bool(m.cached));
    let m4 = map_insert(m3, "provider"@, JsonModel::Text(m.provider@));
    let m5 = map_insert(m4, "provider_model"@, JsonModel::Text(m.provider_model@));
    let m6 = map_insert(m5, "latency_ms"@, JsonModel::Number(NumeralModel::Unsigned(m.latency_ms as u64)));
    let m7 = map_insert(m6, "finish_reason"@, text_or_null(opt_text(m.finish_reason)));
    insert_then_get(m0, "tokens_in"@, number_or_null(m.tokens_in), "tokens_in"@);
    insert_then_get(m0, "tokens_in"@, number_or_null(m.tokens_in), "tokens_out"@);
    insert_then_get(m0, "tokens_in"@, number_or_null(m.tokens_in), "cached"@);
    insert_then_get(m0, "tokens_in"@, number_or_null(m.tokens_in), "provider"@);
    insert_then_get(m0, "tokens_in"@, number_or_null(m.tokens_in), "provider_model"@);
    insert_then_get(m0, "tokens_in"@, number_or_null(m.tokens_in), "latency_ms"@);
    insert_then_get(m0, "tokens_in"@, number_or_null(m.tokens_in), "finish_reason"@);
    insert_then_get(m1, "tokens_out"@, number_or_null(m.tokens_out), "tokens_in"@);
    insert_then_get(m1, "tokens_out"@, number_or_null(m.tokens_out), "tokens_out"@);
    insert_then_get(m1, "tokens_out"@, number_or_null(m.tokens_out), "cached"@);
    insert_then_get(m1, "tokens_out"@, number_or_null(m.tokens_out), "provider"@);
    insert_then_get(m1, "tokens_out"@, number_or_null(m.tokens_out), "provider_model"@);
    insert_then_get(m1, "tokens_out"@, number_or_null(m.tokens_out), "latency_ms"@);
    insert_then_get(m1, "tokens_out"@, number_or_null(m.tokens_out), "finish_reason"@);
    insert_then_get(m2, "cached"@, JsonModel::Bool(m.cached), "tokens_in"@);
    insert_then_get(m2, "cached"@, JsonModel::Bool(m.cached), "tokens_out"@);
    insert_then_get(m2, "cached"@, JsonModel::Bool(m.cached), "cached"@);
    insert_then_get(m2, "cached"@, JsonModel::Bool(m.cached), "provider"@);
    insert_then_get(m2, "cached"@, JsonModel::Bool(m.cached), "provider_model"@);
    insert_then_get(m2, "cached"@, JsonModel::Bool(m.cached), "latency_ms"@);
    insert_then_get(m2, "cached"@, JsonModel::Bool(m.cached), "finish_reason"@);
    insert_then_get(m3, "provider"@, JsonModel::Text(m.provider@), "tokens_in"@);
    insert_then_get(m3, "provider"@, JsonModel::Text(m.provider@), "tokens_out"@);
    insert_then_get(m3, "provider"@, JsonModel::Text(m.provider@), "cached"@);
    insert_then_get(m3, "provider"@, JsonModel::Text(m.provider@), "provider"@);
    insert_then_get(m3, "provider"@, JsonModel::Text(m.provider@), "provider_model"@);
    insert_then_get(m3, "provider"@, JsonModel::Text(m.provider@), "latency_ms"@);
    insert_then_get(m3, "provider"@, JsonModel::Text(m.provider@), "finish_reason"@);
    insert_then_get(m4, "provider_model"@, JsonModel::Text(m.provider_model@), "tokens_in"@);
    insert_then_get(m4, "provider_model"@, JsonModel::Text(m.provider_model@), "tokens_out"@);
    insert_then_get(m4, "provider_model"@, JsonModel::Text(m.provider_model@), "cached"@);
    insert_then_get(m4, "provider_model"@, JsonModel::Text(m.provider_model@), "provider"@);
    insert_then_get(m4, "provider_model"@, JsonModel::Text(m.provider_model@), "provider_model"@);
    insert_then_get(m4, "provider_model"@, JsonModel::Text(m.provider_model@), "latency_ms"@);
    insert_then_get(m4, "provider_model"@, JsonModel::Text(m.provider_model@), "finish_reason"@);
    insert_then_get(m5, "latency_ms"@, JsonModel::Number(NumeralModel::Unsigned(m.latency_ms as u64)), "tokens_in"@);
    insert_then_get(m5, "latency_ms"@, JsonModel::Number(NumeralModel::Unsigned(m.latency_ms as u64)), "tokens_out"@);
    insert_then_get(m5, "latency_ms"@, JsonModel::Number(NumeralModel::Unsigned(m.latency_ms as u64)), "cached"@);
    insert_then_get(m5, "latency_ms"@, JsonModel::Number(NumeralModel::Unsigned(m.latency_ms as u64)), "provider"@);
    insert_then_get(m5, "latency_ms"@, JsonModel::Number(NumeralModel::Unsigned(m.latency_ms as u64)), "provider_model"@);
    insert_then_get(m5, "latency_ms"@, JsonModel::Number(NumeralModel::Unsigned(m.latency_ms as u64)), "latency_ms"@);
    insert_then_get(m5, "latency_ms"@, JsonModel::Number(NumeralModel::Unsigned(m.latency_ms as u64)), "finish_reason"@);
    insert_then_get(m6, "finish_reason"@, text_or_null(opt_text(m.finish_reason)), "tokens_in"@);
    insert_then_get(m6, "finish_reason"@, text_or_null(opt_text(m.finish_reason)), "tokens_out"@);
    insert_then_get(m6, "finish_reason"@, text_or_null(opt_text(m.finish_reason)), "cached"@);
    insert_then_get(m6, "finish_reason"@, text_or_null(opt_text(m.finish_reason)), "provider"@);
    insert_then_get(m6, "finish_reason"@, text_or_null(opt_text(m.finish_reason)), "provider_model"@);
    insert_then_get(m6, "finish_reason"@, text_or_null(opt_text(m.finish_reason)), "latency_ms"@);
    insert_then_get(m6, "finish_reason"@, text_or_null(opt_text(m.finish_reason)), "finish_reason"@);
}

/// Files are reloaded and layouts chosen just where that is asked for, the file first.
pub proof fn commands_are_those_asked_for(path: Seq<char>, l: Seq<char>)
    ensures
        tmux_commands(path, true, Some(l)) == seq![
            "tmux source-file "@ + shell_word(path),
            "tmux select-layout "@ + shell_word(l),
        ],
        tmux_commands(path, true, None) == seq!["tmux source-file "@ + shell_word(path)],
        tmux_commands(path, false, Some(l)) == seq!["tmux select-layout "@ + shell_word(l)],
        tmux_commands(path, false, None).len() == 0,
{
}

/// The tilde stands for the home directory, without which such a path leads nowhere.
pub proof fn the_tilde_stands_for_home(rest: Seq<char>, home: Seq<char>)
    ensures
        at_home("~/"@ + rest, Some(home)) == Ok::<Seq<char>, Seq<char>>(joined_path(home, rest)),
        at_home("~/"@ + rest, None) is Err,
        rest.len() > 0 && rest[0] != '~' ==> at_home(rest, Some(home)) == Ok::<Seq<char>, Seq<char>>(rest),
{
    reveal_strlit("~/");
    assert(("~/"@ + rest).take(2) =~= "~/"@);
    assert(("~/"@ + rest).skip(2) =~= rest);
    if rest.len() > 0 && rest[0] != '~' {
        assert(!crate::text::has_prefix(rest, "~/"@)) by {
            if crate::text::has_prefix(rest, "~/"@) {
                assert(rest.take(2)[0] == "~/"@[0]);
            }
        }
    }
}

} // verus!
