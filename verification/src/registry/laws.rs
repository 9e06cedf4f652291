//! What the search for agents and openings promises.

use crate::agents::AgentRefModel;
use crate::config::checks::{var, SurroundingsModel};
use crate::digest::{blake3_hex, utf8};
use crate::paths::{has_extension, joined_path, same_place};
use crate::registry::dirs::{
    expanded_dir, first_file, first_manifest_dir, first_root, listed, opening_names, opening_paths,
    root_by_manifest, search_list, walked_root, with_dirs, AncestorModel,
};
use crate::registry::discovery::{looked, sorted, sorted_in, DiscoveryModel, MAX_DEPTH};
use crate::registry::manifests::{
    bundled, described, dir_of_manifest, kept_dirs, listing, manifest_paths, own_reference, roots_of,
    tools_version, FoundManifest, ManifestDoc, RegistryFault,
};
use crate::registry::tools::{
    blank, doc_complaint, tool_complaint, tools_complaint, ToolEntry, ToolsDoc, Transport,
};
use crate::text::{has_prefix, opt_text, text_lt, texts};
use vstd::prelude::*;

verus! {

/// Of several paths, the one that is taken is a file, and none before it is; none is taken only where
/// none is a file.
pub proof fn the_first_file_is_taken(paths: Seq<Seq<char>>, files: Seq<Seq<char>>)
    ensures
        match first_file(paths, files) {
            Some(p) => files.contains(p) && exists|i: int|
                0 <= i < paths.len() && #[trigger] paths[i] == p && forall|k: int|
                    0 <= k < i ==> !files.contains(#[trigger] paths[k]),
            None => forall|k: int| 0 <= k < paths.len() ==> !files.contains(#[trigger] paths[k]),
        },
    decreases paths.len(),
{
    if paths.len() > 0 {
        let rest = paths.skip(1);
        if files.contains(paths[0]) {
            assert(paths[0] == first_file(paths, files)->0);
        } else {
            the_first_file_is_taken(rest, files);
            assert forall|k: int| 0 < k < paths.len() implies #[trigger] paths[k] == rest[k - 1] by {}
            if first_file(rest, files) is Some {
                let p = first_file(rest, files)->0;
                let i = choose|i: int|
                    0 <= i < rest.len() && #[trigger] rest[i] == p && forall|k: int|
                        0 <= k < i ==> !files.contains(#[trigger] rest[k]);
                assert(paths[i + 1] == p);
                assert forall|k: int| 0 <= k < i + 1 implies !files.contains(#[trigger] paths[k]) by {
                    if k > 0 {
                        assert(paths[k] == rest[k - 1]);
                    }
                }
            } else {
                assert forall|k: int| 0 <= k < paths.len() implies !files.contains(#[trigger] paths[k]) by {
                    if k > 0 {
                        assert(paths[k] == rest[k - 1]);
                    }
                }
            }
        }
    }
}

/// An opening is looked for below every directory, under its own name, and with the usual ending
/// before that where the name has none; those of an earlier directory come first.
pub proof fn openings_are_looked_for_everywhere(name: Seq<char>, dirs: Seq<Seq<char>>, d: Seq<char>)
    ensures
        opening_names(name).last() == name,
        opening_names(name).len() == if has_extension(name) {
            1nat
        } else {
            2nat
        },
        opening_paths(name, dirs.push(d), dirs.len() + 1).last() == joined_path(d, name),
        opening_paths(name, dirs.push(d), dirs.len() + 1).take(
            opening_paths(name, dirs, dirs.len()).len() as int,
        ) == opening_paths(name, dirs, dirs.len()),
{
    lemma_same_openings(name, dirs, d, dirs.len());
    let a = opening_paths(name, dirs, dirs.len());
    assert(opening_paths(name, dirs.push(d), dirs.len() + 1).take(a.len() as int) =~= a);
}

proof fn lemma_same_openings(name: Seq<char>, dirs: Seq<Seq<char>>, d: Seq<char>, n: nat)
    requires
        n <= dirs.len(),
    ensures
        opening_paths(name, dirs.push(d), n) == opening_paths(name, dirs, n),
    decreases n,
{
    if n > 0 {
        lemma_same_openings(name, dirs, d, (n - 1) as nat);
        assert(dirs.push(d)[n - 1] == dirs[n - 1]);
    }
}

/// A manifest is looked for below every directory, in the agent's own place last.
pub proof fn manifests_are_looked_for_everywhere(dirs: Seq<Seq<char>>, d: Seq<char>, r: AgentRefModel)
    ensures
        roots_of(r).last() == r.name,
        r.variant matches Some(v) ==> v.len() > 0 ==> roots_of(r).len() == 4 && roots_of(r)[0] == r.name
            + "@"@ + v && roots_of(r)[1] == joined_path(r.name, v),
        r.variant is None ==> roots_of(r).len() == 1,
        manifest_paths(dirs.push(d), r, dirs.len() + 1).last() == joined_path(
            joined_path(d, r.name),
            "manifest.toml"@,
        ),
        manifest_paths(dirs.push(d), r, dirs.len() + 1).take(
            manifest_paths(dirs, r, dirs.len()).len() as int,
        ) == manifest_paths(dirs, r, dirs.len()),
{
    lemma_same_manifests(dirs, d, r, dirs.len());
    let a = manifest_paths(dirs, r, dirs.len());
    assert(manifest_paths(dirs.push(d), r, dirs.len() + 1).take(a.len() as int) =~= a);
}

proof fn lemma_same_manifests(dirs: Seq<Seq<char>>, d: Seq<char>, r: AgentRefModel, n: nat)
    requires
        n <= dirs.len(),
    ensures
        manifest_paths(dirs.push(d), r, n) == manifest_paths(dirs, r, n),
    decreases n,
{
    if n > 0 {
        lemma_same_manifests(dirs, d, r, (n - 1) as nat);
        assert(dirs.push(d)[n - 1] == dirs[n - 1]);
    }
}

/// A home directory stands for the tilde, and a variable for its name; what names neither stays as it
/// is.
pub proof fn directories_are_expanded(rest: Seq<char>, home: Seq<char>, s: SurroundingsModel)
    requires
        s.home == Some(home),
    ensures
        expanded_dir("~"@, s) == home,
        expanded_dir("~/"@ + rest, s) == joined_path(home, rest),
        var(s.vars, rest) is Some ==> expanded_dir("env:"@ + rest, s) == var(s.vars, rest)->0,
        rest.len() > 0 && rest[0] == '/' ==> expanded_dir(rest, s) == rest,
{
    reveal_strlit("~");
    reveal_strlit("~/");
    reveal_strlit("env:");
    assert("~/"@ + rest != "~"@) by {
        assert(("~/"@ + rest).len() >= 2);
    }
    assert(("~/"@ + rest).take(2) =~= "~/"@);
    assert(("~/"@ + rest).skip(2) =~= rest);
    let e = "env:"@ + rest;
    assert(e.take(4) =~= "env:"@);
    assert(e.skip(4) =~= rest);
    assert(e[0] == 'e');
    assert(e != "~"@);
    assert(!has_prefix(e, "~/"@)) by {
        if has_prefix(e, "~/"@) {
            assert(e.take(2)[0] == "~/"@[0]);
        }
    }
    if rest.len() > 0 && rest[0] == '/' {
        assert(rest != "~"@);
        assert(!has_prefix(rest, "~/"@)) by {
            if has_prefix(rest, "~/"@) {
                assert(rest.take(2)[0] == "~/"@[0]);
            }
        }
        assert(!has_prefix(rest, "env:"@)) by {
            if has_prefix(rest, "env:"@) {
                assert(rest.take(4)[0] == "env:"@[0]);
            }
        }
    }
}

/// Every configured directory is searched, and what was asked for comes before all of them; the
/// workspace's own place only where nothing was asked for.
pub proof fn asked_places_come_first(
    asked: Option<Seq<char>>,
    of_workspace: Option<Seq<char>>,
    configured: Seq<Seq<char>>,
    env: SurroundingsModel,
)
    ensures
        asked is Some ==> search_list(asked, of_workspace, configured, env).len() > 0 && search_list(
            asked,
            of_workspace,
            configured,
            env,
        )[0] == expanded_dir(asked->0, env),
        asked is None && of_workspace is Some ==> search_list(asked, of_workspace, configured, env).len() > 0
            && search_list(asked, of_workspace, configured, env)[0] == of_workspace->0,
        forall|i: int|
            0 <= i < configured.len() ==> listed(
                search_list(asked, of_workspace, configured, env),
                expanded_dir(#[trigger] configured[i], env),
            ),
{
    let first: Seq<Seq<char>> = match (asked, of_workspace) {
        (Some(a), _) => seq![expanded_dir(a, env)],
        (None, Some(w)) => seq![w],
        (None, None) => seq![],
    };
    lemma_dirs_listed(first, configured, env, configured.len());
}

proof fn lemma_dirs_listed(s: Seq<Seq<char>>, dirs: Seq<Seq<char>>, env: SurroundingsModel, n: nat)
    requires
        n <= dirs.len(),
    ensures
        with_dirs(s, dirs, env, n).len() >= s.len(),
        forall|i: int| 0 <= i < s.len() ==> #[trigger] with_dirs(s, dirs, env, n)[i] == s[i],
        forall|i: int|
            0 <= i < n ==> listed(with_dirs(s, dirs, env, n), expanded_dir(#[trigger] dirs[i], env)),
    decreases n,
{
    if n > 0 {
        lemma_dirs_listed(s, dirs, env, (n - 1) as nat);
        let before = with_dirs(s, dirs, env, (n - 1) as nat);
        let all = with_dirs(s, dirs, env, n);
        let p = expanded_dir(dirs[n - 1], env);
        assert forall|i: int| 0 <= i < n implies listed(all, expanded_dir(#[trigger] dirs[i], env)) by {
            let q = expanded_dir(dirs[i], env);
            if i < n - 1 {
                let k = choose|k: int| 0 <= k < before.len() && same_place(#[trigger] before[k], q);
                assert(all[k] == before[k]);
            } else if !listed(before, p) {
                assert(all[before.len() as int] == p);
            }
        }
    }
}

/// A registry keeps its directories in their order, leaving out those without a name.
pub proof fn directories_keep_their_order(dirs: Seq<Seq<char>>, n: nat)
    requires
        n <= dirs.len(),
    ensures
        forall|k: int| 0 <= k < kept_dirs(dirs, n).len() ==> (#[trigger] kept_dirs(dirs, n)[k]).len() > 0,
        forall|i: int|
            0 <= i < n && dirs[i].len() > 0 ==> listed(kept_dirs(dirs, n), #[trigger] dirs[i]),
        n > 0 && dirs[0].len() > 0 ==> kept_dirs(dirs, n).len() > 0 && kept_dirs(dirs, n)[0] == dirs[0],
    decreases n,
{
    if n > 0 {
        directories_keep_their_order(dirs, (n - 1) as nat);
        let before = kept_dirs(dirs, (n - 1) as nat);
        let all = kept_dirs(dirs, n);
        assert forall|i: int| 0 <= i < n && dirs[i].len() > 0 implies listed(all, #[trigger] dirs[i]) by {
            if i < n - 1 {
                let k = choose|k: int| 0 <= k < before.len() && same_place(#[trigger] before[k], dirs[i]);
                assert(all[k] == before[k]);
            } else if !listed(before, dirs[i]) {
                assert(all[before.len() as int] == dirs[i]);
            }
        }
        if n > 1 && dirs[0].len() > 0 {
            assert(all[0] == before[0]);
        }
    }
}

/// Of the directories going up, the nearest whose manifest gives a root decides; failing that, the
/// nearest with a manifest.
pub proof fn the_nearest_root_decides(near: AncestorModel, up: Seq<AncestorModel>)
    ensures
        near.has_manifest && root_by_manifest(near) is Some ==> walked_root(seq![near] + up)
            == root_by_manifest(near),
        !near.has_manifest ==> walked_root(seq![near] + up) == walked_root(up),
        near.has_manifest && root_by_manifest(near) is None ==> walked_root(seq![near] + up) == if first_root(
            up,
        ) is Some {
            first_root(up)
        } else {
            Some(near.dir)
        },
        walked_root(Seq::<AncestorModel>::empty()) is None,
{
    let all = seq![near] + up;
    assert(all.skip(1) =~= up);
    assert(all[0] == near);
    reveal_with_fuel(first_root, 2);
    reveal_with_fuel(first_manifest_dir, 2);
}

/// A manifest describes the agent that was asked for, or is refused: under another name, for another
/// variant, or with tools of an unknown version.
pub proof fn manifests_are_held_to_their_agent(r: AgentRefModel, d: ManifestDoc, raw: Seq<char>)
    ensures
        described(r, d, raw) is Ok <==> d.name@ == r.name && (r.variant is Some && d.variant is Some
            ==> d.variant->0@ == r.variant->0) && (d.tools matches Some(t) ==> tools_version(t) == 1),
        d.name@ != r.name ==> (described(r, d, raw) matches Err(RegistryFault::Mismatch(q, _)) && q
            == r),
        described(r, d, raw) matches Ok(m) ==> {
            &&& m.reference.name == r.name
            &&& r.variant is Some ==> m.reference.variant == r.variant
            &&& r.variant is None ==> m.reference.variant == opt_text(d.variant)
            &&& m.version == d.version@
            &&& m.inputs == texts(d.inputs@)
            &&& m.outputs == texts(d.outputs@)
            &&& m.digest == blake3_hex(utf8(raw))
            &&& (m.schema is Some <==> d.schema is Some)
            &&& d.schema matches Some(j) ==> m.schema == Some(j@)
            &&& (m.tools is Some <==> d.tools is Some)
        },
{
}

/// What a manifest brings along lies below its directory, and the entry of its own table goes before
/// the one in the agent's.
pub proof fn bundles_lie_below_their_manifest(
    r: AgentRefModel,
    path: Seq<char>,
    d: ManifestDoc,
    raw: Seq<char>,
)
    ensures
        bundled(r, path, d, raw) is Ok <==> described(r, d, raw) is Ok,
        bundled(r, path, d, raw) matches Ok(b) ==> {
            let dir = dir_of_manifest(path);
            &&& described(r, d, raw) == Ok::<_, RegistryFault>(b.described)
            &&& b.manifest_dir == dir
            &&& d.entry_wasm matches Some(e) ==> b.wasm_entry == Some((joined_path(dir, e.path@), e.blake3@))
            &&& d.entry_wasm is None ==> (d.agent_entry_wasm matches Some(e) ==> b.wasm_entry == Some(
                (joined_path(dir, e.path@), e.blake3@),
            ))
            &&& d.entry_wasm is None && d.agent_entry_wasm is None ==> b.wasm_entry is None
            &&& d.entry_native matches Some(e) ==> b.native_entry == Some(
                (joined_path(dir, e.path@), e.blake3@),
            )
            &&& d.entry_native is None ==> (d.agent_entry_native matches Some(e) ==> b.native_entry == Some(
                (joined_path(dir, e.path@), e.blake3@),
            ))
            &&& d.entry_native is None && d.agent_entry_native is None ==> b.native_entry is None
            &&& d.caps_file matches Some(f) ==> b.policy_path == Some(joined_path(dir, f@))
            &&& d.caps_file is None ==> b.policy_path is None
            &&& d.tools matches Some(t) ==> b.tools is Some && b.tools->0.path == joined_path(dir, t.path@)
                && b.tools->0.blake3 == t.blake3@
            &&& d.tools is None ==> b.tools is None
        },
{
}

/// Of the manifests for one agent, the one that was found first is listed.
pub proof fn the_first_manifest_is_listed(found: Seq<FoundManifest>, n: nat)
    requires
        n < found.len(),
        listing(found, n) is Ok,
        listing(found, n + 1) is Ok,
    ensures
        ({
            let (seen, out) = listing(found, n)->Ok_0;
            let (seen2, out2) = listing(found, n + 1)->Ok_0;
            let r = own_reference(found[n as int].doc);
            &&& seen2.contains(r)
            &&& seen.contains(r) ==> out2 == out
            &&& !seen.contains(r) ==> out2.drop_last() == out && out2.last().manifest_path
                == found[n as int].path@ && out2.last().described.reference == r
        }),
{
    let (seen, out) = listing(found, n)->Ok_0;
    let (seen2, out2) = listing(found, n + 1)->Ok_0;
    let r = own_reference(found[n as int].doc);
    if !seen.contains(r) {
        assert(seen2[seen.len() as int] == r);
        assert(out2.drop_last() =~= out);
    }
}

/// A manifest that is found is kept, and where there is none the directories below are searched, as
/// deep as the limit.
pub proof fn searches_go_deeper(d: DiscoveryModel, below: Seq<Seq<char>>)
    requires
        d.queue.len() > 0,
    ensures
        looked(d, true, below).manifests == d.manifests.push(joined_path(d.queue[0].0, "manifest.toml"@)),
        looked(d, false, below).manifests == d.manifests,
        d.queue[0].1 >= MAX_DEPTH ==> looked(d, false, below).queue == d.queue.skip(1),
        d.queue[0].1 < MAX_DEPTH ==> looked(d, false, below).queue.len() == d.queue.len() - 1 + below.len(),
        d.queue[0].1 < MAX_DEPTH ==> forall|k: int|
            d.queue.len() - 1 <= k < looked(d, false, below).queue.len() ==> (#[trigger] looked(
                d,
                false,
                below,
            ).queue[k]).1 == d.queue[0].1 + 1 && below.contains(looked(d, false, below).queue[k].0),
{
    directories_are_sorted(below);
    let s = sorted(below);
    let q = looked(d, false, below).queue;
    assert(d.queue.skip(1).len() == d.queue.len() - 1);
    if d.queue[0].1 < MAX_DEPTH {
        assert forall|k: int| d.queue.len() - 1 <= k < q.len() implies (#[trigger] q[k]).1 == d.queue[0].1
            + 1 && below.contains(q[k].0) by {
            let i = k - (d.queue.len() - 1);
            assert(q[k].0 == s[i]);
            assert(s.to_multiset().count(s[i]) > 0) by {
                s.to_multiset_ensures();
                assert(s.contains(s[i]));
            }
            below.to_multiset_ensures();
        }
    }
}

proof fn lemma_sorted_in(s: Seq<Seq<char>>, t: Seq<char>)
    ensures
        sorted_in(s, t).len() == s.len() + 1,
        sorted_in(s, t).to_multiset() == s.to_multiset().insert(t),
    decreases s.len(),
{
    s.to_multiset_ensures();
    if s.len() > 0 && text_lt(t, s.last()) {
        lemma_sorted_in(s.drop_last(), t);
        let part = sorted_in(s.drop_last(), t);
        part.to_multiset_ensures();
        s.drop_last().to_multiset_ensures();
        assert(s =~= s.drop_last().push(s.last()));
        assert(sorted_in(s, t).to_multiset() =~= s.to_multiset().insert(t));
    }
}

/// The directories below are the same ones, in another order.
pub proof fn directories_are_sorted(s: Seq<Seq<char>>)
    ensures
        sorted(s).len() == s.len(),
        sorted(s).to_multiset() == s.to_multiset(),
    decreases s.len(),
{
    if s.len() > 0 {
        directories_are_sorted(s.drop_last());
        lemma_sorted_in(sorted(s.drop_last()), s.last());
        s.drop_last().to_multiset_ensures();
        assert(s =~= s.drop_last().push(s.last()));
    }
}

/// A tool has an identity, a description and a way to reach it; tools are refused at the first that
/// lacks one.
pub proof fn tools_are_complete(d: ToolsDoc)
    ensures
        doc_complaint(d) is None <==> d.version == 1 && forall|i: int|
            0 <= i < d.tools@.len() ==> complete(#[trigger] d.tools@[i]),
{
    lemma_tools(d.tools@, 0);
}

/// A tool that can be named, described and reached.
pub open spec fn complete(t: ToolEntry) -> bool {
    &&& !blank(t.id@)
    &&& !blank(t.description@)
    &&& match t.transport {
        Transport::Exec { command, .. } => !blank(command@),
        Transport::Http { method, url, .. } => !blank(method@) && !blank(url@),
    }
}

proof fn lemma_tools(tools: Seq<ToolEntry>, i: int)
    requires
        0 <= i <= tools.len(),
    ensures
        tools_complaint(tools, i) is None <==> forall|k: int|
            i <= k < tools.len() ==> complete(#[trigger] tools[k]),
    decreases tools.len() - i,
{
    if i < tools.len() {
        lemma_tools(tools, i + 1);
        assert(tool_complaint(tools[i]) is None <==> complete(tools[i]));
    }
}

} // verus!
