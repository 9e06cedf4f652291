//! What the layers of a configuration promise: each is laid over those before it, and what a layer
//! does not speak of stays.

use crate::config::overrides::{
    env_path, file_tree, layered, overridden, setting_value, with_files, with_path, EnvModel, FileModel,
};
use crate::config::trees::{
    all_renamed, entries_renamed, kb_renamed, merged, merged_upto, merging_keeps_the_rest, old_names_are_gone,
    renamed, router_renamed, upper_layers_win,
};
use crate::json::{
    insert_then_get, map_get, map_insert, map_remove, ordered, remove_then_get, JsonModel, MapModel,
};
use vstd::prelude::*;

verus! {

/// The value that a tree has for a setting: what stands at the end of the path through its objects.
pub open spec fn setting(j: JsonModel, path: Seq<Seq<char>>) -> Option<JsonModel>
    decreases path.len(),
{
    if path.len() == 0 {
        Some(j)
    } else {
        match j {
            JsonModel::Object(m) => match map_get(m, path[0]) {
                Some(x) => setting(x, path.skip(1)),
                None => None,
            },
            _ => None,
        }
    }
}

/// Whether a layer leaves a setting alone: it says nothing of it, nor puts something that is no
/// object on the way to it.
pub open spec fn leaves(j: JsonModel, path: Seq<Seq<char>>) -> bool
    decreases path.len(),
{
    path.len() > 0 && match j {
        JsonModel::Object(m) => match map_get(m, path[0]) {
            Some(x) => leaves(x, path.skip(1)),
            None => true,
        },
        _ => false,
    }
}

/// Whether the objects of a tree have their keys in order, each once.
pub open spec fn tidy(j: JsonModel) -> bool
    decreases j,
{
    match j {
        JsonModel::Object(m) => ordered(m) && forall|i: int| 0 <= i < m.len() ==> tidy((#[trigger] m[i]).1),
        _ => true,
    }
}

proof fn lemma_tidy_below(m: MapModel, key: Seq<char>)
    requires
        forall|i: int| 0 <= i < m.len() ==> tidy((#[trigger] m[i]).1),
        map_get(m, key) is Some,
    ensures
        tidy(map_get(m, key)->0),
    decreases m.len(),
{
    if m[0].0 != key {
        let t = m.skip(1);
        assert forall|i: int| 0 <= i < t.len() implies tidy((#[trigger] t[i]).1) by {
            assert(t[i] == m[i + 1]);
        }
        lemma_tidy_below(t, key);
    }
}

proof fn lemma_tidy_insert(m: MapModel, key: Seq<char>, value: JsonModel)
    requires
        tidy(JsonModel::Object(m)),
        tidy(value),
    ensures
        tidy(JsonModel::Object(map_insert(m, key, value))),
{
    insert_then_get(m, key, value, key);
    lemma_tidy_entries(m, key, value);
}

proof fn lemma_tidy_entries(m: MapModel, key: Seq<char>, value: JsonModel)
    requires
        forall|i: int| 0 <= i < m.len() ==> tidy((#[trigger] m[i]).1),
        tidy(value),
    ensures
        forall|i: int|
            0 <= i < map_insert(m, key, value).len() ==> tidy(
                (#[trigger] map_insert(m, key, value)[i]).1,
            ),
    decreases m.len(),
{
    let r = map_insert(m, key, value);
    if m.len() > 0 {
        let t = m.skip(1);
        assert forall|i: int| 0 <= i < t.len() implies tidy((#[trigger] t[i]).1) by {
            assert(t[i] == m[i + 1]);
        }
        lemma_tidy_entries(t, key, value);
        let rest = map_insert(t, key, value);
        assert forall|i: int| 0 <= i < r.len() implies tidy((#[trigger] r[i]).1) by {
            if m[0].0 == key {
                if i > 0 {
                    assert(r[i] == m[i]);
                }
            } else if crate::text::text_lt(key, m[0].0) {
                if i > 0 {
                    assert(r[i] == m[i - 1]);
                }
            } else if i == 0 {
                assert(r[0] == m[0]);
            } else {
                assert(r[i] == rest[i - 1]);
            }
        }
    }
}

proof fn lemma_tidy_merged_upto(b: MapModel, p: MapModel, n: int)
    requires
        tidy(JsonModel::Object(b)),
        tidy(JsonModel::Object(p)),
        0 <= n <= p.len(),
    ensures
        tidy(JsonModel::Object(merged_upto(b, p, n))),
    decreases p, n,
{
    if n > 0 {
        lemma_tidy_merged_upto(b, p, n - 1);
        let rest = merged_upto(b, p, n - 1);
        let key = p[n - 1].0;
        match map_get(rest, key) {
            Some(x) => {
                lemma_tidy_below(rest, key);
                lemma_tidy_merged(x, p[n - 1].1);
                lemma_tidy_insert(rest, key, merged(x, p[n - 1].1));
            },
            None => {
                lemma_tidy_insert(rest, key, p[n - 1].1);
            },
        }
    }
}

proof fn lemma_tidy_merged(base: JsonModel, patch: JsonModel)
    requires
        tidy(base),
        tidy(patch),
    ensures
        tidy(merged(base, patch)),
    decreases patch, 0int,
{
    match (base, patch) {
        (JsonModel::Object(b), JsonModel::Object(p)) => {
            lemma_tidy_merged_upto(b, p, p.len() as int);
        },
        _ => {},
    }
}

/// What a layer says of a setting holds when the layer is laid over others.
pub proof fn the_upper_layer_is_heard(
    base: JsonModel,
    patch: JsonModel,
    path: Seq<Seq<char>>,
    value: JsonModel,
)
    requires
        tidy(base),
        tidy(patch),
        setting(patch, path) == Some(value),
        value !is Object,
    ensures
        setting(merged(base, patch), path) == Some(value),
    decreases path.len(),
{
    if path.len() > 0 {
        let p = patch->Object_0;
        let x = map_get(p, path[0])->0;
        if let JsonModel::Object(b) = base {
            upper_layers_win(b, p, path[0]);
            lemma_tidy_below(p, path[0]);
            if map_get(b, path[0]) is Some {
                lemma_tidy_below(b, path[0]);
                the_upper_layer_is_heard(map_get(b, path[0])->0, x, path.skip(1), value);
            }
        }
    }
}

/// What a layer leaves alone stays as it was.
pub proof fn the_lower_layer_shows_through(
    base: JsonModel,
    patch: JsonModel,
    path: Seq<Seq<char>>,
    value: JsonModel,
)
    requires
        tidy(base),
        tidy(patch),
        setting(base, path) == Some(value),
        leaves(patch, path),
    ensures
        setting(merged(base, patch), path) == Some(value),
    decreases path.len(),
{
    let b = base->Object_0;
    let p = patch->Object_0;
    if map_get(p, path[0]) is Some {
        upper_layers_win(b, p, path[0]);
        lemma_tidy_below(b, path[0]);
        lemma_tidy_below(p, path[0]);
        the_lower_layer_shows_through(
            map_get(b, path[0])->0,
            map_get(p, path[0])->0,
            path.skip(1),
            value,
        );
    } else {
        merging_keeps_the_rest(b, p, path[0]);
    }
}

/// What a file says, with the old names of its keys replaced.
pub open spec fn says(f: FileModel) -> Option<JsonModel> {
    match file_tree(f) {
        Ok(Some(tree)) => Some(kb_renamed(router_renamed(tree))),
        _ => None,
    }
}

/// Whether the trees in files are tidy.
pub open spec fn tidy_files(files: Seq<FileModel>) -> bool {
    forall|k: int|
        0 <= k < files.len() ==> (file_tree(#[trigger] files[k]) matches Ok(Some(j)) ==> tidy(j))
}

proof fn lemma_says_tidy(files: Seq<FileModel>, k: int)
    requires
        tidy_files(files),
        0 <= k < files.len(),
        says(files[k]) is Some,
    ensures
        tidy(says(files[k])->0),
{
    let tree = file_tree(files[k])->Ok_0->0;
    lemma_old_names();
    lemma_tidy_renamed(
        tree,
        "router"@,
        ("allow_shell_fastpath"@, "fastpath_shell"@),
        ("shell_fastpath"@, "fastpath_shell"@),
    );
    lemma_tidy_renamed(
        router_renamed(tree),
        "kb"@,
        ("ledger"@, "events_db"@),
        ("materialized"@, "view_db"@),
    );
}

proof fn lemma_old_names()
    ensures
        "allow_shell_fastpath"@ != "fastpath_shell"@,
        "shell_fastpath"@ != "fastpath_shell"@,
        "ledger"@ != "events_db"@,
        "materialized"@ != "view_db"@,
{
    reveal_strlit("allow_shell_fastpath");
    reveal_strlit("shell_fastpath");
    reveal_strlit("fastpath_shell");
    reveal_strlit("ledger");
    reveal_strlit("events_db");
    reveal_strlit("materialized");
    reveal_strlit("view_db");
    assert("shell_fastpath"@[0] == 's' && "fastpath_shell"@[0] == 'f' && "allow_shell_fastpath"@[0] == 'a'
        && "ledger"@[0] == 'l' && "events_db"@[0] == 'e' && "materialized"@[0] == 'm' && "view_db"@[0]
        == 'v');
}

proof fn lemma_tidy_remove(m: MapModel, key: Seq<char>)
    requires
        tidy(JsonModel::Object(m)),
    ensures
        tidy(JsonModel::Object(map_remove(m, key))),
{
    remove_then_get(m, key, key);
    lemma_remove_entries(m, key);
}

proof fn lemma_remove_entries(m: MapModel, key: Seq<char>)
    requires
        forall|i: int| 0 <= i < m.len() ==> tidy((#[trigger] m[i]).1),
    ensures
        forall|i: int| 0 <= i < map_remove(m, key).len() ==> tidy((#[trigger] map_remove(m, key)[i]).1),
    decreases m.len(),
{
    let r = map_remove(m, key);
    if m.len() > 0 {
        let t = m.skip(1);
        assert forall|i: int| 0 <= i < t.len() implies tidy((#[trigger] t[i]).1) by {
            assert(t[i] == m[i + 1]);
        }
        lemma_remove_entries(t, key);
        assert forall|i: int| 0 <= i < r.len() implies tidy((#[trigger] r[i]).1) by {
            if m[0].0 == key {
                assert(r[i] == t[i]);
            } else if i > 0 {
                assert(r[i] == map_remove(t, key)[i - 1]);
            } else {
                assert(r[0] == m[0]);
            }
        }
    }
}

proof fn lemma_tidy_key(m: MapModel, from: Seq<char>, to: Seq<char>)
    requires
        tidy(JsonModel::Object(m)),
    ensures
        tidy(JsonModel::Object(renamed(m, from, to))),
{
    if map_get(m, from) is Some {
        lemma_tidy_remove(m, from);
        lemma_tidy_below(m, from);
        if map_get(m, to) is None {
            lemma_tidy_insert(map_remove(m, from), to, map_get(m, from)->0);
        }
    }
}

proof fn lemma_tidy_renamed(
    j: JsonModel,
    section: Seq<char>,
    first: (Seq<char>, Seq<char>),
    second: (Seq<char>, Seq<char>),
)
    requires
        tidy(j),
    ensures
        tidy(all_renamed(j, section, first, second)),
    decreases j,
{
    if let JsonModel::Object(m) = j {
        let e = entries_renamed(m, section, first, second);
        lemma_renamed_entry(m, section, section, first, second);
        assert forall|i: int| 0 <= i < e.len() implies tidy((#[trigger] e[i]).1) by {
            assert(tidy(m[i].1));
            lemma_tidy_renamed(m[i].1, section, first, second);
        }
        assert(tidy(JsonModel::Object(e)));
        if let Some(JsonModel::Object(s)) = map_get(e, section) {
            lemma_tidy_below(e, section);
            lemma_tidy_key(s, first.0, first.1);
            lemma_tidy_key(renamed(s, first.0, first.1), second.0, second.1);
            lemma_tidy_insert(
                e,
                section,
                JsonModel::Object(renamed(renamed(s, first.0, first.1), second.0, second.1)),
            );
        }
    }
}

/// Whether a file leaves a setting alone, or is not there.
pub open spec fn file_leaves(f: FileModel, path: Seq<Seq<char>>) -> bool {
    says(f) matches Some(j) ==> leaves(j, path)
}

proof fn lemma_files_stay(
    base: JsonModel,
    files: Seq<FileModel>,
    i: nat,
    n: nat,
    path: Seq<Seq<char>>,
    value: JsonModel,
)
    requires
        tidy(base),
        tidy_files(files),
        i <= n <= files.len(),
        with_files(base, files, n) is Ok,
        with_files(base, files, i) is Ok ==> setting(with_files(base, files, i)->Ok_0.0, path) == Some(
            value,
        ),
        forall|k: int| i <= k < n ==> file_leaves(#[trigger] files[k], path),
    ensures
        setting(with_files(base, files, n)->Ok_0.0, path) == Some(value),
        tidy(with_files(base, files, n)->Ok_0.0),
    decreases n,
{
    lemma_files_tidy(base, files, n);
    if i < n {
        let m = (n - 1) as nat;
        lemma_files_stay(base, files, i, m, path, value);
        let below = with_files(base, files, m)->Ok_0.0;
        assert(file_leaves(files[n - 1], path));
        if says(files[n - 1]) is Some {
            lemma_says_tidy(files, n - 1);
            lemma_files_tidy(base, files, m);
            the_lower_layer_shows_through(below, says(files[n - 1])->0, path, value);
        }
    }
}

proof fn lemma_files_tidy(base: JsonModel, files: Seq<FileModel>, n: nat)
    requires
        tidy(base),
        tidy_files(files),
        n <= files.len(),
        with_files(base, files, n) is Ok,
    ensures
        tidy(with_files(base, files, n)->Ok_0.0),
        n > 0 ==> with_files(base, files, (n - 1) as nat) is Ok,
        n > 0 ==> with_files(base, files, n)->Ok_0.0 == match says(files[n - 1]) {
            Some(j) => merged(with_files(base, files, (n - 1) as nat)->Ok_0.0, j),
            None => with_files(base, files, (n - 1) as nat)->Ok_0.0,
        },
    decreases n,
{
    if n > 0 {
        let m = (n - 1) as nat;
        lemma_files_tidy(base, files, m);
        let below = with_files(base, files, m)->Ok_0.0;
        if says(files[n - 1]) is Some {
            lemma_says_tidy(files, n - 1);
            lemma_tidy_merged(below, says(files[n - 1])->0);
        }
    }
}

/// Files are laid one over the other: what a file says of a setting holds as long as no later file
/// speaks of it, and what the defaults say holds where no file speaks of it.
pub proof fn files_are_laid_one_over_the_other(
    base: JsonModel,
    files: Seq<FileModel>,
    i: int,
    path: Seq<Seq<char>>,
    value: JsonModel,
)
    requires
        tidy(base),
        tidy_files(files),
        with_files(base, files, files.len()) is Ok,
        -1 <= i < files.len(),
        i >= 0 ==> says(files[i]) is Some && setting(says(files[i])->0, path) == Some(value) && value
            !is Object,
        i < 0 ==> setting(base, path) == Some(value),
        forall|k: int| i < k < files.len() ==> file_leaves(#[trigger] files[k], path),
    ensures
        setting(with_files(base, files, files.len())->Ok_0.0, path) == Some(value),
{
    let n = (i + 1) as nat;
    if i >= 0 && with_files(base, files, n) is Ok {
        lemma_files_tidy(base, files, n);
        lemma_files_tidy(base, files, i as nat);
        lemma_says_tidy(files, i);
        the_upper_layer_is_heard(
            with_files(base, files, i as nat)->Ok_0.0,
            says(files[i])->0,
            path,
            value,
        );
    }
    lemma_files_stay(base, files, n, files.len(), path, value);
}

/// Whether neither of two paths leads through the end of the other.
pub open spec fn apart(a: Seq<Seq<char>>, b: Seq<Seq<char>>) -> bool {
    exists|i: int| 0 <= i < a.len() && i < b.len() && a[i] != b[i]
}

proof fn lemma_apart_below(a: Seq<Seq<char>>, b: Seq<Seq<char>>)
    requires
        apart(a, b),
        a[0] == b[0],
    ensures
        apart(a.skip(1), b.skip(1)),
        a.len() > 1,
        b.len() > 1,
{
    let i = choose|i: int| 0 <= i < a.len() && i < b.len() && a[i] != b[i];
    assert(a.skip(1)[i - 1] != b.skip(1)[i - 1]);
}

/// A variable sets its own setting, and leaves the others alone.
pub proof fn variables_set_their_own_setting(
    m: MapModel,
    path: Seq<Seq<char>>,
    value: JsonModel,
    other: Seq<Seq<char>>,
)
    requires
        tidy(JsonModel::Object(m)),
        tidy(value),
        path.len() > 0,
        with_path(m, path, value) is Some,
    ensures
        tidy(JsonModel::Object(with_path(m, path, value)->0)),
        setting(JsonModel::Object(with_path(m, path, value)->0), path) == Some(value),
        apart(path, other) ==> setting(JsonModel::Object(with_path(m, path, value)->0), other)
            == setting(JsonModel::Object(m), other),
    decreases path.len(),
{
    let r = with_path(m, path, value)->0;
    if path.len() == 1 {
        lemma_tidy_insert(m, path[0], value);
        insert_then_get(m, path[0], value, path[0]);
        assert(setting(value, path.skip(1)) == Some(value));
        if apart(path, other) {
            insert_then_get(m, path[0], value, other[0]);
        }
    } else {
        let b = match map_get(m, path[0]) {
            Some(JsonModel::Object(x)) => x,
            _ => MapModel::empty(),
        };
        if map_get(m, path[0]) is Some {
            lemma_tidy_below(m, path[0]);
        }
        assert(tidy(JsonModel::Object(b)));
        let c = with_path(b, path.skip(1), value)->0;
        variables_set_their_own_setting(b, path.skip(1), value, other.skip(1));
        lemma_tidy_insert(m, path[0], JsonModel::Object(c));
        insert_then_get(m, path[0], JsonModel::Object(c), path[0]);
        if apart(path, other) {
            insert_then_get(m, path[0], JsonModel::Object(c), other[0]);
            if path[0] == other[0] {
                lemma_apart_below(path, other);
                if map_get(m, path[0]) is None {
                    assert(setting(JsonModel::Object(b), other.skip(1)) is None);
                }
            }
        }
    }
}

/// Whether a variable leaves a setting alone: it is none of the program's, or sets another.
pub open spec fn variable_leaves(v: EnvModel, path: Seq<Seq<char>>) -> bool {
    env_path(v.key) matches Some(p) ==> apart(p, path)
}

/// What the first `n` variables make of an object.
pub open spec fn set_by(m: MapModel, env: Seq<EnvModel>, n: nat) -> MapModel {
    match overridden(m, env, n) {
        Some((b, _)) => b,
        None => m,
    }
}

/// Whether the values that variables give are tidy.
pub open spec fn tidy_variables(env: Seq<EnvModel>) -> bool {
    forall|k: int|
        0 <= k < env.len() ==> (env_path((#[trigger] env[k]).key) matches Some(p) ==> p.len() > 0 && tidy(
            setting_value(p, env[k].value, env[k].fraction),
        ))
}

proof fn lemma_variables_tidy(m: MapModel, env: Seq<EnvModel>, n: nat)
    requires
        tidy(JsonModel::Object(m)),
        tidy_variables(env),
        n <= env.len(),
        overridden(m, env, n) is Some,
    ensures
        tidy(JsonModel::Object(set_by(m, env, n))),
        n > 0 ==> overridden(m, env, (n - 1) as nat) is Some,
    decreases n,
{
    if n > 0 {
        lemma_variables_tidy(m, env, (n - 1) as nat);
        let b = set_by(m, env, (n - 1) as nat);
        let v = env[n - 1];
        if let Some(p) = env_path(v.key) {
            variables_set_their_own_setting(b, p, setting_value(p, v.value, v.fraction), p);
        }
    }
}

proof fn lemma_variables_stay(
    m: MapModel,
    env: Seq<EnvModel>,
    i: nat,
    n: nat,
    path: Seq<Seq<char>>,
    value: JsonModel,
)
    requires
        tidy(JsonModel::Object(m)),
        tidy_variables(env),
        i <= n <= env.len(),
        overridden(m, env, n) is Some,
        overridden(m, env, i) is Some ==> setting(JsonModel::Object(set_by(m, env, i)), path)
            == Some(value),
        forall|k: int| i <= k < n ==> variable_leaves(#[trigger] env[k], path),
    ensures
        setting(JsonModel::Object(set_by(m, env, n)), path) == Some(value),
    decreases n,
{
    lemma_variables_tidy(m, env, n);
    if i < n {
        let k = (n - 1) as nat;
        lemma_variables_stay(m, env, i, k, path, value);
        lemma_variables_tidy(m, env, k);
        let b = set_by(m, env, k);
        let v = env[n - 1];
        assert(variable_leaves(v, path));
        if let Some(p) = env_path(v.key) {
            variables_set_their_own_setting(b, p, setting_value(p, v.value, v.fraction), path);
        }
    }
}

/// The last variable for a setting is heard, and what no variable sets stays.
pub proof fn the_last_variable_is_heard(
    m: MapModel,
    env: Seq<EnvModel>,
    i: int,
    path: Seq<Seq<char>>,
    value: JsonModel,
)
    requires
        tidy(JsonModel::Object(m)),
        tidy_variables(env),
        overridden(m, env, env.len()) is Some,
        -1 <= i < env.len(),
        i >= 0 ==> env_path(env[i].key) == Some(path) && value == setting_value(
            path,
            env[i].value,
            env[i].fraction,
        ),
        i < 0 ==> setting(JsonModel::Object(m), path) == Some(value),
        forall|k: int| i < k < env.len() ==> variable_leaves(#[trigger] env[k], path),
    ensures
        setting(JsonModel::Object(set_by(m, env, env.len())), path) == Some(value),
{
    let n = (i + 1) as nat;
    if i >= 0 && overridden(m, env, n) is Some {
        lemma_variables_tidy(m, env, n);
        lemma_variables_tidy(m, env, i as nat);
        let b = set_by(m, env, i as nat);
        assert(env_path((#[trigger] env[i]).key) is Some);
        variables_set_their_own_setting(b, path, value, path);
    }
    lemma_variables_stay(m, env, n, env.len(), path, value);
}

/// Whether a path leads through an old name of a key in a section.
pub open spec fn leads_through(
    path: Seq<Seq<char>>,
    section: Seq<char>,
    first: Seq<char>,
    second: Seq<char>,
) -> bool {
    exists|i: int|
        0 <= i < path.len() - 1 && #[trigger] path[i] == section && (path[i + 1] == first || path[i + 1]
            == second)
}

proof fn lemma_renamed_entry(
    m: MapModel,
    key: Seq<char>,
    section: Seq<char>,
    first: (Seq<char>, Seq<char>),
    second: (Seq<char>, Seq<char>),
)
    ensures
        map_get(entries_renamed(m, section, first, second), key) == match map_get(m, key) {
            Some(x) => Some(all_renamed(x, section, first, second)),
            None => None,
        },
        ordered(m) ==> ordered(entries_renamed(m, section, first, second)),
    decreases m.len(),
{
    let e = entries_renamed(m, section, first, second);
    if m.len() > 0 {
        lemma_renamed_entry(m.skip(1), key, section, first, second);
        assert(e.skip(1) =~= entries_renamed(m.skip(1), section, first, second));
        if ordered(m) {
            assert forall|i: int, j: int| 0 <= i < j < e.len() implies crate::text::text_lt(
                #[trigger] e[i].0,
                #[trigger] e[j].0,
            ) by {
                assert(e[i].0 == m[i].0 && e[j].0 == m[j].0);
            }
        }
    }
}

proof fn lemma_renamed_key(m: MapModel, from: Seq<char>, to: Seq<char>, key: Seq<char>)
    requires
        ordered(m),
        from != to,
        key != from,
        map_get(m, key) is Some,
    ensures
        map_get(renamed(m, from, to), key) == map_get(m, key),
        ordered(renamed(m, from, to)),
{
    old_names_are_gone(m, from, to);
    remove_then_get(m, from, key);
    if map_get(m, from) is Some && map_get(m, to) is None {
        insert_then_get(map_remove(m, from), to, map_get(m, from)->0, key);
    }
}

/// Replacing old names leaves what stands under no old name where it is.
pub proof fn renaming_keeps_the_rest(
    j: JsonModel,
    path: Seq<Seq<char>>,
    value: JsonModel,
    section: Seq<char>,
    first: (Seq<char>, Seq<char>),
    second: (Seq<char>, Seq<char>),
)
    requires
        tidy(j),
        setting(j, path) == Some(value),
        first.0 != first.1,
        second.0 != second.1,
        !leads_through(path, section, first.0, second.0),
        all_renamed(value, section, first, second) == value,
        value !is Object,
    ensures
        setting(all_renamed(j, section, first, second), path) == Some(value),
    decreases path.len(),
{
    if path.len() > 0 {
        let m = j->Object_0;
        let key = path[0];
        let x = map_get(m, key)->0;
        let rest = path.skip(1);
        lemma_tidy_below(m, key);
        assert(!leads_through(rest, section, first.0, second.0)) by {
            if leads_through(rest, section, first.0, second.0) {
                let i = choose|i: int|
                    0 <= i < rest.len() - 1 && #[trigger] rest[i] == section && (rest[i + 1] == first.0
                        || rest[i + 1] == second.0);
                assert(path[i + 1] == section && path[i + 1 + 1] == rest[i + 1]);
            }
        }
        renaming_keeps_the_rest(x, rest, value, section, first, second);
        let e = entries_renamed(m, section, first, second);
        lemma_renamed_entry(m, key, section, first, second);
        lemma_renamed_entry(m, section, section, first, second);
        if let Some(JsonModel::Object(s)) = map_get(e, section) {
            let t = renamed(renamed(s, first.0, first.1), second.0, second.1);
            insert_then_get(e, section, JsonModel::Object(t), key);
            if key == section {
                let y = all_renamed(x, section, first, second);
                assert(y == JsonModel::Object(s));
                assert(ordered(s)) by {
                    lemma_renamed_ordered(x, section, first, second);
                }
                if rest.len() > 0 {
                    assert(path[0] == section && path[1] == rest[0]);
                    lemma_renamed_key(s, first.0, first.1, rest[0]);
                    lemma_renamed_key(renamed(s, first.0, first.1), second.0, second.1, rest[0]);
                    assert(setting(JsonModel::Object(t), rest) == setting(y, rest));
                } else {
                    assert(value == x);
                }
            }
        }
    }
}

proof fn lemma_renamed_ordered(
    j: JsonModel,
    section: Seq<char>,
    first: (Seq<char>, Seq<char>),
    second: (Seq<char>, Seq<char>),
)
    requires
        tidy(j),
        first.0 != first.1,
        second.0 != second.1,
    ensures
        all_renamed(j, section, first, second) matches JsonModel::Object(m) ==> ordered(m),
{
    if let JsonModel::Object(m) = j {
        let e = entries_renamed(m, section, first, second);
        lemma_renamed_entry(m, section, section, first, second);
        if let Some(JsonModel::Object(s)) = map_get(e, section) {
            insert_then_get(
                e,
                section,
                JsonModel::Object(renamed(renamed(s, first.0, first.1), second.0, second.1)),
                section,
            );
        }
    }
}

/// Whether a path has no old name of a key on it.
pub open spec fn has_new_names(path: Seq<Seq<char>>) -> bool {
    &&& !leads_through(path, "router"@, "allow_shell_fastpath"@, "shell_fastpath"@)
    &&& !leads_through(path, "kb"@, "ledger"@, "materialized"@)
}

proof fn lemma_last_renaming(j: JsonModel, path: Seq<Seq<char>>, value: JsonModel)
    requires
        tidy(j),
        setting(j, path) == Some(value),
        has_new_names(path),
        value !is Object,
        router_renamed(value) == value,
        kb_renamed(value) == value,
    ensures
        setting(kb_renamed(router_renamed(j)), path) == Some(value),
{
    lemma_old_names();
    let first = ("allow_shell_fastpath"@, "fastpath_shell"@);
    let second = ("shell_fastpath"@, "fastpath_shell"@);
    renaming_keeps_the_rest(j, path, value, "router"@, first, second);
    lemma_tidy_renamed(j, "router"@, first, second);
    renaming_keeps_the_rest(
        router_renamed(j),
        path,
        value,
        "kb"@,
        ("ledger"@, "events_db"@),
        ("materialized"@, "view_db"@),
    );
}

/// A setting that a file gives, and that no later file and no variable speaks of, has the file's
/// value in the configuration that is loaded; one that no file speaks of has the default's.
pub proof fn loaded_settings_are_those_of_the_files(
    base: JsonModel,
    files: Seq<FileModel>,
    env: Seq<EnvModel>,
    i: int,
    path: Seq<Seq<char>>,
    value: JsonModel,
)
    requires
        tidy(base),
        tidy_files(files),
        tidy_variables(env),
        layered(base, files, env) is Ok,
        path.len() > 0,
        -1 <= i < files.len(),
        i >= 0 ==> says(files[i]) is Some && setting(says(files[i])->0, path) == Some(value),
        i < 0 ==> setting(base, path) == Some(value),
        value !is Object,
        router_renamed(value) == value,
        kb_renamed(value) == value,
        has_new_names(path),
        forall|k: int| i < k < files.len() ==> file_leaves(#[trigger] files[k], path),
        forall|k: int| 0 <= k < env.len() ==> variable_leaves(#[trigger] env[k], path),
    ensures
        setting(layered(base, files, env)->Ok_0.0, path) == Some(value),
{
    files_are_laid_one_over_the_other(base, files, i, path, value);
    lemma_files_tidy(base, files, files.len());
    let m = with_files(base, files, files.len())->Ok_0.0->Object_0;
    the_last_variable_is_heard(m, env, -1, path, value);
    lemma_variables_tidy(m, env, env.len());
    lemma_last_renaming(JsonModel::Object(set_by(m, env, env.len())), path, value);
}

/// The last variable for a setting goes before all files: its value is in the configuration that is
/// loaded.
pub proof fn loaded_settings_are_those_of_the_variables(
    base: JsonModel,
    files: Seq<FileModel>,
    env: Seq<EnvModel>,
    i: int,
    path: Seq<Seq<char>>,
)
    requires
        tidy(base),
        tidy_files(files),
        tidy_variables(env),
        layered(base, files, env) is Ok,
        with_files(base, files, files.len()) matches Ok((JsonModel::Object(_), _)),
        0 <= i < env.len(),
        env_path(env[i].key) == Some(path),
        has_new_names(path),
        ({
            let value = setting_value(path, env[i].value, env[i].fraction);
            value !is Object && router_renamed(value) == value && kb_renamed(value) == value
        }),
        forall|k: int| i < k < env.len() ==> variable_leaves(#[trigger] env[k], path),
    ensures
        setting(layered(base, files, env)->Ok_0.0, path) == Some(
            setting_value(path, env[i].value, env[i].fraction),
        ),
{
    let value = setting_value(path, env[i].value, env[i].fraction);
    lemma_files_tidy(base, files, files.len());
    let m = with_files(base, files, files.len())->Ok_0.0->Object_0;
    the_last_variable_is_heard(m, env, i, path, value);
    lemma_variables_tidy(m, env, env.len());
    lemma_last_renaming(JsonModel::Object(set_by(m, env, env.len())), path, value);
}

} // verus!
