//! Going through directories in search of manifests.

use crate::paths::{file_name, file_name_of, join_path, joined_path};
use crate::text::{before, same, text_lt, texts};
use vstd::prelude::*;

verus! {

/// How deep below a search directory manifests are looked for.
pub const MAX_DEPTH: usize = 3;

/// A search that is under way: the directories still to be looked at, each with its depth, and the
/// manifests found.
pub struct Discovery {
    queue: Vec<(String, usize)>,
    manifests: Vec<String>,
}

pub type QueueModel = Seq<(Seq<char>, usize)>;

pub ghost struct DiscoveryModel {
    pub queue: QueueModel,
    pub manifests: Seq<Seq<char>>,
}

pub open spec fn queue_models(s: Seq<(String, usize)>) -> QueueModel {
    s.map_values(|e: (String, usize)| (e.0@, e.1))
}

/// A text put before the first that comes after it.
pub open spec fn sorted_in(s: Seq<Seq<char>>, t: Seq<char>) -> Seq<Seq<char>>
    decreases s.len(),
{
    if s.len() > 0 && text_lt(t, s.last()) {
        sorted_in(s.drop_last(), t).push(s.last())
    } else {
        s.push(t)
    }
}

/// Texts in their order.
pub open spec fn sorted(s: Seq<Seq<char>>) -> Seq<Seq<char>>
    decreases s.len(),
{
    if s.len() == 0 {
        s
    } else {
        sorted_in(sorted(s.drop_last()), s.last())
    }
}

pub open spec fn at_depth(dirs: Seq<Seq<char>>, depth: usize) -> QueueModel {
    dirs.map_values(|d: Seq<char>| (d, depth))
}

/// The search once the first directory has been looked at: a manifest there ends it for that
/// directory, and the directories below wait behind the others, as long as they are not too deep.
pub open spec fn looked(d: DiscoveryModel, is_manifest: bool, below: Seq<Seq<char>>) -> DiscoveryModel {
    let (dir, depth) = d.queue[0];
    let rest = d.queue.skip(1);
    if is_manifest {
        DiscoveryModel {
            queue: rest,
            manifests: d.manifests.push(joined_path(dir, "manifest.toml"@)),
        }
    } else if depth >= MAX_DEPTH {
        DiscoveryModel { queue: rest, ..d }
    } else {
        DiscoveryModel { queue: rest + at_depth(sorted(below), (depth + 1) as usize), ..d }
    }
}

fn sort_in(s: &mut Vec<String>, t: String)
    ensures
        texts(final(s)@) == sorted_in(texts(old(s)@), t@),
{
    let ghost m = texts(s@);
    let mut k: usize = s.len();
    assert(m.take(k as int) =~= m);
    assert(sorted_in(m.take(k as int), t@) + m.skip(k as int) =~= sorted_in(m, t@));
    while k > 0 && before(t.as_str(), s[k - 1].as_str())
        invariant
            k <= s.len(),
            *s == *old(s),
            m == texts(s@),
            sorted_in(m, t@) == sorted_in(m.take(k as int), t@) + m.skip(k as int),
        decreases k,
    {
        assert(m.take(k as int).drop_last() =~= m.take(k - 1));
        assert(m.take(k as int).last() == m[k - 1]);
        assert(m[k - 1] == s@[k - 1]@);
        assert(sorted_in(m.take(k - 1), t@).push(m[k - 1]) + m.skip(k as int) =~= sorted_in(
            m.take(k - 1),
            t@,
        ) + m.skip(k - 1));
        k -= 1;
    }
    proof {
        if k > 0 {
            assert(m.take(k as int).last() == m[k - 1]);
            assert(m[k - 1] == s@[k - 1]@);
        }
    }
    s.insert(k, t);
    assert(texts(s@) =~= m.take(k as int).push(t@) + m.skip(k as int));
}

pub fn sort_texts(v: &Vec<String>) -> (r: Vec<String>)
    ensures
        texts(r@) == sorted(texts(v@)),
{
    let ghost all = texts(v@);
    let mut out: Vec<String> = Vec::new();
    let mut i: usize = 0;
    assert(texts(out@) =~= sorted(all.take(0)));
    while i < v.len()
        invariant
            i <= v.len(),
            all == texts(v@),
            texts(out@) == sorted(all.take(i as int)),
        decreases v.len() - i,
    {
        assert(all.take(i + 1).drop_last() =~= all.take(i as int));
        assert(all.take(i + 1).last() == v@[i as int]@);
        sort_in(&mut out, v[i].clone());
        i += 1;
    }
    assert(all.take(all.len() as int) =~= all);
    out
}

impl Discovery {
    pub closed spec fn view(self) -> DiscoveryModel {
        DiscoveryModel { queue: queue_models(self.queue@), manifests: texts(self.manifests@) }
    }

    /// Starts at a path. A file is its own result if it is a manifest; what is neither a file nor
    /// a directory has none.
    pub fn new(base: &str, is_file: bool, is_dir: bool) -> (r: Self)
        ensures
            r@ == (DiscoveryModel {
                queue: if !is_file && is_dir {
                    seq![(base@, 0usize)]
                } else {
                    seq![]
                },
                manifests: if is_file && file_name(base@) == Some("manifest.toml"@) {
                    seq![base@]
                } else {
                    seq![]
                },
            }),
    {
        let mut queue: Vec<(String, usize)> = Vec::new();
        let mut manifests: Vec<String> = Vec::new();
        if is_file {
            match file_name_of(base) {
                Some(n) => {
                    if same(n.as_str(), "manifest.toml") {
                        manifests.push(base.to_owned());
                    }
                },
                None => {},
            }
        } else if is_dir {
            queue.push((base.to_owned(), 0));
        }
        let r = Discovery { queue, manifests };
        proof {
            if !is_file && is_dir {
                assert(r@.queue =~= seq![(base@, 0usize)]);
            } else {
                assert(r@.queue =~= seq![]);
            }
            if is_file && file_name(base@) == Some("manifest.toml"@) {
                assert(r@.manifests =~= seq![base@]);
            } else {
                assert(r@.manifests =~= seq![]);
            }
        }
        r
    }

    /// The directory to look at next, and whether the directories in it are asked for if it holds
    /// no manifest.
    pub fn next(&self) -> (r: Option<(&String, bool)>)
        ensures
            match r {
                Some((dir, deeper)) => self@.queue.len() > 0 && dir@ == self@.queue[0].0 && deeper
                    == (self@.queue[0].1 < MAX_DEPTH),
                None => self@.queue.len() == 0,
            },
    {
        if self.queue.len() == 0 {
            return None;
        }
        Some((&self.queue[0].0, self.queue[0].1 < MAX_DEPTH))
    }

    /// Takes what was found in that directory.
    pub fn look(&mut self, is_manifest: bool, below: &Vec<String>)
        requires
            old(self)@.queue.len() > 0,
        ensures
            final(self)@ == looked(old(self)@, is_manifest, texts(below@)),
    {
        let ghost q0 = self.queue@;
        let ghost m0 = self.manifests@;
        let (dir, depth) = self.queue.remove(0);
        proof {
            assert(queue_models(q0)[0] == (dir@, depth));
            assert(queue_models(self.queue@) =~= queue_models(q0).skip(1));
        }
        if is_manifest {
            let found = join_path(dir.as_str(), "manifest.toml");
            self.manifests.push(found);
            assert(texts(self.manifests@) =~= texts(m0).push(found@));
            return ;
        }
        if depth >= MAX_DEPTH {
            return ;
        }
        let dirs = sort_texts(below);
        let ghost rest = queue_models(q0).skip(1);
        let ghost more = at_depth(texts(dirs@), (depth + 1) as usize);
        let mut i: usize = 0;
        assert(rest + more.take(0) =~= rest);
        while i < dirs.len()
            invariant
                i <= dirs.len(),
                depth < MAX_DEPTH,
                more == at_depth(texts(dirs@), (depth + 1) as usize),
                self.manifests@ == m0,
                queue_models(self.queue@) == rest + more.take(i as int),
            decreases dirs.len() - i,
        {
            let ghost q = self.queue@;
            let e = (dirs[i].clone(), depth + 1);
            self.queue.push(e);
            assert(queue_models(self.queue@) =~= queue_models(q).push((e.0@, e.1)));
            assert(more[i as int] == (e.0@, e.1));
            assert(rest + more.take(i + 1) =~= (rest + more.take(i as int)).push(more[i as int]));
            i += 1;
        }
        assert(more.take(more.len() as int) =~= more);
    }

    /// The manifests that were found, in the order in which they were found.
    pub fn finish(self) -> (r: Vec<String>)
        ensures
            texts(r@) == self@.manifests,
    {
        self.manifests
    }
}

/// No directory is ever waited for that is deeper than the limit.
pub open spec fn shallow(d: DiscoveryModel) -> bool {
    forall|i: int| 0 <= i < d.queue.len() ==> (#[trigger] d.queue[i]).1 <= MAX_DEPTH
}

/// A search stays within its depth.
pub proof fn searches_stay_shallow(d: DiscoveryModel, is_manifest: bool, below: Seq<Seq<char>>)
    requires
        d.queue.len() > 0,
        shallow(d),
    ensures
        shallow(looked(d, is_manifest, below)),
{
    let n = looked(d, is_manifest, below);
    let rest = d.queue.skip(1);
    assert forall|i: int| 0 <= i < n.queue.len() implies (#[trigger] n.queue[i]).1 <= MAX_DEPTH by {
        if i < rest.len() {
            assert(n.queue[i] == d.queue[i + 1]);
        }
    }
}

/// Below a manifest nothing is searched, and what was found stays found.
pub proof fn manifests_end_their_branch(d: DiscoveryModel, below: Seq<Seq<char>>)
    requires
        d.queue.len() > 0,
    ensures
        looked(d, true, below).queue == d.queue.skip(1),
        looked(d, true, below).manifests.drop_last() == d.manifests,
{
    assert(looked(d, true, below).manifests.drop_last() =~= d.manifests);
}

} // verus!
