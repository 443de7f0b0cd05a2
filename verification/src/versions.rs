//! The DSH versions offered for install: which published versions the
//! version page lists, in which order, and how each is tagged.
use vstd::prelude::*;

use crate::models::DshVersion;
use crate::semver_support::{compare_versions, is_semver, parse_version, semver_order, semver_prerelease};
use crate::text::{copy_opt, copy_string, lemma_insert_multiset, opt_view, owned, same_text};

verus! {

/// Newer versions kept below or at `latest`.
pub const OLDER_KEPT: usize = 6;

/// Versions kept when the registry names no usable `latest`.
pub const UNTAGGED_KEPT: usize = 80;

/// The registry metadata of the DSH package, as plain values.
#[derive(Clone, Debug)]
pub struct RegistryMetadata {
    /// The `dist-tags` entries, tag and version.
    pub dist_tags: Vec<(String, String)>,
    /// The published version texts, in the registry's order.
    pub versions: Vec<String>,
    /// The `time` entries, version and publication time.
    pub time: Vec<(String, String)>,
}

/// No two entries share a key.
pub open spec fn keys_distinct(pairs: Seq<(Seq<char>, Seq<char>)>) -> bool {
    forall|i: int, j: int| 0 <= i < j < pairs.len() ==> (#[trigger] pairs[i]).0 != (#[trigger] pairs[j]).0
}

impl RegistryMetadata {
    /// The metadata as the registry serves it: its tags, versions and times
    /// are the keys of maps, so each occurs once.
    pub open spec fn wf(self) -> bool {
        &&& keys_distinct(pair_texts(self.dist_tags@))
        &&& texts(self.versions@).no_duplicates()
        &&& keys_distinct(pair_texts(self.time@))
    }
}

pub open spec fn texts(v: Seq<String>) -> Seq<Seq<char>> {
    v.map_values(|s: String| s@)
}

pub open spec fn pair_texts(v: Seq<(String, String)>) -> Seq<(Seq<char>, Seq<char>)> {
    v.map_values(|p: (String, String)| (p.0@, p.1@))
}

/// The value of the first entry with the key (a map's lookup, its keys
/// being unique).
pub open spec fn lookup(pairs: Seq<(Seq<char>, Seq<char>)>, key: Seq<char>) -> Option<Seq<char>>
    decreases pairs.len(),
{
    if pairs.len() == 0 {
        None
    } else if pairs[0].0 == key {
        Some(pairs[0].1)
    } else {
        lookup(pairs.drop_first(), key)
    }
}

/// The first `n` elements (all, when there are fewer).
pub open spec fn first_n<A>(s: Seq<A>, n: nat) -> Seq<A> {
    if s.len() <= n {
        s
    } else {
        s.take(n as int)
    }
}

/// A candidate for the `next` tag: a semantic version above the bound, if any.
pub open spec fn next_candidate(v: Seq<char>, bound: Option<Seq<char>>) -> bool {
    is_semver(v) && match bound {
        Some(b) => semver_order(v, b) > 0,
        None => true,
    }
}

/// `max_by` over the candidates: the greatest, the last one among equals.
pub open spec fn next_version_of(vs: Seq<Seq<char>>, bound: Option<Seq<char>>) -> Option<Seq<char>>
    decreases vs.len(),
{
    if vs.len() == 0 {
        None
    } else {
        let best = next_version_of(vs.drop_last(), bound);
        let v = vs.last();
        if next_candidate(v, bound) {
            match best {
                Some(b) => if semver_order(b, v) > 0 {
                    Some(b)
                } else {
                    Some(v)
                },
                None => Some(v),
            }
        } else {
            best
        }
    }
}

/// Parses as a semantic version.
pub open spec fn semver_pred() -> spec_fn(Seq<char>) -> bool {
    |v: Seq<char>| is_semver(v)
}

/// Newer than `l`.
pub open spec fn newer_than(l: Seq<char>) -> spec_fn(Seq<char>) -> bool {
    |v: Seq<char>| semver_order(v, l) > 0
}

/// At most as new as `l`.
pub open spec fn not_newer_than(l: Seq<char>) -> spec_fn(Seq<char>) -> bool {
    |v: Seq<char>| semver_order(v, l) <= 0
}

/// Semantic versions ordered from the newest down, each at least as new as
/// every later one.
pub open spec fn newest_first(s: Seq<Seq<char>>) -> bool {
    &&& forall|i: int| 0 <= i < s.len() ==> is_semver(#[trigger] s[i])
    &&& forall|i: int, j: int| 0 <= i < j < s.len() ==> semver_order(#[trigger] s[i], #[trigger] s[j]) >= 0
}

/// `sorted` holds the versions of `vs`, newest first.
pub open spec fn sorted_newest_first(sorted: Seq<Seq<char>>, vs: Seq<Seq<char>>) -> bool {
    sorted.to_multiset() == vs.to_multiset() && newest_first(sorted)
}

/// What the version page shows of the sorted versions: with a usable
/// `latest`, all versions above it and the six newest at or below it;
/// otherwise the eighty newest.
pub open spec fn selection(sorted: Seq<Seq<char>>, latest: Option<Seq<char>>) -> Seq<Seq<char>> {
    match latest {
        Some(l) => sorted.filter(newer_than(l)) + first_n(sorted.filter(not_newer_than(l)), 6),
        None => first_n(sorted, 80),
    }
}

/// `acc` with a required version added when it is missing and parses.
pub open spec fn add_if_missing(acc: Seq<Seq<char>>, required: Option<Seq<char>>) -> Seq<Seq<char>> {
    match required {
        Some(r) => if !acc.contains(r) && is_semver(r) {
            acc.push(r)
        } else {
            acc
        },
        None => acc,
    }
}

/// The tags of a version.
pub open spec fn tags_for(
    raw: Seq<char>,
    current: Option<Seq<char>>,
    latest: Option<Seq<char>>,
    next: Option<Seq<char>>,
) -> Seq<Seq<char>> {
    (if current == Some(raw) {
        seq!["当前"@]
    } else {
        seq![]
    }) + (if latest == Some(raw) {
        seq!["latest"@]
    } else {
        seq![]
    }) + (if next == Some(raw) {
        seq!["next"@]
    } else {
        seq![]
    })
}

/// `d` is the version page's entry for the semantic version `raw`.
pub open spec fn describes(
    d: DshVersion,
    raw: Seq<char>,
    current: Option<Seq<char>>,
    latest: Option<Seq<char>>,
    next: Option<Seq<char>>,
    times: Seq<(Seq<char>, Seq<char>)>,
) -> bool {
    &&& d.version@ == raw
    &&& texts(d.tags@) == tags_for(raw, current, latest, next)
    &&& d.prerelease == (semver_prerelease(raw).unwrap().len() > 0)
    &&& d.stable == !d.prerelease
    &&& d.current == (current == Some(raw))
    &&& d.installed == d.current
    &&& opt_view(d.published_at) == lookup(times, raw)
}

/// The value stored under `key`.
pub fn lookup_value(pairs: &Vec<(String, String)>, key: &str) -> (r: Option<String>)
    ensures
        opt_view(r) == lookup(pair_texts(pairs@), key@),
{
    let ghost p = pair_texts(pairs@);
    let mut i: usize = 0;
    assert(p.skip(0) =~= p);
    while i < pairs.len()
        invariant
            i <= pairs.len(),
            p == pair_texts(pairs@),
            lookup(p, key@) == lookup(p.skip(i as int), key@),
        decreases pairs.len() - i,
    {
        proof {
            assert(p.skip(i as int).drop_first() =~= p.skip(i + 1));
            assert(p.skip(i as int)[0] == p[i as int]);
        }
        if same_text(pairs[i].0.as_str(), key) {
            return Some(copy_string(&pairs[i].1));
        }
        i = i + 1;
    }
    proof {
        assert(p.skip(i as int).len() == 0);
    }
    None
}

/// `versions` parsed and filtered to candidates above `latest` (or all
/// versions without one), then the greatest, the last among equals.
pub fn parsed_next_version(versions: &Vec<String>, latest: Option<&String>) -> (next: Option<String>)
    requires
        latest matches Some(l) ==> is_semver(l@),
    ensures
        opt_view(next) == next_version_of(texts(versions@), match latest {
            Some(l) => Some(l@),
            None => None,
        }),
{
    let ghost bound = match latest {
        Some(l) => Some(l@),
        None => None::<Seq<char>>,
    };
    let ghost vs = texts(versions@);
    let mut best: Option<String> = None;
    let mut i: usize = 0;
    while i < versions.len()
        invariant
            i <= versions.len(),
            vs == texts(versions@),
            bound == (match latest {
                Some(l) => Some(l@),
                None => None::<Seq<char>>,
            }),
            latest matches Some(l) ==> is_semver(l@),
            opt_view(best) == next_version_of(vs.take(i as int), bound),
            best matches Some(b) ==> is_semver(b@),
        decreases versions.len() - i,
    {
        let v = &versions[i];
        proof {
            assert(vs.take(i + 1).drop_last() =~= vs.take(i as int));
            assert(vs.take(i + 1).last() == v@);
        }
        if parse_version(v.as_str()).is_some() {
            let above = match latest {
                Some(l) => compare_versions(v.as_str(), l.as_str()) > 0,
                None => true,
            };
            if above {
                let replace = match &best {
                    Some(b) => !(compare_versions(b.as_str(), v.as_str()) > 0),
                    None => true,
                };
                if replace {
                    best = Some(copy_string(v));
                }
            }
        }
        i = i + 1;
    }
    assert(vs.take(versions.len() as int) =~= vs);
    best
}

/// The semantic versions among `versions`, in their order.
pub fn semver_only(versions: &Vec<String>) -> (kept: Vec<String>)
    ensures
        texts(kept@) == texts(versions@).filter(semver_pred()),
        forall|i: int| 0 <= i < kept.len() ==> is_semver(#[trigger] kept@[i]@),
{
    let ghost vs = texts(versions@);
    let mut kept: Vec<String> = Vec::new();
    let mut i: usize = 0;
    proof {
        reveal(Seq::filter);
        assert(vs.take(0) =~= Seq::<Seq<char>>::empty());
        assert(texts(kept@) =~= Seq::<Seq<char>>::empty());
    }
    while i < versions.len()
        invariant
            i <= versions.len(),
            vs == texts(versions@),
            texts(kept@) == vs.take(i as int).filter(semver_pred()),
            forall|k: int| 0 <= k < kept.len() ==> is_semver(#[trigger] kept@[k]@),
        decreases versions.len() - i,
    {
        proof {
            reveal(Seq::filter);
            assert(vs.take(i + 1).drop_last() =~= vs.take(i as int));
            assert(vs.take(i + 1).last() == versions@[i as int]@);
        }
        let ghost prev = kept@;
        if parse_version(versions[i].as_str()).is_some() {
            kept.push(copy_string(&versions[i]));
            assert(texts(kept@) =~= texts(prev).push(versions@[i as int]@));
        }
        i = i + 1;
    }
    assert(vs.take(versions.len() as int) =~= vs);
    kept
}

/// Inserts a version after every one at least as new.
fn insert_newest_first(sorted: &mut Vec<String>, v: String)
    requires
        newest_first(texts(old(sorted)@)),
        is_semver(v@),
    ensures
        newest_first(texts(final(sorted)@)),
        texts(final(sorted)@).to_multiset() == texts(old(sorted)@).to_multiset().insert(v@),
{
    let ghost key = v@;
    let mut p: usize = 0;
    let mut found = false;
    while !found && p < sorted.len()
        invariant
            p <= sorted.len(),
            sorted@ == old(sorted)@,
            key == v@,
            is_semver(key),
            newest_first(texts(sorted@)),
            forall|m: int| 0 <= m < p ==> semver_order(#[trigger] texts(sorted@)[m], key) >= 0,
            found ==> p < sorted.len() && semver_order(key, texts(sorted@)[p as int]) > 0,
            found ==> forall|c: Seq<char>|
                is_semver(c) && #[trigger] semver_order(texts(sorted@)[p as int], c) >= 0 ==> semver_order(key, c)
                    >= 0,
        decreases sorted.len() - p + (if found {
            0int
        } else {
            1int
        }),
    {
        assert(texts(sorted@)[p as int] == sorted@[p as int]@);
        let c = compare_versions(v.as_str(), sorted[p].as_str());
        if c > 0 {
            found = true;
        } else {
            p = p + 1;
        }
    }
    let ghost before = texts(sorted@);
    sorted.insert(p, v);
    proof {
        let after = texts(sorted@);
        assert(after =~= before.insert(p as int, key));
        assert forall|i: int| 0 <= i < after.len() implies is_semver(#[trigger] after[i]) by {
            if i < p {
                assert(after[i] == before[i]);
            } else if i > p {
                assert(after[i] == before[i - 1]);
            }
        }
        assert forall|i: int, j: int| 0 <= i < j < after.len() implies semver_order(
            #[trigger] after[i],
            #[trigger] after[j],
        ) >= 0 by {
            if j < p {
                assert(after[i] == before[i] && after[j] == before[j]);
            } else if j == p {
                assert(after[i] == before[i]);
            } else if i < p {
                assert(after[i] == before[i] && after[j] == before[j - 1]);
            } else if i == p {
                assert(after[j] == before[j - 1]);
                assert(is_semver(before[j - 1]));
                if j - 1 > p {
                    assert(semver_order(before[p as int], before[j - 1]) >= 0);
                }
            } else {
                assert(after[i] == before[i - 1] && after[j] == before[j - 1]);
            }
        }
        lemma_insert_multiset(before, p as int, key);
    }
}

/// The versions ordered newest first (each semantic version is inserted
/// after all that are at least as new, so equal ones keep their order).
pub fn sort_newest_first(versions: Vec<String>) -> (sorted: Vec<String>)
    requires
        forall|i: int| 0 <= i < versions.len() ==> is_semver(#[trigger] versions@[i]@),
    ensures
        sorted_newest_first(texts(sorted@), texts(versions@)),
{
    let ghost vs = texts(versions@);
    let mut sorted: Vec<String> = Vec::new();
    let mut i: usize = 0;
    assert(vs.take(0) =~= Seq::<Seq<char>>::empty());
    assert(texts(sorted@) =~= Seq::<Seq<char>>::empty());
    while i < versions.len()
        invariant
            i <= versions.len(),
            vs == texts(versions@),
            forall|k: int| 0 <= k < versions.len() ==> is_semver(#[trigger] versions@[k]@),
            newest_first(texts(sorted@)),
            texts(sorted@).to_multiset() == vs.take(i as int).to_multiset(),
        decreases versions.len() - i,
    {
        proof {
            broadcast use vstd::seq_lib::group_to_multiset_ensures;

            assert(vs.take(i + 1) =~= vs.take(i as int).push(versions@[i as int]@));
        }
        insert_newest_first(&mut sorted, copy_string(&versions[i]));
        i = i + 1;
    }
    assert(vs.take(versions.len() as int) =~= vs);
    sorted
}

/// The versions the page shows, from the sorted list (see `selection`).
pub fn select_versions(sorted: &Vec<String>, latest: Option<&String>) -> (picked: Vec<String>)
    requires
        forall|i: int| 0 <= i < sorted.len() ==> is_semver(#[trigger] sorted@[i]@),
        latest matches Some(l) ==> is_semver(l@),
    ensures
        texts(picked@) == selection(texts(sorted@), match latest {
            Some(l) => Some(l@),
            None => None,
        }),
        forall|i: int| 0 <= i < picked.len() ==> is_semver(#[trigger] picked@[i]@),
{
    let ghost s = texts(sorted@);
    match latest {
        Some(l) => {
            let mut newer: Vec<String> = Vec::new();
            let mut older: Vec<String> = Vec::new();
            let mut i: usize = 0;
            proof {
                reveal(Seq::filter);
                assert(s.take(0) =~= Seq::<Seq<char>>::empty());
                assert(texts(newer@) =~= Seq::<Seq<char>>::empty());
                assert(texts(older@) =~= Seq::<Seq<char>>::empty());
            }
            while i < sorted.len()
                invariant
                    i <= sorted.len(),
                    s == texts(sorted@),
                    forall|k: int| 0 <= k < sorted.len() ==> is_semver(#[trigger] sorted@[k]@),
                    is_semver(l@),
                    texts(newer@) == s.take(i as int).filter(newer_than(l@)),
                    texts(older@) == first_n(s.take(i as int).filter(not_newer_than(l@)), 6),
                    forall|k: int| 0 <= k < newer.len() ==> is_semver(#[trigger] newer@[k]@),
                    forall|k: int| 0 <= k < older.len() ==> is_semver(#[trigger] older@[k]@),
                decreases sorted.len() - i,
            {
                let ghost f_new = s.take(i as int).filter(newer_than(l@));
                let ghost f_old = s.take(i as int).filter(not_newer_than(l@));
                let ghost x = sorted@[i as int]@;
                proof {
                    reveal(Seq::filter);
                    assert(s.take(i + 1).drop_last() =~= s.take(i as int));
                    assert(s.take(i + 1).last() == x);
                }
                let c = compare_versions(sorted[i].as_str(), l.as_str());
                let ghost prev_newer = newer@;
                let ghost prev_older = older@;
                if c > 0 {
                    newer.push(copy_string(&sorted[i]));
                    proof {
                        assert(texts(newer@) =~= texts(prev_newer).push(x));
                        assert(s.take(i + 1).filter(not_newer_than(l@)) == f_old);
                    }
                } else {
                    proof {
                        assert(s.take(i + 1).filter(newer_than(l@)) == f_new);
                        assert(s.take(i + 1).filter(not_newer_than(l@)) == f_old.push(x));
                    }
                    if older.len() < OLDER_KEPT {
                        older.push(copy_string(&sorted[i]));
                        proof {
                            assert(texts(older@) =~= texts(prev_older).push(x));
                            assert(f_old.len() < 6);
                            assert(first_n(f_old.push(x), 6) =~= f_old.push(x));
                        }
                    } else {
                        proof {
                            assert(f_old.len() >= 6);
                            assert(first_n(f_old.push(x), 6) =~= first_n(f_old, 6));
                        }
                    }
                }
                i = i + 1;
            }
            assert(s.take(sorted.len() as int) =~= s);
            let mut picked = newer;
            let mut k: usize = 0;
            let ghost base = texts(picked@);
            while k < older.len()
                invariant
                    k <= older.len(),
                    texts(picked@) == base + texts(older@).take(k as int),
                    forall|m: int| 0 <= m < picked.len() ==> is_semver(#[trigger] picked@[m]@),
                    forall|m: int| 0 <= m < older.len() ==> is_semver(#[trigger] older@[m]@),
                decreases older.len() - k,
            {
                let ghost prev = picked@;
                picked.push(copy_string(&older[k]));
                assert(texts(picked@) =~= texts(prev).push(older@[k as int]@));
                assert(texts(older@).take(k + 1) =~= texts(older@).take(k as int).push(older@[k as int]@));
                k = k + 1;
            }
            assert(texts(older@).take(older.len() as int) =~= texts(older@));
            picked
        },
        None => {
            let mut picked: Vec<String> = Vec::new();
            let end = if sorted.len() <= UNTAGGED_KEPT {
                sorted.len()
            } else {
                UNTAGGED_KEPT
            };
            let mut k: usize = 0;
            assert(texts(picked@) =~= s.take(0));
            while k < end
                invariant
                    k <= end <= sorted.len(),
                    s == texts(sorted@),
                    texts(picked@) == s.take(k as int),
                    forall|m: int| 0 <= m < sorted.len() ==> is_semver(#[trigger] sorted@[m]@),
                    forall|m: int| 0 <= m < picked.len() ==> is_semver(#[trigger] picked@[m]@),
                decreases end - k,
            {
                let ghost prev = picked@;
                picked.push(copy_string(&sorted[k]));
                assert(texts(picked@) =~= texts(prev).push(sorted@[k as int]@));
                assert(texts(picked@) =~= s.take(k + 1));
                k = k + 1;
            }
            assert(s.take(end as int) =~= first_n(s, 80));
            picked
        },
    }
}

/// Whether `v` is among `list`.
fn contains_text_in(list: &Vec<String>, v: &str) -> (r: bool)
    ensures
        r == texts(list@).contains(v@),
{
    let mut i: usize = 0;
    while i < list.len()
        invariant
            i <= list.len(),
            forall|k: int| 0 <= k < i ==> texts(list@)[k] != v@,
        decreases list.len() - i,
    {
        if same_text(list[i].as_str(), v) {
            assert(texts(list@)[i as int] == v@);
            return true;
        }
        i = i + 1;
    }
    false
}

/// Adds a required version when it is missing and parses.
pub fn add_required(picked: &mut Vec<String>, required: &Option<String>)
    requires
        forall|i: int| 0 <= i < old(picked).len() ==> is_semver(#[trigger] old(picked)@[i]@),
    ensures
        texts(final(picked)@) == add_if_missing(texts(old(picked)@), opt_view(*required)),
        forall|i: int| 0 <= i < final(picked).len() ==> is_semver(#[trigger] final(picked)@[i]@),
{
    match required {
        Some(r) => {
            if !contains_text_in(picked, r.as_str()) && parse_version(r.as_str()).is_some() {
                picked.push(copy_string(r));
                assert(texts(picked@) =~= texts(old(picked)@).push(r@));
            }
        },
        None => {},
    }
}

/// The tags of a version.
fn version_tags(raw: &String, current: &Option<String>, latest: &Option<String>, next: &Option<String>) -> (tags: Vec<
    String,
>)
    ensures
        texts(tags@) == tags_for(raw@, opt_view(*current), opt_view(*latest), opt_view(*next)),
{
    let mut tags: Vec<String> = Vec::new();
    let is_current = match current {
        Some(c) => same_text(c.as_str(), raw.as_str()),
        None => false,
    };
    if is_current {
        tags.push(owned("当前"));
    }
    let ghost t1 = texts(tags@);
    let is_latest = match latest {
        Some(c) => same_text(c.as_str(), raw.as_str()),
        None => false,
    };
    if is_latest {
        tags.push(owned("latest"));
    }
    let ghost t2 = texts(tags@);
    let is_next = match next {
        Some(c) => same_text(c.as_str(), raw.as_str()),
        None => false,
    };
    if is_next {
        tags.push(owned("next"));
    }
    proof {
        let c1: Seq<Seq<char>> = if opt_view(*current) == Some(raw@) {
            seq!["当前"@]
        } else {
            seq![]
        };
        let c2: Seq<Seq<char>> = if opt_view(*latest) == Some(raw@) {
            seq!["latest"@]
        } else {
            seq![]
        };
        let c3: Seq<Seq<char>> = if opt_view(*next) == Some(raw@) {
            seq!["next"@]
        } else {
            seq![]
        };
        assert(t1 =~= c1);
        assert(t2 =~= c1 + c2);
        assert(texts(tags@) =~= c1 + c2 + c3);
    }
    tags
}

/// The page entry of a semantic version.
pub fn describe_version(
    raw: &String,
    current: &Option<String>,
    latest: &Option<String>,
    next: &Option<String>,
    time: &Vec<(String, String)>,
) -> (d: DshVersion)
    requires
        is_semver(raw@),
    ensures
        describes(d, raw@, opt_view(*current), opt_view(*latest), opt_view(*next), pair_texts(time@)),
{
    let tags = version_tags(raw, current, latest, next);
    let pre = parse_version(raw.as_str());
    let prerelease = match &pre {
        Some(p) => !p.as_str().is_empty(),
        None => false,
    };
    let is_current = match current {
        Some(c) => same_text(c.as_str(), raw.as_str()),
        None => false,
    };
    DshVersion {
        version: copy_string(raw),
        tags,
        prerelease,
        stable: !prerelease,
        current: is_current,
        installed: is_current,
        published_at: lookup_value(time, raw.as_str()),
    }
}

/// `listed` is the version page for the metadata and installed version,
/// where `all` is the published semantic versions sorted newest first and
/// `shown` the listed versions in their order.
pub open spec fn lists_versions(
    listed: Seq<DshVersion>,
    metadata: RegistryMetadata,
    current: Option<Seq<char>>,
    all: Seq<Seq<char>>,
    shown: Seq<Seq<char>>,
) -> bool {
    let vs = texts(metadata.versions@);
    let latest = lookup(pair_texts(metadata.dist_tags@), "latest"@);
    let bound = match latest {
        Some(l) => if is_semver(l) {
            Some(l)
        } else {
            None
        },
        None => None,
    };
    let next = next_version_of(vs, bound);
    &&& sorted_newest_first(all, vs.filter(semver_pred()))
    &&& sorted_newest_first(
        shown,
        add_if_missing(add_if_missing(add_if_missing(selection(all, bound), current), latest), next),
    )
    &&& listed.len() == shown.len()
    &&& forall|i: int|
        0 <= i < listed.len() ==> describes(
            #[trigger] listed[i],
            shown[i],
            current,
            latest,
            next,
            pair_texts(metadata.time@),
        )
}

/// The version service: the registry is read elsewhere; this decides what
/// the version page lists.
pub struct DshVersionService;

impl DshVersionService {
    /// The version page's entries, given the registry metadata and the
    /// installed version: the selection of the published semantic versions
    /// (see `selection`), plus the installed, `latest` and `next` versions
    /// when missing, newest first, each tagged and described.
    pub fn list(&self, metadata: RegistryMetadata, current: Option<String>) -> (listed: Vec<DshVersion>)
        requires
            metadata.wf(),
        ensures
            exists|all: Seq<Seq<char>>, shown: Seq<Seq<char>>|
                #[trigger] lists_versions(listed@, metadata, opt_view(current), all, shown),
            forall|i: int, j: int|
                0 <= i < j < listed.len() ==> (#[trigger] listed@[i]).version@ != (#[trigger] listed@[j]).version@,
    {
        let latest = lookup_value(&metadata.dist_tags, "latest");
        let bound: Option<&String> = match &latest {
            Some(l) => if parse_version(l.as_str()).is_some() {
                Some(l)
            } else {
                None
            },
            None => None,
        };
        let next = parsed_next_version(&metadata.versions, bound);
        let parsed = semver_only(&metadata.versions);
        let all = sort_newest_first(parsed);
        proof {
            assert forall|i: int| 0 <= i < all.len() implies is_semver(#[trigger] all@[i]@) by {
                assert(texts(all@)[i] == all@[i]@);
            }
        }
        let mut picked = select_versions(&all, bound);
        let ghost all_texts = texts(all@);
        let ghost selected = texts(picked@);
        add_required(&mut picked, &current);
        add_required(&mut picked, &latest);
        add_required(&mut picked, &next);
        let ghost with_required = texts(picked@);
        let shown = sort_newest_first(picked);
        let mut listed: Vec<DshVersion> = Vec::new();
        let mut i: usize = 0;
        while i < shown.len()
            invariant
                i <= shown.len(),
                newest_first(texts(shown@)),
                listed.len() == i,
                forall|k: int|
                    0 <= k < i ==> describes(
                        #[trigger] listed@[k],
                        texts(shown@)[k],
                        opt_view(current),
                        opt_view(latest),
                        opt_view(next),
                        pair_texts(metadata.time@),
                    ),
            decreases shown.len() - i,
        {
            assert(texts(shown@)[i as int] == shown@[i as int]@);
            let d = describe_version(&shown[i], &current, &latest, &next, &metadata.time);
            listed.push(d);
            i = i + 1;
        }
        proof {
            let bound_spec = match bound {
                Some(l) => Some(l@),
                None => None::<Seq<char>>,
            };
            assert(bound_spec == (match opt_view(latest) {
                Some(l) => if is_semver(l) {
                    Some(l)
                } else {
                    None
                },
                None => None,
            }));
            let vs = texts(metadata.versions@);
            assert(selected == selection(all_texts, bound_spec));
            assert(with_required == add_if_missing(
                add_if_missing(add_if_missing(selected, opt_view(current)), opt_view(latest)),
                opt_view(next),
            ));
            assert(sorted_newest_first(all_texts, vs.filter(semver_pred())));
            assert(sorted_newest_first(texts(shown@), with_required));
            assert(listed.len() == texts(shown@).len());
            let latest_spec = lookup(pair_texts(metadata.dist_tags@), "latest"@);
            let next_spec = next_version_of(vs, bound_spec);
            assert(opt_view(latest) == latest_spec);
            assert(opt_view(next) == next_spec);
            let sh = texts(shown@);
            assert(sorted_newest_first(
                sh,
                add_if_missing(
                    add_if_missing(add_if_missing(selection(all_texts, bound_spec), opt_view(current)), latest_spec),
                    next_spec,
                ),
            ));
            assert(forall|i: int|
                0 <= i < listed.len() ==> describes(
                    #[trigger] listed@[i],
                    sh[i],
                    opt_view(current),
                    latest_spec,
                    next_spec,
                    pair_texts(metadata.time@),
                ));
            assert(lists_versions(listed@, metadata, opt_view(current), all_texts, sh));
            law_versions_listed_once(listed@, metadata, opt_view(current), all_texts, sh);
        }
        listed
    }
}

proof fn lemma_add_keeps(acc: Seq<Seq<char>>, r: Option<Seq<char>>, x: Seq<char>)
    requires
        acc.contains(x),
    ensures
        add_if_missing(acc, r).contains(x),
{
    let i = choose|i: int| 0 <= i < acc.len() && acc[i] == x;
    assert(add_if_missing(acc, r)[i] == x);
}

proof fn lemma_add_has(acc: Seq<Seq<char>>, x: Seq<char>)
    requires
        is_semver(x),
    ensures
        add_if_missing(acc, Some(x)).contains(x),
{
    if !acc.contains(x) {
        assert(add_if_missing(acc, Some(x))[acc.len() as int] == x);
    }
}

proof fn lemma_listed_has(
    listed: Seq<DshVersion>,
    metadata: RegistryMetadata,
    current: Option<Seq<char>>,
    all: Seq<Seq<char>>,
    shown: Seq<Seq<char>>,
    x: Seq<char>,
) -> (i: int)
    requires
        lists_versions(listed, metadata, current, all, shown),
        shown.to_multiset().count(x) > 0,
    ensures
        0 <= i < listed.len(),
        shown[i] == x,
{
    broadcast use vstd::seq_lib::group_to_multiset_ensures;

    assert(shown.contains(x));
    let i = choose|i: int| 0 <= i < shown.len() && shown[i] == x;
    i
}

/// The installed version, when it is a semantic version, is always listed,
/// and marked as current and installed.
pub proof fn law_installed_version_listed(
    listed: Seq<DshVersion>,
    metadata: RegistryMetadata,
    installed: Seq<char>,
    all: Seq<Seq<char>>,
    shown: Seq<Seq<char>>,
)
    requires
        lists_versions(listed, metadata, Some(installed), all, shown),
        is_semver(installed),
    ensures
        exists|i: int|
            0 <= i < listed.len() && (#[trigger] listed[i]).version@ == installed && listed[i].current
                && listed[i].installed,
{
    broadcast use vstd::seq_lib::group_to_multiset_ensures;

    let vs = texts(metadata.versions@);
    let latest = lookup(pair_texts(metadata.dist_tags@), "latest"@);
    let bound = match latest {
        Some(l) => if is_semver(l) {
            Some(l)
        } else {
            None
        },
        None => None,
    };
    let next = next_version_of(vs, bound);
    let a1 = add_if_missing(selection(all, bound), Some(installed));
    lemma_add_has(selection(all, bound), installed);
    lemma_add_keeps(a1, latest, installed);
    let a2 = add_if_missing(a1, latest);
    lemma_add_keeps(a2, next, installed);
    let a3 = add_if_missing(a2, next);
    assert(a3.to_multiset().count(installed) > 0);
    let i = lemma_listed_has(listed, metadata, Some(installed), all, shown, installed);
    assert(describes(listed[i], shown[i], Some(installed), latest, next, pair_texts(metadata.time@)));
}

/// The version tagged `latest` in the registry, when it is a semantic
/// version, is always listed with the `latest` tag.
pub proof fn law_latest_version_listed(
    listed: Seq<DshVersion>,
    metadata: RegistryMetadata,
    current: Option<Seq<char>>,
    all: Seq<Seq<char>>,
    shown: Seq<Seq<char>>,
)
    requires
        lists_versions(listed, metadata, current, all, shown),
        lookup(pair_texts(metadata.dist_tags@), "latest"@) matches Some(l) && is_semver(l),
    ensures
        exists|i: int|
            0 <= i < listed.len() && Some((#[trigger] listed[i]).version@) == lookup(
                pair_texts(metadata.dist_tags@),
                "latest"@,
            ) && texts(listed[i].tags@).contains("latest"@),
{
    broadcast use vstd::seq_lib::group_to_multiset_ensures;

    let vs = texts(metadata.versions@);
    let latest = lookup(pair_texts(metadata.dist_tags@), "latest"@);
    let l = latest->0;
    let bound = Some(l);
    let next = next_version_of(vs, bound);
    let a1 = add_if_missing(selection(all, bound), current);
    lemma_add_has(a1, l);
    let a2 = add_if_missing(a1, latest);
    lemma_add_keeps(a2, next, l);
    let a3 = add_if_missing(a2, next);
    assert(a3.to_multiset().count(l) > 0);
    let i = lemma_listed_has(listed, metadata, current, all, shown, l);
    assert(describes(listed[i], shown[i], current, latest, next, pair_texts(metadata.time@)));
    let t = tags_for(l, current, latest, next);
    let c1: Seq<Seq<char>> = if current == Some(l) {
        seq!["当前"@]
    } else {
        seq![]
    };
    assert(t[c1.len() as int] == "latest"@);
}

proof fn lemma_filter_no_duplicates(s: Seq<Seq<char>>, p: spec_fn(Seq<char>) -> bool)
    requires
        s.no_duplicates(),
    ensures
        s.filter(p).no_duplicates(),
    decreases s.len(),
{
    reveal(Seq::filter);
    if s.len() > 0 {
        let rest = s.drop_last();
        assert(rest.no_duplicates()) by {
            assert forall|i: int, j: int| 0 <= i < rest.len() && 0 <= j < rest.len() && i != j implies rest[i]
                != rest[j] by {
                assert(rest[i] == s[i] && rest[j] == s[j]);
            }
        }
        lemma_filter_no_duplicates(rest, p);
        let f = rest.filter(p);
        if p(s.last()) {
            assert(s.filter(p) == f.push(s.last()));
            assert forall|k: int| 0 <= k < f.len() implies f[k] != s.last() by {
                if f[k] == s.last() {
                    assert(f.contains(s.last()));
                    rest.lemma_filter_contains_rev(p, s.last());
                    let m = choose|m: int| 0 <= m < rest.len() && rest[m] == s.last();
                    assert(s[m] == s[s.len() - 1]);
                }
            }
        }
    }
}

proof fn lemma_same_multiset_no_duplicates(a: Seq<Seq<char>>, b: Seq<Seq<char>>)
    requires
        a.no_duplicates(),
        a.to_multiset() == b.to_multiset(),
    ensures
        b.no_duplicates(),
{
    a.lemma_multiset_has_no_duplicates();
    b.lemma_multiset_has_no_duplicates_conv();
}

proof fn lemma_first_n_no_duplicates(s: Seq<Seq<char>>, n: nat)
    requires
        s.no_duplicates(),
    ensures
        first_n(s, n).no_duplicates(),
        forall|k: int| 0 <= k < first_n(s, n).len() ==> s.contains(#[trigger] first_n(s, n)[k]),
{
    let t = first_n(s, n);
    assert forall|k: int| 0 <= k < t.len() implies s.contains(#[trigger] t[k]) by {
        assert(t[k] == s[k]);
    }
}

proof fn lemma_selection_no_duplicates(all: Seq<Seq<char>>, bound: Option<Seq<char>>)
    requires
        all.no_duplicates(),
    ensures
        selection(all, bound).no_duplicates(),
{
    broadcast use vstd::seq_lib::group_filter_ensures;

    match bound {
        Some(l) => {
            let newer = all.filter(newer_than(l));
            let rest = all.filter(not_newer_than(l));
            lemma_filter_no_duplicates(all, newer_than(l));
            lemma_filter_no_duplicates(all, not_newer_than(l));
            lemma_first_n_no_duplicates(rest, 6);
            let older = first_n(rest, 6);
            assert forall|i: int, j: int| 0 <= i < newer.len() && 0 <= j < older.len() implies newer[i]
                != older[j] by {
                assert(newer_than(l)(newer[i]));
                assert(rest.contains(older[j]));
                let m = choose|m: int| 0 <= m < rest.len() && rest[m] == older[j];
                assert(not_newer_than(l)(rest[m]));
            }
            vstd::seq_lib::lemma_no_dup_in_concat(newer, older);
        },
        None => {
            lemma_first_n_no_duplicates(all, 80);
        },
    }
}

proof fn lemma_add_no_duplicates(acc: Seq<Seq<char>>, r: Option<Seq<char>>)
    requires
        acc.no_duplicates(),
    ensures
        add_if_missing(acc, r).no_duplicates(),
{
    match r {
        Some(x) => if !acc.contains(x) && is_semver(x) {
            assert forall|k: int| 0 <= k < acc.len() implies acc[k] != x by {
                if acc[k] == x {
                    assert(acc.contains(x));
                }
            }
        },
        None => {},
    }
}

/// The version page lists each version once when the registry's versions
/// are distinct (they are the keys of its `versions` map; see `wf`).
pub proof fn law_versions_listed_once(
    listed: Seq<DshVersion>,
    metadata: RegistryMetadata,
    current: Option<Seq<char>>,
    all: Seq<Seq<char>>,
    shown: Seq<Seq<char>>,
)
    requires
        lists_versions(listed, metadata, current, all, shown),
        texts(metadata.versions@).no_duplicates(),
    ensures
        forall|i: int, j: int|
            0 <= i < j < listed.len() ==> (#[trigger] listed[i]).version@ != (#[trigger] listed[j]).version@,
{
    let vs = texts(metadata.versions@);
    let latest = lookup(pair_texts(metadata.dist_tags@), "latest"@);
    let bound = match latest {
        Some(l) => if is_semver(l) {
            Some(l)
        } else {
            None
        },
        None => None,
    };
    let next = next_version_of(vs, bound);
    lemma_filter_no_duplicates(vs, semver_pred());
    lemma_same_multiset_no_duplicates(vs.filter(semver_pred()), all);
    lemma_selection_no_duplicates(all, bound);
    let a1 = add_if_missing(selection(all, bound), current);
    lemma_add_no_duplicates(selection(all, bound), current);
    let a2 = add_if_missing(a1, latest);
    lemma_add_no_duplicates(a1, latest);
    let a3 = add_if_missing(a2, next);
    lemma_add_no_duplicates(a2, next);
    lemma_same_multiset_no_duplicates(a3, shown);
    assert forall|i: int, j: int| 0 <= i < j < listed.len() implies (#[trigger] listed[i]).version@ != (
    #[trigger] listed[j]).version@ by {
        assert(describes(listed[i], shown[i], current, latest, next, pair_texts(metadata.time@)));
        assert(describes(listed[j], shown[j], current, latest, next, pair_texts(metadata.time@)));
    }
}

/// Every published version that semver parses, pre-release or not, is a
/// candidate for the page (it is among `all`), and nothing else is. When
/// at most six published versions parse, every one of them is listed.
pub proof fn law_every_parsable_version_is_a_candidate(
    listed: Seq<DshVersion>,
    metadata: RegistryMetadata,
    current: Option<Seq<char>>,
    all: Seq<Seq<char>>,
    shown: Seq<Seq<char>>,
)
    requires
        lists_versions(listed, metadata, current, all, shown),
    ensures
        forall|v: Seq<char>|
            texts(metadata.versions@).contains(v) && semver_prerelease(v) is Some ==> #[trigger] all.contains(v),
        forall|v: Seq<char>|
            #[trigger] all.contains(v) ==> texts(metadata.versions@).contains(v) && semver_prerelease(v) is Some,
        all.len() <= 6 ==> forall|v: Seq<char>|
            texts(metadata.versions@).contains(v) && semver_prerelease(v) is Some ==> exists|i: int|
                0 <= i < listed.len() && (#[trigger] listed[i]).version@ == v,
{
    broadcast use vstd::seq_lib::group_to_multiset_ensures;
    broadcast use vstd::seq_lib::group_filter_ensures;

    let vs = texts(metadata.versions@);
    let f = vs.filter(semver_pred());
    assert forall|v: Seq<char>| vs.contains(v) && semver_prerelease(v) is Some implies #[trigger] all.contains(v) by {
        let k = choose|k: int| 0 <= k < vs.len() && vs[k] == v;
        assert(semver_pred()(vs[k]));
        assert(f.contains(v));
        assert(f.to_multiset().count(v) > 0);
        assert(all.to_multiset().count(v) > 0);
    }
    assert forall|v: Seq<char>| #[trigger] all.contains(v) implies vs.contains(v) && semver_prerelease(v) is Some by {
        assert(all.to_multiset().count(v) > 0);
        assert(f.to_multiset().count(v) > 0);
        assert(f.contains(v));
        vs.lemma_filter_contains_rev(semver_pred(), v);
        let k = choose|k: int| 0 <= k < f.len() && f[k] == v;
        assert(semver_pred()(f[k]));
    }
    if all.len() <= 6 {
        let latest = lookup(pair_texts(metadata.dist_tags@), "latest"@);
        let bound = match latest {
            Some(l) => if is_semver(l) {
                Some(l)
            } else {
                None
            },
            None => None,
        };
        let next = next_version_of(vs, bound);
        assert forall|v: Seq<char>| vs.contains(v) && semver_prerelease(v) is Some implies exists|i: int|
            0 <= i < listed.len() && (#[trigger] listed[i]).version@ == v by {
            assert(all.contains(v));
            let k = choose|k: int| 0 <= k < all.len() && all[k] == v;
            let sel = selection(all, bound);
            assert(sel.contains(v)) by {
                match bound {
                    Some(l) => {
                        let newer = all.filter(newer_than(l));
                        let older = all.filter(not_newer_than(l));
                        if semver_order(v, l) > 0 {
                            assert(newer_than(l)(all[k]));
                            assert(newer.contains(v));
                            let m = choose|m: int| 0 <= m < newer.len() && newer[m] == v;
                            assert(sel[m] == v);
                        } else {
                            assert(not_newer_than(l)(all[k]));
                            assert(older.contains(v));
                            assert(older.len() <= all.len());
                            assert(first_n(older, 6) == older);
                            let m = choose|m: int| 0 <= m < older.len() && older[m] == v;
                            assert(sel[newer.len() + m] == v);
                        }
                    },
                    None => {
                        assert(first_n(all, 80) == all);
                        assert(sel[k] == v);
                    },
                }
            }
            let a1 = add_if_missing(sel, current);
            lemma_add_keeps(sel, current, v);
            let a2 = add_if_missing(a1, latest);
            lemma_add_keeps(a1, latest, v);
            lemma_add_keeps(a2, next, v);
            let a3 = add_if_missing(a2, next);
            assert(a3.to_multiset().count(v) > 0);
            let i = lemma_listed_has(listed, metadata, current, all, shown, v);
            assert(describes(listed[i], shown[i], current, latest, next, pair_texts(metadata.time@)));
        }
    }
}

} // verus!
