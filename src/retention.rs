//! Archive names and the retention rule: which rotated file, if any, is
//! removed after a rotation.
use vstd::prelude::*;
use crate::stamp::{Stamp, STAMP_LEN, stamp_of_text, parse_stamp, same_text};

verus! {

/// `t` occurs in `s` as a run of consecutive characters.
pub open spec fn contains(s: Seq<char>, t: Seq<char>) -> bool {
    exists|i: int| 0 <= i && i + t.len() <= s.len() && #[trigger] s.subrange(i, i + t.len()) == t
}

/// The name under which the active file `base` is archived at instant `st`.
pub open spec fn archive_name(st: Stamp, base: Seq<char>) -> Seq<char> {
    st.text() + seq!['-'] + base
}

/// The instant of an archive of `base`, read back from its name; `None` for a
/// name that is not `<stamp>-<base>` with a valid stamp.
pub open spec fn archive_stamp(n: Seq<char>, base: Seq<char>) -> Option<Stamp> {
    if n.len() == STAMP_LEN + 1 + base.len() && n[STAMP_LEN as int] == '-' && n.subrange(
        STAMP_LEN + 1,
        n.len() as int,
    ) == base {
        stamp_of_text(n.subrange(0, STAMP_LEN as int))
    } else {
        None
    }
}

/// The character sequences of a list of names.
pub open spec fn views(v: Seq<String>) -> Seq<Seq<char>> {
    v.map_values(|s: String| s@)
}

/// Number of names that belong to `base`: those that contain it.
pub open spec fn count_candidates(ns: Seq<Seq<char>>, base: Seq<char>) -> nat
    decreases ns.len(),
{
    if ns.len() == 0 {
        0
    } else {
        count_candidates(ns.drop_last(), base) + if contains(ns.last(), base) {
            1nat
        } else {
            0nat
        }
    }
}

/// Position of the earliest archive of `base` among `ns`, the first one where
/// two are equally old; names whose instant cannot be read are passed over.
pub open spec fn oldest_archive(ns: Seq<Seq<char>>, base: Seq<char>) -> Option<int>
    decreases ns.len(),
{
    if ns.len() == 0 {
        None
    } else {
        let prev = oldest_archive(ns.drop_last(), base);
        let i = ns.len() - 1;
        match archive_stamp(ns[i], base) {
            None => prev,
            Some(st) => match prev {
                None => Some(i),
                Some(j) => if st.before(archive_stamp(ns[j], base).unwrap()) {
                    Some(i)
                } else {
                    prev
                },
            },
        }
    }
}

/// The name to remove from a directory listing `ns` after a rotation: the
/// oldest archive, when more than `keep` names belong to `base`.
pub open spec fn prune_choice(ns: Seq<Seq<char>>, base: Seq<char>, keep: int) -> Option<int> {
    if count_candidates(ns, base) > keep {
        oldest_archive(ns, base)
    } else {
        None
    }
}

/// Whether `t` occurs in `s`.
pub fn contains_text(s: &str, t: &str) -> (r: bool)
    ensures
        r == contains(s@, t@),
{
    let n = s.unicode_len();
    let m = t.unicode_len();
    if m == 0 {
        assert(s@.subrange(0int, 0int + t@.len()) =~= t@);
        return true;
    }
    let mut i: usize = 0;
    while n - i >= m
        invariant
            n == s@.len(),
            m == t@.len(),
            m >= 1,
            i <= n,
            forall|k: int| 0 <= k < i ==> #[trigger] s@.subrange(k, k + m) != t@,
        decreases n - i,
    {
        if same_text(s.substring_char(i, i + m), t) {
            return true;
        }
        i = i + 1;
    }
    false
}

/// Reads the instant of an archive of `base` from its name. The name that
/// a rotation at a valid instant gives the archive reads back as that instant.
pub fn archive_stamp_of(name: &str, base: &str) -> (r: Option<Stamp>)
    ensures
        r == archive_stamp(name@, base@),
        forall|st: Stamp| st.valid() && name@ == archive_name(st, base@) ==> r == Some(st),
{
    proof {
        assert forall|st: Stamp| st.valid() && name@ == archive_name(st, base@) implies name@.len()
            == STAMP_LEN + 1 + base@.len() && name@[STAMP_LEN as int] == '-' && name@.subrange(
            STAMP_LEN + 1,
            name@.len() as int,
        ) == base@ && name@.subrange(0, STAMP_LEN as int) == st.text() by {
            crate::stamp::lemma_text_len(st);
            assert(name@.subrange(0, STAMP_LEN as int) =~= st.text());
            assert(name@.subrange(STAMP_LEN + 1, name@.len() as int) =~= base@);
        }
    }
    let n = name.unicode_len();
    let b = base.unicode_len();
    if b > n || n - b != STAMP_LEN + 1 {
        return None;
    }
    if name.get_char(STAMP_LEN) != '-' {
        return None;
    }
    if !same_text(name.substring_char(STAMP_LEN + 1, n), base) {
        return None;
    }
    parse_stamp(name.substring_char(0, STAMP_LEN))
}

/// A name that holds a readable instant belongs to `base`.
pub proof fn lemma_archive_contains_base(n: Seq<char>, base: Seq<char>)
    requires
        archive_stamp(n, base) is Some,
    ensures
        contains(n, base),
{
    let i = STAMP_LEN + 1;
    assert(n.subrange(i as int, i + base.len()) == base);
}

/// The position in a directory listing of the archive to remove after a
/// rotation: the oldest readable archive of `base`, when more than `keep`
/// names contain `base`.
pub fn prune_index(names: &Vec<String>, base: &str, keep: u32) -> (r: Option<usize>)
    ensures
        r matches Some(i) ==> i < names.len(),
        r == (match prune_choice(views(names@), base@, keep as int) {
            Some(i) => Some(i as usize),
            None => None,
        }),
{
    let ghost ns = views(names@);
    let mut count: usize = 0;
    let mut best: Option<usize> = None;
    let mut best_stamp = Stamp { year: 0, month: 1, day: 1, hour: 0, minute: 0, second: 0 };
    let mut i: usize = 0;
    while i < names.len()
        invariant
            ns == views(names@),
            i <= names.len(),
            count == count_candidates(ns.take(i as int), base@),
            count <= i,
            best == (match oldest_archive(ns.take(i as int), base@) {
                Some(j) => Some(j as usize),
                None => None,
            }),
            best matches Some(j) ==> j < i && archive_stamp(ns[j as int], base@) == Some(
                best_stamp,
            ),
            oldest_archive(ns.take(i as int), base@) matches Some(j) ==> 0 <= j < i,
        decreases names.len() - i,
    {
        let name = names[i].as_str();
        let ghost prefix = ns.take(i as int);
        assert(ns.take(i + 1).drop_last() =~= prefix);
        assert(ns[i as int] == names@[i as int]@);
        if contains_text(name, base) {
            count = count + 1;
        }
        match archive_stamp_of(name, base) {
            Some(st) => {
                match best {
                    None => {
                        best = Some(i);
                        best_stamp = st;
                    },
                    Some(_) => {
                        if st.is_before(&best_stamp) {
                            best = Some(i);
                            best_stamp = st;
                        }
                    },
                }
            },
            None => {},
        }
        i = i + 1;
    }
    assert(ns.take(names.len() as int) =~= ns);
    if count > keep as usize {
        best
    } else {
        None
    }
}


/// Whether every name of a listing is a readable archive of `base`.
pub open spec fn all_archives(ns: Seq<Seq<char>>, base: Seq<char>) -> bool {
    forall|j: int| 0 <= j < ns.len() ==> (#[trigger] archive_stamp(ns[j], base)) is Some
}

/// The listing after one rotation that archives the active file as `new`:
/// the archive joins the listing, then the retention rule removes at most one
/// name.
pub open spec fn rotate_listing(ns: Seq<Seq<char>>, new: Seq<char>, base: Seq<char>, keep: int) -> Seq<
    Seq<char>,
> {
    let grown = ns.push(new);
    match prune_choice(grown, base, keep) {
        Some(i) => grown.remove(i),
        None => grown,
    }
}

/// The listing after rotations that create the archives `news` in turn,
/// from a directory without names of `base`.
pub open spec fn listing_after(news: Seq<Seq<char>>, base: Seq<char>, keep: int) -> Seq<Seq<char>>
    decreases news.len(),
{
    if news.len() == 0 {
        Seq::empty()
    } else {
        rotate_listing(listing_after(news.drop_last(), base, keep), news.last(), base, keep)
    }
}

proof fn lemma_before_order(a: Stamp, b: Stamp, c: Stamp)
    ensures
        !a.before(a),
        a.before(b) && b.before(c) ==> a.before(c),
        a != b ==> a.before(b) || b.before(a),
{
}

proof fn lemma_oldest_facts(ns: Seq<Seq<char>>, base: Seq<char>)
    ensures
        oldest_archive(ns, base) matches Some(i) ==> 0 <= i < ns.len() && archive_stamp(
            ns[i],
            base,
        ) is Some && forall|j: int|
            0 <= j < ns.len() && (#[trigger] archive_stamp(ns[j], base)) is Some ==> !archive_stamp(
                ns[j],
                base,
            ).unwrap().before(archive_stamp(ns[i], base).unwrap()),
        (exists|j: int| 0 <= j < ns.len() && (#[trigger] archive_stamp(ns[j], base)) is Some)
            ==> oldest_archive(ns, base) is Some,
    decreases ns.len(),
{
    if ns.len() > 0 {
        let pre = ns.drop_last();
        lemma_oldest_facts(pre, base);
        let last = ns.len() - 1;
        assert forall|j: int| 0 <= j < pre.len() implies pre[j] == ns[j] by {}
        if let Some(i) = oldest_archive(ns, base) {
            assert forall|j: int|
                0 <= j < ns.len() && (#[trigger] archive_stamp(ns[j], base)) is Some implies !archive_stamp(
                ns[j],
                base,
            ).unwrap().before(archive_stamp(ns[i], base).unwrap()) by {
                let sj = archive_stamp(ns[j], base).unwrap();
                let si = archive_stamp(ns[i], base).unwrap();
                lemma_before_order(sj, si, sj);
                if j < last {
                    assert(archive_stamp(pre[j], base) is Some);
                    if let Some(p) = oldest_archive(pre, base) {
                        let sp = archive_stamp(pre[p], base).unwrap();
                        lemma_before_order(sj, si, sp);
                        lemma_before_order(sj, sp, si);
                    }
                } else if let Some(p) = oldest_archive(pre, base) {
                    let sp = archive_stamp(pre[p], base).unwrap();
                    lemma_before_order(sj, sp, si);
                    lemma_before_order(si, sj, sp);
                }
            }
        }
        if exists|j: int| 0 <= j < ns.len() && (#[trigger] archive_stamp(ns[j], base)) is Some {
            let j = choose|j: int| 0 <= j < ns.len() && (#[trigger] archive_stamp(ns[j], base)) is Some;
            if j < last {
                assert(archive_stamp(pre[j], base) is Some);
            }
        }
    }
}

/// Pruning removes the oldest readable archive of the listing and never a
/// newer one, whatever the order in which the listing names the files.
pub proof fn lemma_prune_removes_oldest(ns: Seq<Seq<char>>, base: Seq<char>, keep: int)
    ensures
        prune_choice(ns, base, keep) matches Some(i) ==> 0 <= i < ns.len() && archive_stamp(
            ns[i],
            base,
        ) is Some && forall|j: int|
            0 <= j < ns.len() && (#[trigger] archive_stamp(ns[j], base)) is Some ==> !archive_stamp(
                ns[j],
                base,
            ).unwrap().before(archive_stamp(ns[i], base).unwrap()),
{
    lemma_oldest_facts(ns, base);
}

/// A name whose instant cannot be read is never removed; and while more than
/// `keep` names belong to `base`, a readable archive among them is always
/// removed.
pub proof fn lemma_unreadable_never_pruned(ns: Seq<Seq<char>>, base: Seq<char>, keep: int)
    ensures
        prune_choice(ns, base, keep) matches Some(i) ==> archive_stamp(ns[i], base) is Some,
        count_candidates(ns, base) > keep && (exists|j: int|
            0 <= j < ns.len() && (#[trigger] archive_stamp(ns[j], base)) is Some) ==> prune_choice(
            ns,
            base,
            keep,
        ) is Some,
{
    lemma_oldest_facts(ns, base);
}

proof fn lemma_count_all_archives(ns: Seq<Seq<char>>, base: Seq<char>)
    requires
        all_archives(ns, base),
    ensures
        count_candidates(ns, base) == ns.len(),
    decreases ns.len(),
{
    if ns.len() > 0 {
        let pre = ns.drop_last();
        assert(archive_stamp(ns[ns.len() - 1], base) is Some);
        lemma_archive_contains_base(ns.last(), base);
        assert forall|j: int| 0 <= j < pre.len() implies (#[trigger] archive_stamp(pre[j], base)) is Some by {
            assert(pre[j] == ns[j]);
            assert(archive_stamp(ns[j], base) is Some);
        }
        lemma_count_all_archives(pre, base);
    }
}

/// One rotation over a listing of `min(n, keep)` archives leaves
/// `min(n + 1, keep)` archives. The new archive's instant must read back from
/// its name, as `archive_stamp_of` shows for every name that `archive_name`
/// gives.
pub proof fn lemma_rotation_keeps_count(
    ns: Seq<Seq<char>>,
    new: Seq<char>,
    base: Seq<char>,
    keep: int,
    n: int,
)
    requires
        archive_stamp(new, base) is Some,
        keep >= 0,
        n >= 0,
        all_archives(ns, base),
        ns.len() == if n < keep { n } else { keep },
    ensures
        all_archives(rotate_listing(ns, new, base, keep), base),
        rotate_listing(ns, new, base, keep).len() == if n + 1 < keep { n + 1 } else { keep },
{
    let grown = ns.push(new);
    assert forall|j: int| 0 <= j < grown.len() implies (#[trigger] archive_stamp(grown[j], base)) is Some by {
        if j < ns.len() {
            assert(grown[j] == ns[j]);
            assert(archive_stamp(ns[j], base) is Some);
        }
    }
    lemma_count_all_archives(grown, base);
    lemma_oldest_facts(grown, base);
    assert(archive_stamp(grown[grown.len() - 1], base) is Some);
    if let Some(i) = prune_choice(grown, base, keep) {
        let r = grown.remove(i);
        assert forall|j: int| 0 <= j < r.len() implies (#[trigger] archive_stamp(r[j], base)) is Some by {
            if j < i {
                assert(r[j] == grown[j]);
            } else {
                assert(r[j] == grown[j + 1]);
            }
            assert(archive_stamp(grown[j], base) is Some);
            assert(archive_stamp(grown[j + 1], base) is Some);
        }
    }
}

/// After `news.len()` rotations from a directory without names of `base`,
/// with retention `keep`, exactly `min(news.len(), keep)` archives remain.
pub proof fn lemma_archives_after_rotations(news: Seq<Seq<char>>, base: Seq<char>, keep: int)
    requires
        keep >= 0,
        all_archives(news, base),
    ensures
        all_archives(listing_after(news, base, keep), base),
        listing_after(news, base, keep).len() == if news.len() < keep {
            news.len() as int
        } else {
            keep
        },
    decreases news.len(),
{
    if news.len() > 0 {
        let pre = news.drop_last();
        assert forall|j: int| 0 <= j < pre.len() implies (#[trigger] archive_stamp(pre[j], base)) is Some by {
            assert(pre[j] == news[j]);
            assert(archive_stamp(news[j], base) is Some);
        }
        lemma_archives_after_rotations(pre, base, keep);
        assert(archive_stamp(news[news.len() - 1], base) is Some);
        lemma_rotation_keeps_count(
            listing_after(pre, base, keep),
            news.last(),
            base,
            keep,
            pre.len() as int,
        );
    }
}

proof fn lemma_count_remove(ns: Seq<Seq<char>>, base: Seq<char>, k: int)
    requires
        0 <= k < ns.len(),
    ensures
        count_candidates(ns, base) == count_candidates(ns.remove(k), base) + if contains(
            ns[k],
            base,
        ) {
            1nat
        } else {
            0nat
        },
    decreases ns.len(),
{
    if k == ns.len() - 1 {
        assert(ns.remove(k) =~= ns.drop_last());
    } else {
        lemma_count_remove(ns.drop_last(), base, k);
        assert(ns.remove(k).drop_last() =~= ns.drop_last().remove(k));
        assert(ns.remove(k).last() == ns.last());
        assert(ns.drop_last()[k] == ns[k]);
    }
}

proof fn lemma_count_same_names(ns1: Seq<Seq<char>>, ns2: Seq<Seq<char>>, base: Seq<char>)
    requires
        ns1.to_multiset() == ns2.to_multiset(),
    ensures
        count_candidates(ns1, base) == count_candidates(ns2, base),
    decreases ns1.len(),
{
    broadcast use vstd::seq_lib::to_multiset_len, vstd::seq_lib::to_multiset_contains, vstd::multiset::group_multiset_axioms;

    if ns1.len() == 0 {
        vstd::seq_lib::to_multiset_len(ns1);
        vstd::seq_lib::to_multiset_len(ns2);
        assert(ns2.len() == 0);
    } else {
        let x = ns1.last();
        let pre = ns1.drop_last();
        assert(ns1 =~= pre.push(x));
        vstd::seq_lib::to_multiset_build(pre, x);
        assert(ns1.contains(x)) by {
            assert(ns1[ns1.len() - 1] == x);
        }
        assert(ns1.to_multiset().count(x) > 0);
        assert(ns2.to_multiset().count(x) > 0);
        assert(ns2.contains(x));
        let k = choose|k: int| 0 <= k < ns2.len() && ns2[k] == x;
        vstd::seq_lib::to_multiset_remove(ns2, k);
        assert(pre.to_multiset() =~= ns2.remove(k).to_multiset());
        lemma_count_same_names(pre, ns2.remove(k), base);
        lemma_count_remove(ns2, base, k);
    }
}

/// Pruning does not depend on the order in which the directory listing
/// names the files: two listings that hold the same names, where no two
/// readable archives of `base` share an instant, remove the same name.
pub proof fn lemma_prune_independent_of_order(
    ns1: Seq<Seq<char>>,
    ns2: Seq<Seq<char>>,
    base: Seq<char>,
    keep: int,
)
    requires
        ns1.to_multiset() == ns2.to_multiset(),
        forall|a: int, b: int|
            0 <= a < ns1.len() && 0 <= b < ns1.len() && archive_stamp(ns1[a], base) is Some
                && #[trigger] archive_stamp(ns1[a], base) == #[trigger] archive_stamp(ns1[b], base)
                ==> ns1[a] == ns1[b],
    ensures
        prune_choice(ns1, base, keep) is Some <==> prune_choice(ns2, base, keep) is Some,
        prune_choice(ns1, base, keep) matches Some(i) ==> (prune_choice(ns2, base, keep) matches Some(
            j,
        ) && ns1[i] == ns2[j]),
{
    broadcast use vstd::seq_lib::to_multiset_contains;

    lemma_count_same_names(ns1, ns2, base);
    lemma_oldest_facts(ns1, base);
    lemma_oldest_facts(ns2, base);
    // the same names hold a readable archive in both listings, or in neither
    if exists|j: int| 0 <= j < ns1.len() && (#[trigger] archive_stamp(ns1[j], base)) is Some {
        let j = choose|j: int| 0 <= j < ns1.len() && (#[trigger] archive_stamp(ns1[j], base)) is Some;
        assert(ns1.contains(ns1[j]));
        assert(ns1.to_multiset().count(ns1[j]) > 0);
        assert(ns2.to_multiset().count(ns1[j]) > 0);
        assert(ns2.contains(ns1[j]));
        let k = choose|k: int| 0 <= k < ns2.len() && ns2[k] == ns1[j];
        assert(archive_stamp(ns2[k], base) is Some);
    }
    if exists|j: int| 0 <= j < ns2.len() && (#[trigger] archive_stamp(ns2[j], base)) is Some {
        let j = choose|j: int| 0 <= j < ns2.len() && (#[trigger] archive_stamp(ns2[j], base)) is Some;
        assert(ns2.contains(ns2[j]));
        assert(ns2.to_multiset().count(ns2[j]) > 0);
        assert(ns1.to_multiset().count(ns2[j]) > 0);
        assert(ns1.contains(ns2[j]));
        let k = choose|k: int| 0 <= k < ns1.len() && ns1[k] == ns2[j];
        assert(archive_stamp(ns1[k], base) is Some);
    }
    if let (Some(i), Some(j)) = (oldest_archive(ns1, base), oldest_archive(ns2, base)) {
        assert(ns1.contains(ns1[i]));
        assert(ns1.to_multiset().count(ns1[i]) > 0);
        assert(ns2.to_multiset().count(ns1[i]) > 0);
        assert(ns2.contains(ns1[i]));
        let a = choose|a: int| 0 <= a < ns2.len() && ns2[a] == ns1[i];
        assert(archive_stamp(ns2[a], base) is Some);
        assert(ns2.contains(ns2[j]));
        assert(ns2.to_multiset().count(ns2[j]) > 0);
        assert(ns1.to_multiset().count(ns2[j]) > 0);
        assert(ns1.contains(ns2[j]));
        let b = choose|b: int| 0 <= b < ns1.len() && ns1[b] == ns2[j];
        assert(archive_stamp(ns1[b], base) is Some);
        let si = archive_stamp(ns1[i], base).unwrap();
        let sj = archive_stamp(ns2[j], base).unwrap();
        lemma_before_order(si, sj, si);
        assert(si == sj);
        assert(archive_stamp(ns1[i], base) == archive_stamp(ns1[b], base));
    }
}

} // verus!
