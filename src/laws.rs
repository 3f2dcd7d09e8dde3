//! Properties of whole runs, stated over the index, decisions and paths.

use vstd::prelude::*;
use crate::engine::{decision, selected, CopyDecision};
use crate::filter::{base_name, NameFilter};
use crate::fingerprint::fingerprint_of;
use crate::index::claim_step;
use crate::fingerprint::{decimal, digit_char};
use crate::paths::{below, destination, is_under, join, last_index_of, lemma_last_index_range, prefixed};
use crate::stats::{RunStats, ScanEvent};
use crate::text::ascii_lower;

verus! {

/// `states[0]`, `states[1]`, ... are the index contents around a series of
/// check-and-insert steps on `keys`, each with the path and outcome given.
/// Any interleaving of workers is such a series, since each step is atomic.
pub open spec fn claim_run(
    states: Seq<Map<u128, Seq<char>>>,
    keys: Seq<u128>,
    paths: Seq<Seq<char>>,
    wins: Seq<bool>,
) -> bool {
    &&& states.len() == keys.len() + 1
    &&& paths.len() == keys.len()
    &&& wins.len() == keys.len()
    &&& forall|i: int|
        0 <= i < keys.len() ==> #[trigger] claim_step(
            states[i],
            keys[i],
            paths[i],
            wins[i],
            states[i + 1],
        )
}

proof fn lemma_run_domain(
    states: Seq<Map<u128, Seq<char>>>,
    keys: Seq<u128>,
    paths: Seq<Seq<char>>,
    wins: Seq<bool>,
    n: int,
)
    requires
        claim_run(states, keys, paths, wins),
        0 <= n <= keys.len(),
    ensures
        forall|k: u128|
            #[trigger] states[n].contains_key(k) <==> (states[0].contains_key(k) || exists|j: int|
                0 <= j < n && keys[j] == k),
    decreases n,
{
    if n > 0 {
        lemma_run_domain(states, keys, paths, wins, n - 1);
        let m = n - 1;
        assert(claim_step(states[m], keys[m], paths[m], wins[m], states[m + 1]));
        assert(m + 1 == n);
        assert forall|k: u128|
            #[trigger] states[n].contains_key(k) <==> (states[0].contains_key(k) || exists|j: int|
                0 <= j < n && keys[j] == k) by {
            if states[n].contains_key(k) && !states[0].contains_key(k) {
                if !states[n - 1].contains_key(k) {
                    assert(keys[n - 1] == k);
                }
            }
            if exists|j: int| 0 <= j < n && keys[j] == k {
                let j = choose|j: int| 0 <= j < n && keys[j] == k;
                if j == n - 1 {
                    assert(states[n].contains_key(k));
                } else {
                    assert(states[n - 1].contains_key(k));
                }
            }
        }
    }
}

proof fn lemma_step_wins_iff(
    states: Seq<Map<u128, Seq<char>>>,
    keys: Seq<u128>,
    paths: Seq<Seq<char>>,
    wins: Seq<bool>,
    i: int,
)
    requires
        claim_run(states, keys, paths, wins),
        0 <= i < keys.len(),
    ensures
        wins[i] <==> (!states[0].contains_key(keys[i]) && forall|j: int|
            0 <= j < i ==> keys[j] != keys[i]),
{
    lemma_run_domain(states, keys, paths, wins, i);
    assert(claim_step(states[i], keys[i], paths[i], wins[i], states[i + 1]));
    assert(states[i].contains_key(keys[i]) <==> (states[0].contains_key(keys[i]) || exists|j: int|
        0 <= j < i && keys[j] == keys[i]));
}

proof fn lemma_some_winner(
    states: Seq<Map<u128, Seq<char>>>,
    keys: Seq<u128>,
    paths: Seq<Seq<char>>,
    wins: Seq<bool>,
    i: int,
)
    requires
        claim_run(states, keys, paths, wins),
        0 <= i < keys.len(),
        !states[0].contains_key(keys[i]),
    ensures
        exists|j: int| 0 <= j <= i && keys[j] == keys[i] && wins[j],
    decreases i,
{
    lemma_step_wins_iff(states, keys, paths, wins, i);
    if !wins[i] {
        let j = choose|j: int| 0 <= j < i && keys[j] == keys[i];
        lemma_some_winner(states, keys, paths, wins, j);
    }
}

/// In any series of check-and-insert steps, a fingerprint wins exactly at its
/// first occurrence when the index did not hold it before, and never otherwise:
/// no two steps on one fingerprint both win, and every fresh fingerprint has a
/// winner. Workers running in parallel produce such a series in some order, so
/// the outcome is the one a single worker has on that order.
pub proof fn lemma_one_winner_per_fingerprint(
    states: Seq<Map<u128, Seq<char>>>,
    keys: Seq<u128>,
    paths: Seq<Seq<char>>,
    wins: Seq<bool>,
)
    requires
        claim_run(states, keys, paths, wins),
    ensures
        forall|i: int|
            0 <= i < keys.len() ==> (#[trigger] wins[i] <==> (!states[0].contains_key(keys[i])
                && forall|j: int| 0 <= j < i ==> keys[j] != keys[i])),
        forall|i: int, j: int|
            0 <= i < keys.len() && 0 <= j < keys.len() && i != j && keys[i] == keys[j] ==> !(
            #[trigger] wins[i] && #[trigger] wins[j]),
        forall|i: int|
            0 <= i < keys.len() && !states[0].contains_key(#[trigger] keys[i]) ==> exists|j: int|
                0 <= j < keys.len() && keys[j] == keys[i] && wins[j],
{
    assert forall|i: int|
        0 <= i < keys.len() implies (#[trigger] wins[i] <==> (!states[0].contains_key(keys[i])
            && forall|j: int| 0 <= j < i ==> keys[j] != keys[i])) by {
        lemma_step_wins_iff(states, keys, paths, wins, i);
    }
    assert forall|i: int, j: int|
        0 <= i < keys.len() && 0 <= j < keys.len() && i != j && keys[i] == keys[j] implies !(
        #[trigger] wins[i] && #[trigger] wins[j]) by {
        lemma_step_wins_iff(states, keys, paths, wins, i);
        lemma_step_wins_iff(states, keys, paths, wins, j);
    }
    assert forall|i: int|
        0 <= i < keys.len() && !states[0].contains_key(#[trigger] keys[i]) implies exists|j: int|
            0 <= j < keys.len() && keys[j] == keys[i] && wins[j] by {
        lemma_some_winner(states, keys, paths, wins, i);
    }
}

/// Files with identical content have one fingerprint, so among any number of
/// them at most one is new content (and so is copied); when the index did not
/// know the fingerprint, one file with it is.
pub proof fn lemma_identical_content_copied_once(
    states: Seq<Map<u128, Seq<char>>>,
    contents: Seq<Seq<u8>>,
    keys: Seq<u128>,
    paths: Seq<Seq<char>>,
    wins: Seq<bool>,
)
    requires
        claim_run(states, keys, paths, wins),
        contents.len() == keys.len(),
        forall|i: int| 0 <= i < keys.len() ==> keys[i] as nat == fingerprint_of(#[trigger] contents[i]),
    ensures
        forall|i: int, j: int|
            0 <= i < keys.len() && 0 <= j < keys.len() && i != j && contents[i] == contents[j]
                ==> !(#[trigger] wins[i] && #[trigger] wins[j]),
        forall|i: int|
            0 <= i < keys.len() && !states[0].contains_key(#[trigger] keys[i]) ==> exists|j: int|
                0 <= j < keys.len() && fingerprint_of(contents[j]) == fingerprint_of(contents[i])
                    && wins[j],
{
    lemma_one_winner_per_fingerprint(states, keys, paths, wins);
    assert forall|i: int, j: int|
        0 <= i < keys.len() && 0 <= j < keys.len() && i != j && contents[i] == contents[j]
            implies !(#[trigger] wins[i] && #[trigger] wins[j]) by {
        assert(keys[i] as nat == fingerprint_of(contents[i]));
        assert(keys[j] as nat == fingerprint_of(contents[j]));
    }
    assert forall|i: int|
        0 <= i < keys.len() && !states[0].contains_key(#[trigger] keys[i]) implies exists|j: int|
            0 <= j < keys.len() && fingerprint_of(contents[j]) == fingerprint_of(contents[i])
                && wins[j] by {
        let j = choose|j: int| 0 <= j < keys.len() && keys[j] == keys[i] && wins[j];
        assert(keys[j] as nat == fingerprint_of(contents[j]));
        assert(keys[i] as nat == fingerprint_of(contents[i]));
    }
}

/// Running again over the same files against the index a run left behind:
/// every fingerprint is found present, so every file is a duplicate and
/// nothing is written.
pub proof fn lemma_rerun_all_duplicates(
    first: Seq<Map<u128, Seq<char>>>,
    keys: Seq<u128>,
    first_paths: Seq<Seq<char>>,
    first_wins: Seq<bool>,
    second: Seq<Map<u128, Seq<char>>>,
    second_paths: Seq<Seq<char>>,
    second_wins: Seq<bool>,
)
    requires
        claim_run(first, keys, first_paths, first_wins),
        claim_run(second, keys, second_paths, second_wins),
        second[0] == first.last(),
    ensures
        forall|i: int| 0 <= i < keys.len() ==> !#[trigger] second_wins[i],
        forall|i: int, exists_: bool, dry: bool, ow: bool, kc: bool|
            0 <= i < keys.len() ==> #[trigger] decision(second_wins[i], exists_, dry, ow, kc)
                == CopyDecision::SkipDuplicate,
{
    lemma_run_domain(first, keys, first_paths, first_wins, keys.len() as int);
    assert forall|i: int| 0 <= i < keys.len() implies !#[trigger] second_wins[i] by {
        assert(first[keys.len() as int].contains_key(keys[i]));
        lemma_step_wins_iff(second, keys, second_paths, second_wins, i);
    }
}

/// A dry run decides the same counts as a real run on the same inputs, and
/// never decides a change on disk.
pub proof fn lemma_dry_run_fidelity(
    stats: RunStats,
    is_new: bool,
    dest_exists: bool,
    overwrite: bool,
    keep_copy: bool,
    len: u64,
)
    ensures
        !decision(is_new, dest_exists, true, overwrite, keep_copy).mutates(),
        decision(is_new, dest_exists, true, overwrite, keep_copy).counts_as_new() == decision(
            is_new,
            dest_exists,
            false,
            overwrite,
            keep_copy,
        ).counts_as_new(),
        decision(is_new, dest_exists, true, overwrite, keep_copy).counts_as_duplicate() == decision(
            is_new,
            dest_exists,
            false,
            overwrite,
            keep_copy,
        ).counts_as_duplicate(),
        stats.after(
            ScanEvent::FileProcessed(decision(is_new, dest_exists, true, overwrite, keep_copy), len),
        ) == stats.after(
            ScanEvent::FileProcessed(decision(is_new, dest_exists, false, overwrite, keep_copy), len),
        ),
{
}

/// New content whose destination is already occupied: with no policy the
/// file is skipped and the destination left alone; overwrite replaces it;
/// keep-copy moves it aside first.
pub proof fn lemma_conflict_policy(overwrite: bool)
    ensures
        decision(true, true, false, false, false) == CopyDecision::SkipExisting,
        !decision(true, true, false, false, false).mutates(),
        decision(true, true, false, true, false) == CopyDecision::Copy,
        decision(true, true, false, overwrite, true) == CopyDecision::BackupThenCopy,
{
}

/// Selection looks at the base name only, and ignores ASCII case there.
pub proof fn lemma_selection_by_base_name(f: &NameFilter, a: Seq<char>, b: Seq<char>)
    requires
        ascii_lower(base_name(a)) == ascii_lower(base_name(b)),
    ensures
        selected(Some(f), a) == selected(Some(f), b),
{
}

/// Distinct files below the source root get distinct destinations, each
/// mirroring its position below the source root.
pub proof fn lemma_distinct_destinations(
    dst_root: Seq<char>,
    src_root: Seq<char>,
    a: Seq<char>,
    b: Seq<char>,
)
    requires
        is_under(src_root, a),
        is_under(src_root, b),
        a != b,
    ensures
        destination(dst_root, src_root, a, None) == join(dst_root, below(src_root, a)),
        destination(dst_root, src_root, a, None) != destination(dst_root, src_root, b, None),
{
    let c: int = if src_root.last() == '/' {
        src_root.len() as int
    } else {
        src_root.len() as int + 1
    };
    assert(a.take(c) == b.take(c)) by {
        if src_root.last() != '/' {
            assert(a.take(c) == src_root.push('/'));
            assert(b.take(c) == src_root.push('/'));
        }
    }
    assert(a == a.take(c) + a.skip(c));
    assert(b == b.take(c) + b.skip(c));
    let base = if dst_root.len() > 0 && dst_root.last() == '/' {
        dst_root
    } else {
        dst_root.push('/')
    };
    if join(dst_root, a.skip(c)) == join(dst_root, b.skip(c)) {
        assert(a.skip(c) == (base + a.skip(c)).skip(base.len() as int));
        assert(b.skip(c) == (base + b.skip(c)).skip(base.len() as int));
    }
}

proof fn lemma_decimal_digits(n: nat)
    ensures
        forall|i: int| 0 <= i < decimal(n).len() ==> '0' <= #[trigger] decimal(n)[i] <= '9',
    decreases n,
{
    assert(digit_char(n % 10) as u32 == 48 + n % 10);
    if n >= 10 {
        lemma_decimal_digits(n / 10);
        let d = decimal(n / 10);
        assert forall|i: int| 0 <= i < decimal(n).len() implies '0' <= #[trigger] decimal(n)[i]
            <= '9' by {
            if i < d.len() {
                assert(decimal(n)[i] == d[i]);
            }
        }
    }
}

proof fn lemma_last_index_facts(s: Seq<char>, c: char)
    ensures
        last_index_of(s, c) >= 0 ==> s[last_index_of(s, c)] == c,
        forall|j: int| last_index_of(s, c) < j < s.len() ==> #[trigger] s[j] != c,
    decreases s.len(),
{
    lemma_last_index_range(s, c);
    if s.len() > 0 && s.last() != c {
        lemma_last_index_facts(s.drop_last(), c);
        lemma_last_index_range(s.drop_last(), c);
        let k = last_index_of(s, c);
        if k >= 0 {
            assert(s.drop_last()[k] == s[k]);
        }
        assert forall|j: int| last_index_of(s, c) < j < s.len() implies #[trigger] s[j] != c by {
            if j < s.len() - 1 {
                assert(s.drop_last()[j] == s[j]);
            }
        }
    }
}

proof fn lemma_last_index_append_free(s: Seq<char>, t: Seq<char>, c: char)
    requires
        forall|j: int| 0 <= j < t.len() ==> #[trigger] t[j] != c,
    ensures
        last_index_of(s + t, c) == last_index_of(s, c),
    decreases t.len(),
{
    if t.len() > 0 {
        assert((s + t).drop_last() == s + t.drop_last());
        assert((s + t).last() == t.last());
        lemma_last_index_append_free(s, t.drop_last(), c);
    } else {
        assert(s + t == s);
    }
}

/// The parts of a prefixed relative path, in order.
proof fn lemma_prefixed_parts(r: Seq<char>, h: nat)
    ensures
        last_index_of(prefixed(r, h), '/') == last_index_of(r, '/'),
        prefixed(r, h).take(last_index_of(r, '/') + 1) == r.take(last_index_of(r, '/') + 1),
        prefixed(r, h).skip(last_index_of(r, '/') + 1) == decimal(h).push('-') + r.skip(
            last_index_of(r, '/') + 1,
        ),
{
    let k = last_index_of(r, '/');
    lemma_last_index_range(r, '/');
    lemma_last_index_facts(r, '/');
    lemma_decimal_digits(h);
    let a = r.take(k + 1);
    let t = decimal(h).push('-') + r.skip(k + 1);
    assert(prefixed(r, h) == a + t);
    assert forall|j: int| 0 <= j < t.len() implies #[trigger] t[j] != '/' by {
        if j < decimal(h).len() {
            assert(t[j] == decimal(h)[j]);
        } else if j > decimal(h).len() {
            assert(t[j] == r[k + 1 + j - decimal(h).len() - 1]);
        }
    }
    lemma_last_index_append_free(a, t, '/');
    if k >= 0 {
        assert(a.last() == '/');
    } else {
        assert(a.len() == 0);
    }
    assert((a + t).take(k + 1) == a);
    assert((a + t).skip(k + 1) == t);
}

proof fn lemma_prefixed_injective(r1: Seq<char>, h1: nat, r2: Seq<char>, h2: nat)
    requires
        prefixed(r1, h1) == prefixed(r2, h2),
    ensures
        r1 == r2,
{
    lemma_prefixed_parts(r1, h1);
    lemma_prefixed_parts(r2, h2);
    lemma_last_index_range(r1, '/');
    lemma_last_index_range(r2, '/');
    lemma_decimal_digits(h1);
    lemma_decimal_digits(h2);
    let k = last_index_of(r1, '/');
    assert(k == last_index_of(r2, '/'));
    let d1 = decimal(h1);
    let d2 = decimal(h2);
    let t1 = d1.push('-') + r1.skip(k + 1);
    let t2 = d2.push('-') + r2.skip(k + 1);
    assert(t1 == t2);
    if d1.len() < d2.len() {
        assert(t1[d1.len() as int] == '-');
        assert(t2[d1.len() as int] == d2[d1.len() as int]);
    } else if d2.len() < d1.len() {
        assert(t2[d2.len() as int] == '-');
        assert(t1[d2.len() as int] == d1[d2.len() as int]);
    }
    assert(d1.len() == d2.len());
    assert(r1.skip(k + 1) == t1.skip(d1.len() as int + 1));
    assert(r2.skip(k + 1) == t2.skip(d2.len() as int + 1));
    assert(r1 == r1.take(k + 1) + r1.skip(k + 1));
    assert(r2 == r2.take(k + 1) + r2.skip(k + 1));
}

/// Distinct files below the source root get distinct destinations when each
/// base name carries its file's fingerprint, whatever the fingerprints are.
pub proof fn lemma_distinct_prefixed_destinations(
    dst_root: Seq<char>,
    src_root: Seq<char>,
    a: Seq<char>,
    ha: u128,
    b: Seq<char>,
    hb: u128,
)
    requires
        is_under(src_root, a),
        is_under(src_root, b),
        a != b,
    ensures
        destination(dst_root, src_root, a, Some(ha)) != destination(dst_root, src_root, b, Some(hb)),
{
    let c: int = if src_root.last() == '/' {
        src_root.len() as int
    } else {
        src_root.len() as int + 1
    };
    assert(a.take(c) == b.take(c)) by {
        if src_root.last() != '/' {
            assert(a.take(c) == src_root.push('/'));
            assert(b.take(c) == src_root.push('/'));
        }
    }
    assert(a == a.take(c) + a.skip(c));
    assert(b == b.take(c) + b.skip(c));
    let base = if dst_root.len() > 0 && dst_root.last() == '/' {
        dst_root
    } else {
        dst_root.push('/')
    };
    let pa = prefixed(a.skip(c), ha as nat);
    let pb = prefixed(b.skip(c), hb as nat);
    if join(dst_root, pa) == join(dst_root, pb) {
        assert(pa == (base + pa).skip(base.len() as int));
        assert(pb == (base + pb).skip(base.len() as int));
        lemma_prefixed_injective(a.skip(c), ha as nat, b.skip(c), hb as nat);
    }
}

} // verus!
