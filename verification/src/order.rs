//! The order of a changelog's releases: newest first by date, with the
//! section of what is not released yet on top.

use vstd::prelude::*;
use crate::date::{date_lt, Date};
use crate::release::{release_views, Release, ReleaseView};

verus! {

/// Whether the date `a` is not later than `b`; a missing date is earlier
/// than every date.
pub open spec fn date_le(a: Option<Date>, b: Option<Date>) -> bool {
    match (a, b) {
        (None, _) => true,
        (Some(_), None) => false,
        (Some(x), Some(y)) => !date_lt(y, x),
    }
}

/// Whether the releases stand newest first.
pub open spec fn descending(s: Seq<ReleaseView>) -> bool {
    forall|i: int, j: int| 0 <= i < j < s.len() ==> date_le(s[j].date, s[i].date)
}

/// The releases `acc`, newest first, with `x` put behind every release
/// that is not older than it.
pub open spec fn insert_by_date(acc: Seq<ReleaseView>, x: ReleaseView) -> Seq<ReleaseView>
    decreases acc.len(),
{
    if acc.len() == 0 {
        seq![x]
    } else if date_le(x.date, acc.last().date) {
        acc.push(x)
    } else {
        insert_by_date(acc.drop_last(), x).push(acc.last())
    }
}

/// The releases newest first; releases of one date keep their order.
pub open spec fn sort_by_date(s: Seq<ReleaseView>) -> Seq<ReleaseView>
    decreases s.len(),
{
    if s.len() == 0 {
        s
    } else {
        insert_by_date(sort_by_date(s.drop_last()), s.last())
    }
}

/// Index of the first release at or after `k` with neither version nor
/// date, or -1.
pub open spec fn first_unreleased(s: Seq<ReleaseView>, k: int) -> int
    decreases s.len() - k,
{
    if k < 0 || k >= s.len() {
        -1
    } else if s[k].is_unreleased() {
        k
    } else {
        first_unreleased(s, k + 1)
    }
}

/// Index of the first release at or after `k` without a date, or -1.
pub open spec fn first_dateless(s: Seq<ReleaseView>, k: int) -> int
    decreases s.len() - k,
{
    if k < 0 || k >= s.len() {
        -1
    } else if s[k].date is None {
        k
    } else {
        first_dateless(s, k + 1)
    }
}

/// Index of the release that stands on top of a changelog, or -1: the
/// first release with neither version nor date if there is one, else the
/// first release without a date.
pub open spec fn pinned(s: Seq<ReleaseView>) -> int {
    if first_unreleased(s, 0) >= 0 {
        first_unreleased(s, 0)
    } else {
        first_dateless(s, 0)
    }
}

/// The releases in the order of a changelog: one release without a date
/// on top, the others newest first below it. The release on top is the
/// first one with neither version nor date, or, where every release
/// without a date has a version, the first of those. The version is no
/// key of the order.
pub open spec fn sorted_releases(s: Seq<ReleaseView>) -> Seq<ReleaseView> {
    let p = pinned(s);
    if p < 0 {
        sort_by_date(s)
    } else {
        seq![s[p]] + sort_by_date(s.remove(p))
    }
}

/// Whether the releases stand in the order of a changelog: newest first,
/// but for one release without a date that may stand on top.
pub open spec fn well_ordered(s: Seq<ReleaseView>) -> bool {
    descending(s) || (s.len() > 0 && s[0].date is None && descending(s.drop_first()))
}

/// Putting a release into releases that stand newest first leaves them
/// newest first, one more, with the same releases and the new one.
pub proof fn lemma_insert_by_date(acc: Seq<ReleaseView>, x: ReleaseView)
    requires
        descending(acc),
    ensures
        descending(insert_by_date(acc, x)),
        insert_by_date(acc, x).len() == acc.len() + 1,
        insert_by_date(acc, x).to_multiset() == acc.to_multiset().insert(x),
        forall|k: int|
            0 <= k < insert_by_date(acc, x).len() ==> (#[trigger] insert_by_date(acc, x)[k] == x
                || acc.contains(insert_by_date(acc, x)[k])),
    decreases acc.len(),
{
    broadcast use vstd::seq_lib::group_to_multiset_ensures;

    let r = insert_by_date(acc, x);
    if acc.len() == 0 {
        assert(acc =~= Seq::<ReleaseView>::empty());
        assert(r =~= Seq::<ReleaseView>::empty().push(x));
    } else if date_le(x.date, acc.last().date) {
        assert forall|k: int| 0 <= k < r.len() implies (#[trigger] r[k] == x || acc.contains(
            r[k],
        )) by {
            if k < acc.len() {
                assert(acc[k] == r[k]);
            }
        }
        assert forall|i: int, j: int| 0 <= i < j < r.len() implies date_le(
            r[j].date,
            r[i].date,
        ) by {
            if j < acc.len() {
                assert(date_le(acc[j].date, acc[i].date));
            } else if i < acc.len() - 1 {
                assert(date_le(acc[acc.len() - 1].date, acc[i].date));
            }
        }
    } else {
        let front = acc.drop_last();
        let inner = insert_by_date(front, x);
        lemma_insert_by_date(front, x);
        assert(acc =~= front.push(acc.last()));
        assert forall|k: int| 0 <= k < r.len() implies (#[trigger] r[k] == x || acc.contains(
            r[k],
        )) by {
            if k < inner.len() {
                if inner[k] != x {
                    assert(front.contains(inner[k]));
                    let m = choose|m: int| 0 <= m < front.len() && front[m] == inner[k];
                    assert(acc[m] == r[k]);
                }
            } else {
                assert(acc[acc.len() - 1] == r[k]);
            }
        }
        assert forall|i: int, j: int| 0 <= i < j < r.len() implies date_le(
            r[j].date,
            r[i].date,
        ) by {
            if j < inner.len() {
                assert(date_le(inner[j].date, inner[i].date));
            } else {
                if inner[i] != x {
                    assert(front.contains(inner[i]));
                    let m = choose|m: int| 0 <= m < front.len() && front[m] == inner[i];
                    assert(date_le(acc[acc.len() - 1].date, acc[m].date));
                }
            }
        }
    }
}

/// Sorting leaves the releases newest first, and the same releases.
pub proof fn lemma_sort_by_date(s: Seq<ReleaseView>)
    ensures
        descending(sort_by_date(s)),
        sort_by_date(s).len() == s.len(),
        sort_by_date(s).to_multiset() == s.to_multiset(),
    decreases s.len(),
{
    broadcast use vstd::seq_lib::group_to_multiset_ensures;

    if s.len() > 0 {
        lemma_sort_by_date(s.drop_last());
        lemma_insert_by_date(sort_by_date(s.drop_last()), s.last());
        assert(s =~= s.drop_last().push(s.last()));
    }
}

/// The releases of the date `d`, in their order.
pub open spec fn of_date(s: Seq<ReleaseView>, d: Option<Date>) -> Seq<ReleaseView>
    decreases s.len(),
{
    if s.len() == 0 {
        s
    } else if s.last().date == d {
        of_date(s.drop_last(), d).push(s.last())
    } else {
        of_date(s.drop_last(), d)
    }
}

/// A release that is put into releases standing newest first comes last
/// among the releases of its date, and leaves the releases of other dates
/// as they were.
pub proof fn lemma_insert_keeps_order(acc: Seq<ReleaseView>, x: ReleaseView, d: Option<Date>)
    ensures
        of_date(insert_by_date(acc, x), d) == (if x.date == d {
            of_date(acc, d).push(x)
        } else {
            of_date(acc, d)
        }),
    decreases acc.len(),
{
    let r = insert_by_date(acc, x);
    if acc.len() == 0 {
        assert(r.drop_last() =~= acc);
    } else if date_le(x.date, acc.last().date) {
        assert(r.drop_last() =~= acc);
    } else {
        let front = acc.drop_last();
        lemma_insert_keeps_order(front, x, d);
        assert(r.drop_last() =~= insert_by_date(front, x));
        assert(x.date != acc.last().date);
    }
}

/// Sorting keeps the order of the releases of each date.
pub proof fn lemma_sort_by_date_stable(s: Seq<ReleaseView>, d: Option<Date>)
    ensures
        of_date(sort_by_date(s), d) == of_date(s, d),
    decreases s.len(),
{
    if s.len() > 0 {
        lemma_sort_by_date_stable(s.drop_last(), d);
        lemma_insert_keeps_order(sort_by_date(s.drop_last()), s.last(), d);
    }
}

/// Where the search for the first release with neither version nor date
/// ends.
pub proof fn lemma_first_unreleased(s: Seq<ReleaseView>, k: int)
    requires
        0 <= k,
    ensures
        first_unreleased(s, k) == -1 || (k <= first_unreleased(s, k) < s.len() && s[first_unreleased(
            s,
            k,
        )].is_unreleased()),
        forall|j: int|
            k <= j < s.len() && (#[trigger] s[j]).is_unreleased() ==> first_unreleased(s, k) >= 0,
    decreases s.len() - k,
{
    if k < s.len() && !s[k].is_unreleased() {
        lemma_first_unreleased(s, k + 1);
    }
}

/// Where the search for the first release without a date ends.
pub proof fn lemma_first_dateless(s: Seq<ReleaseView>, k: int)
    requires
        0 <= k,
    ensures
        first_dateless(s, k) == -1 || (k <= first_dateless(s, k) < s.len() && s[first_dateless(
            s,
            k,
        )].date is None),
        forall|j: int|
            k <= j < s.len() && (#[trigger] s[j]).date is None ==> first_dateless(s, k) >= 0,
    decreases s.len() - k,
{
    if k < s.len() && s[k].date is Some {
        lemma_first_dateless(s, k + 1);
    }
}

/// A release stands on top exactly where some release has no date, and
/// the release on top has none.
pub proof fn lemma_pinned(s: Seq<ReleaseView>)
    ensures
        pinned(s) == -1 || (0 <= pinned(s) < s.len() && s[pinned(s)].date is None),
        forall|j: int| 0 <= j < s.len() && (#[trigger] s[j]).date is None ==> pinned(s) >= 0,
{
    lemma_first_unreleased(s, 0);
    lemma_first_dateless(s, 0);
}

/// The order of a changelog holds of whatever releases are sorted, in
/// whatever order they came: they stand newest first, but for one release
/// without a date on top, which is there wherever a release has no date;
/// and they are the same releases.
pub proof fn lemma_sorted_releases(s: Seq<ReleaseView>)
    ensures
        well_ordered(sorted_releases(s)),
        sorted_releases(s).len() == s.len(),
        sorted_releases(s).to_multiset() == s.to_multiset(),
        pinned(s) >= 0 ==> sorted_releases(s)[0] == s[pinned(s)],
        forall|j: int|
            0 <= j < s.len() && (#[trigger] s[j]).date is None ==> sorted_releases(s)[0].date
                is None,
{
    broadcast use vstd::seq_lib::group_to_multiset_ensures;

    let p = pinned(s);
    lemma_pinned(s);
    if p < 0 {
        lemma_sort_by_date(s);
    } else {
        let rest = s.remove(p);
        lemma_sort_by_date(rest);
        let r = sorted_releases(s);
        assert(r.drop_first() =~= sort_by_date(rest));
        assert(s =~= rest.insert(p, s[p]));
        vstd::seq_lib::to_multiset_insert(rest, p, s[p]);
        assert(r =~= sort_by_date(rest).insert(0, s[p]));
        vstd::seq_lib::to_multiset_insert(sort_by_date(rest), 0, s[p]);
    }
}

/// A release without a date that is put before releases which all have
/// one stands on top once they are sorted.
pub proof fn lemma_new_dateless_on_top(x: ReleaseView, s: Seq<ReleaseView>)
    requires
        x.date is None,
        forall|j: int| 0 <= j < s.len() ==> (#[trigger] s[j]).date is Some,
    ensures
        sorted_releases(seq![x] + s)[0] == x,
{
    let all = seq![x] + s;
    lemma_first_unreleased(all, 0);
    lemma_first_dateless(all, 0);
    lemma_pinned(all);
    assert(all[0] == x);
    let p = pinned(all);
    assert(p >= 0);
    if p > 0 {
        assert(all[p] == s[p - 1]);
    }
}

/// Whether the date `a` is not later than `b`.
fn not_later(a: &Option<Date>, b: &Option<Date>) -> (r: bool)
    ensures
        r == date_le(*a, *b),
{
    match (a, b) {
        (None, _) => true,
        (Some(_), None) => false,
        (Some(x), Some(y)) => !y.before(x),
    }
}

/// Puts `x` into releases that stand newest first, behind every release
/// that is not older than it.
fn insert_release(out: &mut Vec<Release>, x: Release)
    ensures
        release_views(final(out)@) == insert_by_date(release_views(old(out)@), x@),
{
    let ghost all = release_views(out@);
    let mut k: usize = out.len();
    assert(all.take(k as int) == all);
    assert(insert_by_date(all, x@) + all.skip(k as int) == insert_by_date(all, x@));
    while k > 0 && !not_later(&x.date, &out[k - 1].date)
        invariant
            k <= out.len(),
            out == old(out),
            all == release_views(out@),
            insert_by_date(all, x@) == insert_by_date(all.take(k as int), x@) + all.skip(k as int),
        decreases k,
    {
        proof {
            let upto = all.take(k as int);
            assert(upto.drop_last() == all.take(k - 1));
            assert(upto.last() == all[k - 1]);
            assert(insert_by_date(all.take(k - 1), x@).push(all[k - 1]) + all.skip(k as int)
                == insert_by_date(all.take(k - 1), x@) + all.skip(k - 1));
        }
        k -= 1;
    }
    proof {
        let upto = all.take(k as int);
        if k > 0 {
            assert(upto.last() == all[k - 1]);
        }
        assert(insert_by_date(upto, x@) == upto.push(x@));
        assert(upto.push(x@) + all.skip(k as int) == all.insert(k as int, x@));
        assert(release_views(out@.insert(k as int, x)) == all.insert(k as int, x@));
    }
    out.insert(k, x);
}

/// The releases newest first; releases of one date keep their order.
fn sort_dated(releases: Vec<Release>) -> (out: Vec<Release>)
    ensures
        release_views(out@) == sort_by_date(release_views(releases@)),
{
    let ghost all = release_views(releases@);
    let mut rest = releases;
    let mut out: Vec<Release> = Vec::new();
    let ghost mut done: int = 0;
    assert(all.take(0) == Seq::<ReleaseView>::empty());
    assert(release_views(out@) == Seq::<ReleaseView>::empty());
    assert(all.skip(0) == all);
    while rest.len() > 0
        invariant
            0 <= done <= all.len(),
            release_views(rest@) == all.skip(done),
            release_views(out@) == sort_by_date(all.take(done)),
        decreases rest.len(),
    {
        let ghost before = rest@;
        assert(release_views(rest@).len() == rest.len());
        assert(done < all.len());
        let x = rest.remove(0);
        proof {
            assert(release_views(before)[0] == x@);
            assert(all[done] == x@);
            assert forall|k: int| 0 <= k < before.len() - 1 implies release_views(
                before.remove(0),
            )[k] == all.skip(done + 1)[k] by {
                assert(release_views(before)[k + 1] == all.skip(done)[k + 1]);
            }
            assert(release_views(before.remove(0)) =~= all.skip(done + 1));
            let upto = all.take(done + 1);
            assert(upto.drop_last() == all.take(done));
            assert(upto.last() == x@);
            done = done + 1;
        }
        insert_release(&mut out, x);
    }
    assert(all.take(done) == all);
    out
}

/// Puts releases in the order of a changelog.
pub fn sort_releases(releases: Vec<Release>) -> (out: Vec<Release>)
    ensures
        release_views(out@) == sorted_releases(release_views(releases@)),
        well_ordered(release_views(out@)),
        out.len() == releases.len(),
        release_views(out@).to_multiset() == release_views(releases@).to_multiset(),
{
    let ghost all = release_views(releases@);
    proof {
        lemma_sorted_releases(all);
    }
    let mut rest = releases;
    let mut u: usize = 0;
    while u < rest.len() && !rest[u].is_unreleased()
        invariant
            u <= rest.len(),
            all == release_views(rest@),
            first_unreleased(all, 0) == first_unreleased(all, u as int),
        decreases rest.len() - u,
    {
        u += 1;
    }
    if u >= rest.len() {
        u = 0;
        while u < rest.len() && rest[u].date.is_some()
            invariant
                u <= rest.len(),
                all == release_views(rest@),
                first_unreleased(all, 0) == -1,
                first_dateless(all, 0) == first_dateless(all, u as int),
            decreases rest.len() - u,
        {
            u += 1;
        }
    }
    assert(pinned(all) == (if u < rest.len() {
        u as int
    } else {
        -1
    }));
    if u < rest.len() {
        let ghost before = rest@;
        let pinned = rest.remove(u);
        assert(release_views(before.remove(u as int)) == all.remove(u as int));
        let mut out = sort_dated(rest);
        let ghost sorted = out@;
        out.insert(0, pinned);
        assert(release_views(sorted.insert(0, pinned)) == seq![pinned@] + release_views(sorted));
        out
    } else {
        sort_dated(rest)
    }
}

} // verus!
