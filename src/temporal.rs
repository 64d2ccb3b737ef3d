use vstd::prelude::*;
use crate::calendar::day_of;
use crate::entry::Entry;

verus! {

/// Entry `i` comes before entry `j` in the history: it is later, or equally
/// late and stored first.
pub open spec fn precedes(s: Seq<Entry>, i: int, j: int) -> bool {
    s[i].time > s[j].time || (s[i].time == s[j].time && i < j)
}

/// Some entry falls on local day `day`; `days[j]` is the local day of entry `j`.
pub open spec fn has_entry_on(days: Seq<i64>, day: i64) -> bool {
    exists|j: int| 0 <= j < days.len() && #[trigger] days[j] == day
}

/// Entry `i` is at least as late as every entry on its local day.
pub open spec fn is_latest_of_day(s: Seq<Entry>, days: Seq<i64>, i: int) -> bool {
    &&& 0 <= i < s.len()
    &&& forall|j: int| 0 <= j < s.len() && #[trigger] days[j] == days[i] ==> s[j].time <= s[i].time
}

/// `r` is the entry of local day `today`: absent exactly when that day has
/// no entry, otherwise a latest entry of the day.
pub open spec fn is_today_entry(s: Seq<Entry>, days: Seq<i64>, today: i64, r: Option<Entry>) -> bool {
    match r {
        None => !has_entry_on(days, today),
        Some(e) => exists|i: int|
            #[trigger] is_latest_of_day(s, days, i) && days[i] == today && s[i] == e,
    }
}

/// Entry `i` stands for its local day in the history: the day is before
/// `today`, and `i` comes before every other entry of that day.
pub open spec fn is_kept(s: Seq<Entry>, days: Seq<i64>, today: i64, i: int) -> bool {
    &&& 0 <= i < s.len()
    &&& days[i] < today
    &&& forall|j: int|
        0 <= j < s.len() && #[trigger] days[j] == days[i] && j != i ==> precedes(s, i, j)
}

/// `ix` lists the entries that stand for the local days before `today`, each
/// once, newest first.
pub open spec fn is_past_indices(s: Seq<Entry>, days: Seq<i64>, today: i64, ix: Seq<usize>) -> bool {
    &&& forall|k: int| 0 <= k < ix.len() ==> is_kept(s, days, today, #[trigger] ix[k] as int)
    &&& forall|i: int| #[trigger] is_kept(s, days, today, i) ==> exists|k: int|
        0 <= k < ix.len() && #[trigger] ix[k] == i
    &&& forall|k1: int, k2: int|
        0 <= k1 < k2 < ix.len() ==> precedes(s, #[trigger] ix[k1] as int, #[trigger] ix[k2] as int)
}

/// The entries of `s` at the positions `ix`.
pub open spec fn pick(s: Seq<Entry>, ix: Seq<usize>) -> Seq<Entry> {
    Seq::new(ix.len(), |k: int| s[ix[k] as int])
}

/// `r` holds the entries that stand for the local days before `today`.
pub open spec fn is_past_entries(s: Seq<Entry>, days: Seq<i64>, today: i64, r: Seq<Entry>) -> bool {
    exists|ix: Seq<usize>| #[trigger] is_past_indices(s, days, today, ix) && r == pick(s, ix)
}

/// A latest entry of local day `today`, where `days[i]` is the local day of
/// `entries[i]`.
pub fn today_entry(entries: &Vec<Entry>, days: &Vec<i64>, today: i64) -> (r: Option<Entry>)
    requires
        entries.len() == days.len(),
    ensures
        is_today_entry(entries@, days@, today, r),
{
    let ghost s = entries@;
    let ghost d = days@;
    let mut best: Option<usize> = None;
    let mut i: usize = 0;
    while i < entries.len()
        invariant
            0 <= i <= entries.len(),
            entries.len() == days.len(),
            s == entries@,
            d == days@,
            match best {
                None => forall|j: int| 0 <= j < i ==> #[trigger] d[j] != today,
                Some(b) => {
                    &&& b < i
                    &&& d[b as int] == today
                    &&& forall|j: int| 0 <= j < i && #[trigger] d[j] == today ==> s[j].time <= s[b as int].time
                },
            },
        decreases entries.len() - i,
    {
        if days[i] == today {
            match best {
                None => {
                    best = Some(i);
                },
                Some(b) => {
                    if entries[i].time > entries[b].time {
                        best = Some(i);
                    }
                },
            }
        }
        i += 1;
    }
    match best {
        None => None,
        Some(b) => {
            let e = entries[b].duplicate();
            assert(is_latest_of_day(s, d, b as int));
            Some(e)
        },
    }
}

/// Whether entry `i` stands for its local day in the history.
fn is_kept_at(entries: &Vec<Entry>, days: &Vec<i64>, today: i64, i: usize) -> (r: bool)
    requires
        entries.len() == days.len(),
        i < entries.len(),
    ensures
        r == is_kept(entries@, days@, today, i as int),
{
    if days[i] >= today {
        return false;
    }
    let mut j: usize = 0;
    while j < entries.len()
        invariant
            entries.len() == days.len(),
            i < entries.len(),
            0 <= j <= entries.len(),
            days@[i as int] < today,
            forall|m: int|
                0 <= m < j && #[trigger] days@[m] == days@[i as int] && m != i ==> precedes(
                    entries@,
                    i as int,
                    m,
                ),
        decreases entries.len() - j,
    {
        if j != i && days[j] == days[i] {
            let ti = entries[i].time;
            let tj = entries[j].time;
            if !(ti > tj || (ti == tj && i < j)) {
                assert(!precedes(entries@, i as int, j as int));
                return false;
            }
        }
        j += 1;
    }
    true
}

#[verifier::opaque]
spec fn ix_kept(s: Seq<Entry>, d: Seq<i64>, today: i64, i: int, ix: Seq<usize>) -> bool {
    forall|k: int| 0 <= k < ix.len() ==> #[trigger] ix[k] < i && is_kept(s, d, today, ix[k] as int)
}

#[verifier::opaque]
spec fn ix_cover(s: Seq<Entry>, d: Seq<i64>, today: i64, i: int, ix: Seq<usize>) -> bool {
    forall|j: int| 0 <= j < i && #[trigger] is_kept(s, d, today, j) ==> exists|k: int|
        0 <= k < ix.len() && #[trigger] ix[k] == j
}

#[verifier::opaque]
spec fn ix_sorted(s: Seq<Entry>, ix: Seq<usize>) -> bool {
    forall|k1: int, k2: int|
        0 <= k1 < k2 < ix.len() ==> precedes(s, #[trigger] ix[k1] as int, #[trigger] ix[k2] as int)
}

spec fn ix_invariant(s: Seq<Entry>, d: Seq<i64>, today: i64, i: int, ix: Seq<usize>) -> bool {
    &&& ix_kept(s, d, today, i, ix)
    &&& ix_cover(s, d, today, i, ix)
    &&& ix_sorted(s, ix)
}

proof fn lemma_ix_skip(s: Seq<Entry>, d: Seq<i64>, today: i64, i: int, ix: Seq<usize>)
    requires
        ix_invariant(s, d, today, i, ix),
        !is_kept(s, d, today, i),
    ensures
        ix_invariant(s, d, today, i + 1, ix),
{
    reveal(ix_kept);
    reveal(ix_cover);
}

proof fn lemma_ix_insert(s: Seq<Entry>, d: Seq<i64>, today: i64, i: int, ix: Seq<usize>, k: int)
    requires
        0 <= i <= usize::MAX,
        ix_invariant(s, d, today, i, ix),
        is_kept(s, d, today, i),
        0 <= k <= ix.len(),
        forall|m: int| 0 <= m < k ==> precedes(s, #[trigger] ix[m] as int, i),
        k < ix.len() ==> precedes(s, i, ix[k] as int),
    ensures
        ix_invariant(s, d, today, i + 1, ix.insert(k, i as usize)),
{
    reveal(ix_kept);
    reveal(ix_cover);
    reveal(ix_sorted);
    let n = ix.insert(k, i as usize);
    assert forall|m: int| k < m < ix.len() implies precedes(s, i, #[trigger] ix[m] as int) by {
        assert(precedes(s, ix[k] as int, ix[m] as int));
    }
    assert forall|m: int| 0 <= m < n.len() implies #[trigger] n[m] < i + 1 && is_kept(s, d, today, n[m] as int) by {
        if m < k {
            assert(n[m] == ix[m]);
        } else if m > k {
            assert(n[m] == ix[m - 1]);
        }
    }
    assert forall|j: int| 0 <= j < i + 1 && #[trigger] is_kept(s, d, today, j) implies exists|m: int|
        0 <= m < n.len() && #[trigger] n[m] == j by {
        if j < i {
            let m = choose|m: int| 0 <= m < ix.len() && #[trigger] ix[m] == j;
            if m < k {
                assert(n[m] == ix[m]);
            } else {
                assert(n[m + 1] == ix[m]);
            }
        } else {
            assert(n[k] == i);
        }
    }
    assert forall|k1: int, k2: int| 0 <= k1 < k2 < n.len() implies precedes(s, #[trigger] n[k1] as int, #[trigger] n[k2] as int) by {
        if k1 < k {
            assert(n[k1] == ix[k1]);
        } else if k1 > k {
            assert(n[k1] == ix[k1 - 1]);
        }
        if k2 < k {
            assert(n[k2] == ix[k2]);
        } else if k2 > k {
            assert(n[k2] == ix[k2 - 1]);
        }
        if k1 > k {
            assert(precedes(s, ix[k1 - 1] as int, ix[k2 - 1] as int));
        } else if k1 < k && k2 > k {
            assert(precedes(s, ix[k1] as int, ix[k2 - 1] as int));
        }
    }
}

/// The positions of the entries that stand for the local days before
/// `today`: on each such day the latest entry, the first stored among equally
/// late ones; newest first, and among equally late ones first stored first.
pub fn past_indices(entries: &Vec<Entry>, days: &Vec<i64>, today: i64) -> (r: Vec<usize>)
    requires
        entries.len() == days.len(),
    ensures
        is_past_indices(entries@, days@, today, r@),
{
    let ghost s = entries@;
    let ghost d = days@;
    let mut ix: Vec<usize> = Vec::new();
    proof {
        reveal(ix_kept);
        reveal(ix_cover);
        reveal(ix_sorted);
    }
    let mut i: usize = 0;
    while i < entries.len()
        invariant
            0 <= i <= entries.len(),
            entries.len() == days.len(),
            s == entries@,
            d == days@,
            ix_invariant(s, d, today, i as int, ix@),
        decreases entries.len() - i,
    {
        if is_kept_at(entries, days, today, i) {
            proof {
                reveal(ix_kept);
            }
            let mut k: usize = 0;
            while k < ix.len() && (entries[ix[k]].time > entries[i].time || (entries[ix[k]].time
                == entries[i].time && ix[k] < i))
                invariant
                    0 <= k <= ix.len(),
                    i < entries.len(),
                    entries.len() == days.len(),
                    s == entries@,
                    ix_invariant(s, d, today, i as int, ix@),
                    forall|m: int| 0 <= m < ix.len() ==> #[trigger] ix@[m] < i,
                    forall|m: int| 0 <= m < k ==> precedes(s, #[trigger] ix@[m] as int, i as int),
                decreases ix.len() - k,
            {
                k += 1;
            }
            proof {
                lemma_ix_insert(s, d, today, i as int, ix@, k as int);
            }
            ix.insert(k, i);
        } else {
            proof {
                lemma_ix_skip(s, d, today, i as int, ix@);
            }
        }
        i += 1;
    }
    proof {
        reveal(ix_kept);
        reveal(ix_cover);
        reveal(ix_sorted);
    }
    ix
}

/// The entries that stand for the local days before `today`, newest first:
/// on each such day its latest entry.
pub fn past_entries(entries: &Vec<Entry>, days: &Vec<i64>, today: i64) -> (r: Vec<Entry>)
    requires
        entries.len() == days.len(),
    ensures
        is_past_entries(entries@, days@, today, r@),
{
    let ix = past_indices(entries, days, today);
    let ghost s = entries@;
    let mut r: Vec<Entry> = Vec::new();
    let mut m: usize = 0;
    while m < ix.len()
        invariant
            0 <= m <= ix.len(),
            s == entries@,
            is_past_indices(s, days@, today, ix@),
            r@.len() == m,
            forall|q: int| 0 <= q < m ==> #[trigger] r@[q] == s[ix@[q] as int],
        decreases ix.len() - m,
    {
        assert(is_kept(s, days@, today, ix@[m as int] as int));
        let e = entries[ix[m]].duplicate();
        r.push(e);
        m += 1;
    }
    assert(r@ == pick(s, ix@));
    r
}

/// Among the entries of a local day that has any, one comes before all the
/// others.
pub proof fn lemma_first_of_day_exists(s: Seq<Entry>, days: Seq<i64>, day: i64, n: int)
    requires
        0 <= n <= s.len(),
        s.len() == days.len(),
        exists|j: int| 0 <= j < n && #[trigger] days[j] == day,
    ensures
        exists|b: int|
            0 <= b < n && days[b] == day && forall|j: int|
                0 <= j < n && #[trigger] days[j] == day && j != b ==> precedes(s, b, j),
    decreases n,
{
    if exists|j: int| 0 <= j < n - 1 && #[trigger] days[j] == day {
        lemma_first_of_day_exists(s, days, day, n - 1);
        let b = choose|b: int|
            0 <= b < n - 1 && days[b] == day && forall|j: int|
                0 <= j < n - 1 && #[trigger] days[j] == day && j != b ==> precedes(s, b, j);
        if days[n - 1] == day && !precedes(s, b, n - 1) {
            assert forall|j: int| 0 <= j < n && #[trigger] days[j] == day && j != n - 1 implies precedes(
                s,
                n - 1,
                j,
            ) by {
                if j != b {
                    assert(precedes(s, b, j));
                }
            }
        } else {
            assert forall|j: int| 0 <= j < n && #[trigger] days[j] == day && j != b implies precedes(s, b, j) by {
                if j == n - 1 {
                    assert(precedes(s, b, n - 1));
                }
            }
        }
    } else {
        assert forall|j: int| 0 <= j < n && #[trigger] days[j] == day && j != n - 1 implies precedes(
            s,
            n - 1,
            j,
        ) by {
            assert(false);
        }
    }
}

/// Every local day up to today that has an entry is shown exactly once:
/// today's day by the entry of today, each earlier day by one entry of the
/// history, and no entry of the history falls on today.
pub proof fn law_no_double_counting(
    s: Seq<Entry>,
    days: Seq<i64>,
    today: i64,
    t: Option<Entry>,
    ix: Seq<usize>,
)
    requires
        s.len() == days.len(),
        is_today_entry(s, days, today, t),
        is_past_indices(s, days, today, ix),
    ensures
        forall|j: int| 0 <= j < s.len() && #[trigger] days[j] == today ==> t is Some,
        forall|j: int|
            0 <= j < s.len() && #[trigger] days[j] < today ==> exists|k: int|
                0 <= k < ix.len() && days[#[trigger] ix[k] as int] == days[j],
        forall|k: int| 0 <= k < ix.len() ==> days[#[trigger] ix[k] as int] < today,
        forall|k1: int, k2: int|
            0 <= k1 < ix.len() && 0 <= k2 < ix.len() && k1 != k2 ==> days[#[trigger] ix[k1] as int]
                != days[#[trigger] ix[k2] as int],
{
    assert forall|j: int| 0 <= j < s.len() && #[trigger] days[j] < today implies exists|k: int|
        0 <= k < ix.len() && days[#[trigger] ix[k] as int] == days[j] by {
        lemma_first_of_day_exists(s, days, days[j], s.len() as int);
        let b = choose|b: int|
            0 <= b < s.len() && days[b] == days[j] && forall|m: int|
                0 <= m < s.len() && #[trigger] days[m] == days[j] && m != b ==> precedes(s, b, m);
        assert(is_kept(s, days, today, b));
        let k = choose|k: int| 0 <= k < ix.len() && #[trigger] ix[k] == b;
        assert(days[ix[k] as int] == days[j]);
    }
    assert forall|k1: int, k2: int|
        0 <= k1 < ix.len() && 0 <= k2 < ix.len() && k1 != k2 implies days[#[trigger] ix[k1] as int]
            != days[#[trigger] ix[k2] as int] by {
        let a = ix[k1] as int;
        let b = ix[k2] as int;
        assert(is_kept(s, days, today, a));
        assert(is_kept(s, days, today, b));
        if k1 < k2 {
            assert(precedes(s, a, b));
        } else {
            assert(precedes(s, b, a));
        }
        if days[a] == days[b] {
            assert(precedes(s, a, b) && precedes(s, b, a));
        }
    }
    assert forall|j: int| 0 <= j < s.len() && #[trigger] days[j] == today implies t is Some by {
        assert(has_entry_on(days, today));
    }
}

/// Of two entries on one local day, the strictly later one wins: the earlier
/// one never stands for the day, and whatever does is at least as late as the
/// later one.
pub proof fn law_latest_wins(
    s: Seq<Entry>,
    days: Seq<i64>,
    today: i64,
    t: Option<Entry>,
    ix: Seq<usize>,
    i: int,
    j: int,
)
    requires
        s.len() == days.len(),
        is_today_entry(s, days, today, t),
        is_past_indices(s, days, today, ix),
        0 <= i < s.len(),
        0 <= j < s.len(),
        days[i] == days[j],
        s[i].time > s[j].time,
    ensures
        days[j] == today && t is Some ==> t->0.time >= s[i].time && t->0 != s[j],
        forall|k: int| 0 <= k < ix.len() ==> #[trigger] ix[k] != j,
        forall|k: int|
            0 <= k < ix.len() && days[#[trigger] ix[k] as int] == days[j] ==> s[ix[k] as int].time
                >= s[i].time,
{
    assert forall|k: int| 0 <= k < ix.len() implies #[trigger] ix[k] != j by {
        assert(is_kept(s, days, today, ix[k] as int));
        if ix[k] == j {
            assert(precedes(s, j, i));
        }
    }
    assert forall|k: int|
        0 <= k < ix.len() && days[#[trigger] ix[k] as int] == days[j] implies s[ix[k] as int].time
            >= s[i].time by {
        assert(is_kept(s, days, today, ix[k] as int));
        if ix[k] as int != i {
            assert(precedes(s, ix[k] as int, i));
        }
    }
    if days[j] == today && t is Some {
        let i0 = choose|i0: int| #[trigger] is_latest_of_day(s, days, i0) && days[i0] == today && s[i0] == t->0;
        assert(s[i].time <= s[i0].time);
    }
}

/// An instant at 23:59:59 local time and one two seconds later, at 00:00:01
/// local time, fall on consecutive local days, whatever offset each is seen at.
pub proof fn law_day_boundary(t1: int, o1: int, t2: int, o2: int)
    requires
        (t1 + o1) % 86400 == 86399,
        t2 + o2 == t1 + o1 + 2,
    ensures
        day_of(t2, o2) == day_of(t1, o1) + 1,
        day_of(t2, o2) != day_of(t1, o1),
{
    reveal(day_of);
    vstd::arithmetic::div_mod::lemma_fundamental_div_mod(t1 + o1, 86400);
    vstd::arithmetic::div_mod::lemma_div_multiples_vanish_fancy((t1 + o1) / 86400 + 1, 1, 86400);
}

/// With no entries there is no entry of today and no history.
pub proof fn law_empty_store(today: i64, t: Option<Entry>, ix: Seq<usize>)
    requires
        is_today_entry(Seq::empty(), Seq::empty(), today, t),
        is_past_indices(Seq::empty(), Seq::empty(), today, ix),
    ensures
        t is None,
        ix.len() == 0,
{
    if ix.len() > 0 {
        assert(is_kept(Seq::empty(), Seq::empty(), today, ix[0] as int));
    }
    if t is Some {
        let i0 = choose|i0: int|
            #[trigger] is_latest_of_day(Seq::empty(), Seq::empty(), i0) && Seq::<i64>::empty()[i0] == today
                && Seq::<Entry>::empty()[i0] == t->0;
    }
}

} // verus!
