//! Daily time-series points and the upsert/windowing algorithm: replace any
//! entry sharing the new point's date, keep the series strictly ascending by
//! date, and retain only the newest `DEFAULT_DAYS` entries.
use vstd::prelude::*;

use crate::order::{lex_lt, lemma_lex_asymmetric, lemma_lex_irreflexive, lemma_lex_transitive, lemma_lex_trichotomy, str_lt};
use crate::DEFAULT_DAYS;

verus! {

/// One day of wallet activity.
pub struct DailyPoint {
    /// Calendar-day key, e.g. "2024-03-01"; unique within a series.
    pub ts: String,
    /// Wallets active that day.
    pub active: u64,
    /// Wallets active that day but absent the previous day.
    pub new_wallets: u64,
}

/// One day of extrinsic counts.
pub struct DailyExtrinsicsPoint {
    /// Calendar-day key; unique within a series.
    pub ts: String,
    /// Extrinsics submitted that day.
    pub extrinsics: u64,
}

/// Two wallet points carry the same data.
pub open spec fn dp_eq(a: DailyPoint, b: DailyPoint) -> bool {
    a.ts@ == b.ts@ && a.active == b.active && a.new_wallets == b.new_wallets
}

/// Two extrinsics points carry the same data.
pub open spec fn ep_eq(a: DailyExtrinsicsPoint, b: DailyExtrinsicsPoint) -> bool {
    a.ts@ == b.ts@ && a.extrinsics == b.extrinsics
}

/// The dates strictly ascend, so no date repeats.
pub open spec fn daily_sorted(s: Seq<DailyPoint>) -> bool {
    forall|i: int, j: int| 0 <= i < j < s.len() ==> lex_lt(s[i].ts@, s[j].ts@)
}

/// The dates strictly ascend, so no date repeats.
pub open spec fn ext_sorted(s: Seq<DailyExtrinsicsPoint>) -> bool {
    forall|i: int, j: int| 0 <= i < j < s.len() ==> lex_lt(s[i].ts@, s[j].ts@)
}

/// Series invariant: strictly ascending unique dates, at most `DEFAULT_DAYS` entries.
pub open spec fn daily_wf(s: Seq<DailyPoint>) -> bool {
    daily_sorted(s) && s.len() <= DEFAULT_DAYS
}

/// Series invariant: strictly ascending unique dates, at most `DEFAULT_DAYS` entries.
pub open spec fn ext_wf(s: Seq<DailyExtrinsicsPoint>) -> bool {
    ext_sorted(s) && s.len() <= DEFAULT_DAYS
}

/// The subsequence of entries dated strictly before `key`, in order.
pub open spec fn daily_below(s: Seq<DailyPoint>, key: Seq<char>) -> Seq<DailyPoint>
    decreases s.len(),
{
    if s.len() == 0 {
        Seq::empty()
    } else {
        let rest = daily_below(s.drop_last(), key);
        if lex_lt(s.last().ts@, key) {
            rest.push(s.last())
        } else {
            rest
        }
    }
}

/// The subsequence of entries dated strictly after `key`, in order.
pub open spec fn daily_above(s: Seq<DailyPoint>, key: Seq<char>) -> Seq<DailyPoint>
    decreases s.len(),
{
    if s.len() == 0 {
        Seq::empty()
    } else {
        let rest = daily_above(s.drop_last(), key);
        if lex_lt(key, s.last().ts@) {
            rest.push(s.last())
        } else {
            rest
        }
    }
}

/// The subsequence of entries dated strictly before `key`, in order.
pub open spec fn ext_below(s: Seq<DailyExtrinsicsPoint>, key: Seq<char>) -> Seq<DailyExtrinsicsPoint>
    decreases s.len(),
{
    if s.len() == 0 {
        Seq::empty()
    } else {
        let rest = ext_below(s.drop_last(), key);
        if lex_lt(s.last().ts@, key) {
            rest.push(s.last())
        } else {
            rest
        }
    }
}

/// The subsequence of entries dated strictly after `key`, in order.
pub open spec fn ext_above(s: Seq<DailyExtrinsicsPoint>, key: Seq<char>) -> Seq<DailyExtrinsicsPoint>
    decreases s.len(),
{
    if s.len() == 0 {
        Seq::empty()
    } else {
        let rest = ext_above(s.drop_last(), key);
        if lex_lt(key, s.last().ts@) {
            rest.push(s.last())
        } else {
            rest
        }
    }
}

/// Keeps the newest `DEFAULT_DAYS` entries, dropping the excess from the front.
pub open spec fn window_trim<T>(s: Seq<T>) -> Seq<T> {
    if s.len() > DEFAULT_DAYS {
        s.skip(s.len() - DEFAULT_DAYS)
    } else {
        s
    }
}

/// What one upsert does to a wallet series.
pub open spec fn upsert_daily_spec(s: Seq<DailyPoint>, p: DailyPoint) -> Seq<DailyPoint> {
    window_trim(daily_below(s, p.ts@) + seq![p] + daily_above(s, p.ts@))
}

/// What one upsert does to an extrinsics series.
pub open spec fn upsert_ext_spec(s: Seq<DailyExtrinsicsPoint>, p: DailyExtrinsicsPoint) -> Seq<DailyExtrinsicsPoint> {
    window_trim(ext_below(s, p.ts@) + seq![p] + ext_above(s, p.ts@))
}

/// Some entry of `s` carries the same data as `p`.
pub open spec fn has_daily_point(s: Seq<DailyPoint>, p: DailyPoint) -> bool {
    exists|i: int| 0 <= i < s.len() && dp_eq(s[i], p)
}

/// Some entry of `s` carries the same data as `p`.
pub open spec fn has_ext_point(s: Seq<DailyExtrinsicsPoint>, p: DailyExtrinsicsPoint) -> bool {
    exists|i: int| 0 <= i < s.len() && ep_eq(s[i], p)
}

/// Some entry of `s` is dated `key`.
pub open spec fn has_daily_key(s: Seq<DailyPoint>, key: Seq<char>) -> bool {
    exists|i: int| 0 <= i < s.len() && s[i].ts@ == key
}

/// Some entry of `s` is dated `key`.
pub open spec fn has_ext_key(s: Seq<DailyExtrinsicsPoint>, key: Seq<char>) -> bool {
    exists|i: int| 0 <= i < s.len() && s[i].ts@ == key
}

/// Every entry kept by `daily_below`/`daily_above` sits on the right side of
/// `key`, the two parts stay sorted, and together they never outnumber `s`.
pub proof fn lemma_daily_split(s: Seq<DailyPoint>, key: Seq<char>)
    requires
        daily_sorted(s),
    ensures
        daily_sorted(daily_below(s, key)),
        daily_sorted(daily_above(s, key)),
        forall|i: int| 0 <= i < daily_below(s, key).len() ==> lex_lt(#[trigger] daily_below(s, key)[i].ts@, key),
        forall|i: int| 0 <= i < daily_above(s, key).len() ==> lex_lt(key, #[trigger] daily_above(s, key)[i].ts@),
        daily_below(s, key).len() + daily_above(s, key).len() <= s.len(),
        has_daily_key(s, key) ==> daily_below(s, key).len() + daily_above(s, key).len() < s.len(),
        s.len() > 0 && lex_lt(s[0].ts@, key) ==> daily_below(s, key).len() > 0,
    decreases s.len(),
{
    if s.len() > 0 {
        let d = s.drop_last();
        assert(daily_sorted(d)) by {
            assert(forall|i: int, j: int| 0 <= i < j < d.len() ==> d[i] == s[i] && d[j] == s[j]);
        }
        lemma_daily_split(d, key);
        let b = daily_below(s, key);
        let a = daily_above(s, key);
        let bd = daily_below(d, key);
        let ad = daily_above(d, key);
        assert(forall|i: int| 0 <= i < bd.len() ==> lex_lt(#[trigger] bd[i].ts@, key));
        if lex_lt(s.last().ts@, key) {
            lemma_lex_asymmetric(s.last().ts@, key);
            assert(b == bd.push(s.last()));
            assert(forall|i: int| 0 <= i < b.len() - 1 ==> b[i] == bd[i]);
            assert(daily_sorted(b)) by {
                assert forall|i: int, j: int| 0 <= i < j < b.len() implies lex_lt(b[i].ts@, b[j].ts@) by {
                    if j < b.len() - 1 {
                        assert(lex_lt(bd[i].ts@, bd[j].ts@));
                    } else {
                        // b[j] is s.last(); b[i] came from d, so it precedes key,
                        // and it is an element of d, hence precedes s.last().
                        assert(lex_lt(bd[i].ts@, key));
                        lemma_below_element(d, key, i);
                        let k = choose|k: int| 0 <= k < d.len() && d[k] == bd[i];
                        assert(lex_lt(s[k].ts@, s[s.len() - 1].ts@));
                    }
                }
            }
        }
        if lex_lt(key, s.last().ts@) {
            assert(a == ad.push(s.last()));
            assert(forall|i: int| 0 <= i < a.len() - 1 ==> a[i] == ad[i]);
            assert(daily_sorted(a)) by {
                assert forall|i: int, j: int| 0 <= i < j < a.len() implies lex_lt(a[i].ts@, a[j].ts@) by {
                    if j < a.len() - 1 {
                        assert(lex_lt(ad[i].ts@, ad[j].ts@));
                    } else {
                        lemma_above_element(d, key, i);
                        let k = choose|k: int| 0 <= k < d.len() && d[k] == ad[i];
                        assert(lex_lt(s[k].ts@, s[s.len() - 1].ts@));
                    }
                }
            }
        }
        lemma_lex_irreflexive(key);
        if has_daily_key(s, key) {
            let w = choose|i: int| 0 <= i < s.len() && s[i].ts@ == key;
            if w < s.len() - 1 {
                assert(d[w].ts@ == key);
                assert(has_daily_key(d, key));
            } else {
                assert(s.last().ts@ == key);
            }
        }
    }
}

/// Each entry kept by `daily_below` occurs in the source series.
proof fn lemma_below_element(s: Seq<DailyPoint>, key: Seq<char>, i: int)
    requires
        0 <= i < daily_below(s, key).len(),
    ensures
        exists|k: int| 0 <= k < s.len() && s[k] == daily_below(s, key)[i],
    decreases s.len(),
{
    if s.len() > 0 {
        let d = s.drop_last();
        let b = daily_below(s, key);
        let bd = daily_below(d, key);
        if lex_lt(s.last().ts@, key) && i == b.len() - 1 {
            assert(s[s.len() - 1] == b[i]);
        } else {
            lemma_below_element(d, key, i);
            let k = choose|k: int| 0 <= k < d.len() && d[k] == bd[i];
            assert(s[k] == b[i]);
        }
    }
}

/// Each entry kept by `daily_above` occurs in the source series.
proof fn lemma_above_element(s: Seq<DailyPoint>, key: Seq<char>, i: int)
    requires
        0 <= i < daily_above(s, key).len(),
    ensures
        exists|k: int| 0 <= k < s.len() && s[k] == daily_above(s, key)[i],
    decreases s.len(),
{
    if s.len() > 0 {
        let d = s.drop_last();
        let a = daily_above(s, key);
        let ad = daily_above(d, key);
        if lex_lt(key, s.last().ts@) && i == a.len() - 1 {
            assert(s[s.len() - 1] == a[i]);
        } else {
            lemma_above_element(d, key, i);
            let k = choose|k: int| 0 <= k < d.len() && d[k] == ad[i];
            assert(s[k] == a[i]);
        }
    }
}

/// An upsert keeps the series well formed: dates stay strictly ascending and
/// unique, and the length stays within the window.
pub proof fn lemma_upsert_daily_wf(s: Seq<DailyPoint>, p: DailyPoint)
    requires
        daily_sorted(s),
    ensures
        daily_wf(upsert_daily_spec(s, p)),
{
    lemma_daily_split(s, p.ts@);
    let b = daily_below(s, p.ts@);
    let a = daily_above(s, p.ts@);
    let mid = b + seq![p] + a;
    assert(forall|i: int| 0 <= i < b.len() ==> (b + seq![p] + a)[i] == b[i]);
    assert((b + seq![p] + a)[b.len() as int] == p);
    assert(forall|j: int| b.len() + 1 <= j < mid.len() ==> (b + seq![p] + a)[j] == a[j - b.len() - 1]);
    assert(daily_sorted(mid)) by {
        assert forall|i: int, j: int| 0 <= i < j < mid.len() implies lex_lt(mid[i].ts@, mid[j].ts@) by {
            let bl = b.len() as int;
            if j < bl {
                assert(lex_lt(b[i].ts@, b[j].ts@));
            } else if i < bl && j == bl {
                assert(lex_lt(b[i].ts@, p.ts@));
            } else if i < bl && j > bl {
                lemma_lex_transitive(b[i].ts@, p.ts@, a[j - bl - 1].ts@);
            } else if i == bl {
                assert(lex_lt(p.ts@, a[j - bl - 1].ts@));
            } else {
                assert(lex_lt(a[i - bl - 1].ts@, a[j - bl - 1].ts@));
            }
        }
    }
    let out = window_trim(mid);
    if mid.len() > DEFAULT_DAYS {
        assert(forall|i: int| 0 <= i < out.len() ==> out[i] == mid[i + mid.len() - DEFAULT_DAYS]);
    }
}

/// The same, for the extrinsics series; split properties inlined.
pub proof fn lemma_upsert_ext_wf(s: Seq<DailyExtrinsicsPoint>, p: DailyExtrinsicsPoint)
    requires
        ext_sorted(s),
    ensures
        ext_wf(upsert_ext_spec(s, p)),
{
    lemma_ext_split(s, p.ts@);
    let b = ext_below(s, p.ts@);
    let a = ext_above(s, p.ts@);
    let mid = b + seq![p] + a;
    assert(forall|i: int| 0 <= i < b.len() ==> (b + seq![p] + a)[i] == b[i]);
    assert((b + seq![p] + a)[b.len() as int] == p);
    assert(forall|j: int| b.len() + 1 <= j < mid.len() ==> (b + seq![p] + a)[j] == a[j - b.len() - 1]);
    assert(ext_sorted(mid)) by {
        assert forall|i: int, j: int| 0 <= i < j < mid.len() implies lex_lt(mid[i].ts@, mid[j].ts@) by {
            let bl = b.len() as int;
            if j < bl {
                assert(lex_lt(b[i].ts@, b[j].ts@));
            } else if i < bl && j == bl {
                assert(lex_lt(b[i].ts@, p.ts@));
            } else if i < bl && j > bl {
                lemma_lex_transitive(b[i].ts@, p.ts@, a[j - bl - 1].ts@);
            } else if i == bl {
                assert(lex_lt(p.ts@, a[j - bl - 1].ts@));
            } else {
                assert(lex_lt(a[i - bl - 1].ts@, a[j - bl - 1].ts@));
            }
        }
    }
    let out = window_trim(mid);
    if mid.len() > DEFAULT_DAYS {
        assert(forall|i: int| 0 <= i < out.len() ==> out[i] == mid[i + mid.len() - DEFAULT_DAYS]);
    }
}

/// Split properties for the extrinsics series.
pub proof fn lemma_ext_split(s: Seq<DailyExtrinsicsPoint>, key: Seq<char>)
    requires
        ext_sorted(s),
    ensures
        ext_sorted(ext_below(s, key)),
        ext_sorted(ext_above(s, key)),
        forall|i: int| 0 <= i < ext_below(s, key).len() ==> lex_lt(#[trigger] ext_below(s, key)[i].ts@, key),
        forall|i: int| 0 <= i < ext_above(s, key).len() ==> lex_lt(key, #[trigger] ext_above(s, key)[i].ts@),
        ext_below(s, key).len() + ext_above(s, key).len() <= s.len(),
        has_ext_key(s, key) ==> ext_below(s, key).len() + ext_above(s, key).len() < s.len(),
        s.len() > 0 && lex_lt(s[0].ts@, key) ==> ext_below(s, key).len() > 0,
    decreases s.len(),
{
    if s.len() > 0 {
        let d = s.drop_last();
        assert(ext_sorted(d)) by {
            assert(forall|i: int, j: int| 0 <= i < j < d.len() ==> d[i] == s[i] && d[j] == s[j]);
        }
        lemma_ext_split(d, key);
        let b = ext_below(s, key);
        let a = ext_above(s, key);
        let bd = ext_below(d, key);
        let ad = ext_above(d, key);
        if lex_lt(s.last().ts@, key) {
            lemma_lex_asymmetric(s.last().ts@, key);
        }
        lemma_lex_irreflexive(key);
        if has_ext_key(s, key) {
            let w = choose|i: int| 0 <= i < s.len() && s[i].ts@ == key;
            if w < s.len() - 1 {
                assert(d[w].ts@ == key);
                assert(has_ext_key(d, key));
            } else {
                assert(s.last().ts@ == key);
            }
        }
        if lex_lt(s.last().ts@, key) {
            assert(b == bd.push(s.last()));
            assert(forall|i: int| 0 <= i < b.len() - 1 ==> b[i] == bd[i]);
            assert(ext_sorted(b)) by {
                assert forall|i: int, j: int| 0 <= i < j < b.len() implies lex_lt(b[i].ts@, b[j].ts@) by {
                    if j < b.len() - 1 {
                        assert(lex_lt(bd[i].ts@, bd[j].ts@));
                    } else {
                        lemma_ext_below_element(d, key, i);
                        let k = choose|k: int| 0 <= k < d.len() && d[k] == bd[i];
                        assert(lex_lt(s[k].ts@, s[s.len() - 1].ts@));
                    }
                }
            }
        }
        if lex_lt(key, s.last().ts@) {
            assert(a == ad.push(s.last()));
            assert(forall|i: int| 0 <= i < a.len() - 1 ==> a[i] == ad[i]);
            assert(ext_sorted(a)) by {
                assert forall|i: int, j: int| 0 <= i < j < a.len() implies lex_lt(a[i].ts@, a[j].ts@) by {
                    if j < a.len() - 1 {
                        assert(lex_lt(ad[i].ts@, ad[j].ts@));
                    } else {
                        lemma_ext_above_element(d, key, i);
                        let k = choose|k: int| 0 <= k < d.len() && d[k] == ad[i];
                        assert(lex_lt(s[k].ts@, s[s.len() - 1].ts@));
                    }
                }
            }
        }
    }
}

/// Each entry kept by `ext_below` occurs in the source series.
proof fn lemma_ext_below_element(s: Seq<DailyExtrinsicsPoint>, key: Seq<char>, i: int)
    requires
        0 <= i < ext_below(s, key).len(),
    ensures
        exists|k: int| 0 <= k < s.len() && s[k] == ext_below(s, key)[i],
    decreases s.len(),
{
    if s.len() > 0 {
        let d = s.drop_last();
        let b = ext_below(s, key);
        let bd = ext_below(d, key);
        if lex_lt(s.last().ts@, key) && i == b.len() - 1 {
            assert(s[s.len() - 1] == b[i]);
        } else {
            lemma_ext_below_element(d, key, i);
            let k = choose|k: int| 0 <= k < d.len() && d[k] == bd[i];
            assert(s[k] == b[i]);
        }
    }
}

/// Each entry kept by `ext_above` occurs in the source series.
proof fn lemma_ext_above_element(s: Seq<DailyExtrinsicsPoint>, key: Seq<char>, i: int)
    requires
        0 <= i < ext_above(s, key).len(),
    ensures
        exists|k: int| 0 <= k < s.len() && s[k] == ext_above(s, key)[i],
    decreases s.len(),
{
    if s.len() > 0 {
        let d = s.drop_last();
        let a = ext_above(s, key);
        let ad = ext_above(d, key);
        if lex_lt(key, s.last().ts@) && i == a.len() - 1 {
            assert(s[s.len() - 1] == a[i]);
        } else {
            lemma_ext_above_element(d, key, i);
            let k = choose|k: int| 0 <= k < d.len() && d[k] == ad[i];
            assert(s[k] == a[i]);
        }
    }
}

/// Inserts or replaces the entry dated `point.ts`, keeps the series sorted by
/// date and drops the oldest entries beyond the window.
pub fn upsert_daily_point(series: &mut Vec<DailyPoint>, point: DailyPoint)
    ensures
        final(series)@ == upsert_daily_spec(old(series)@, point),
{
    let ghost orig = old(series)@;
    let ghost mut k: int = 0;
    let mut lo: Vec<DailyPoint> = Vec::new();
    let mut hi: Vec<DailyPoint> = Vec::new();
    proof {
        assert(orig.take(0) =~= Seq::<DailyPoint>::empty());
        assert(orig.skip(0) =~= orig);
    }
    while series.len() > 0
        invariant
            0 <= k <= orig.len(),
            series@ == orig.skip(k),
            lo@ == daily_below(orig.take(k), point.ts@),
            hi@ == daily_above(orig.take(k), point.ts@),
        decreases series@.len(),
    {
        let e = series.remove(0);
        proof {
            assert(e == orig.skip(k)[0]);
            assert(orig.skip(k)[0] == orig[k]);
            assert(orig.skip(k).remove(0) =~= orig.skip(k + 1));
            assert(orig.take(k + 1).drop_last() =~= orig.take(k));
            assert(orig.take(k + 1).last() == orig[k]);
        }
        let e_first = str_lt(e.ts.as_str(), point.ts.as_str());
        let p_first = str_lt(point.ts.as_str(), e.ts.as_str());
        proof {
            if e_first {
                lemma_lex_asymmetric(e.ts@, point.ts@);
            }
        }
        if e_first {
            lo.push(e);
        } else if p_first {
            hi.push(e);
        }
        proof {
            k = k + 1;
        }
    }
    proof {
        assert(orig.take(k) =~= orig);
    }
    lo.push(point);
    lo.append(&mut hi);
    let ghost mid = daily_below(orig, point.ts@) + seq![point] + daily_above(orig, point.ts@);
    proof {
        assert(lo@ =~= mid);
    }
    while lo.len() > DEFAULT_DAYS
        invariant
            lo@.len() <= mid.len(),
            lo@.len() >= DEFAULT_DAYS || lo@.len() == mid.len(),
            lo@ == mid.skip(mid.len() - lo@.len()),
        decreases lo@.len(),
    {
        let ghost before = lo@;
        lo.remove(0);
        proof {
            assert(before.remove(0) =~= mid.skip(mid.len() - before.len() + 1));
        }
    }
    proof {
        assert(mid.skip(0) =~= mid);
    }
    *series = lo;
}

/// Inserts or replaces the entry dated `point.ts`, keeps the series sorted by
/// date and drops the oldest entries beyond the window.
pub fn upsert_extrinsics_point(series: &mut Vec<DailyExtrinsicsPoint>, point: DailyExtrinsicsPoint)
    ensures
        final(series)@ == upsert_ext_spec(old(series)@, point),
{
    let ghost orig = old(series)@;
    let ghost mut k: int = 0;
    let mut lo: Vec<DailyExtrinsicsPoint> = Vec::new();
    let mut hi: Vec<DailyExtrinsicsPoint> = Vec::new();
    proof {
        assert(orig.take(0) =~= Seq::<DailyExtrinsicsPoint>::empty());
        assert(orig.skip(0) =~= orig);
    }
    while series.len() > 0
        invariant
            0 <= k <= orig.len(),
            series@ == orig.skip(k),
            lo@ == ext_below(orig.take(k), point.ts@),
            hi@ == ext_above(orig.take(k), point.ts@),
        decreases series@.len(),
    {
        let e = series.remove(0);
        proof {
            assert(e == orig.skip(k)[0]);
            assert(orig.skip(k)[0] == orig[k]);
            assert(orig.skip(k).remove(0) =~= orig.skip(k + 1));
            assert(orig.take(k + 1).drop_last() =~= orig.take(k));
            assert(orig.take(k + 1).last() == orig[k]);
        }
        let e_first = str_lt(e.ts.as_str(), point.ts.as_str());
        let p_first = str_lt(point.ts.as_str(), e.ts.as_str());
        proof {
            if e_first {
                lemma_lex_asymmetric(e.ts@, point.ts@);
            }
        }
        if e_first {
            lo.push(e);
        } else if p_first {
            hi.push(e);
        }
        proof {
            k = k + 1;
        }
    }
    proof {
        assert(orig.take(k) =~= orig);
    }
    lo.push(point);
    lo.append(&mut hi);
    let ghost mid = ext_below(orig, point.ts@) + seq![point] + ext_above(orig, point.ts@);
    proof {
        assert(lo@ =~= mid);
    }
    while lo.len() > DEFAULT_DAYS
        invariant
            lo@.len() <= mid.len(),
            lo@.len() >= DEFAULT_DAYS || lo@.len() == mid.len(),
            lo@ == mid.skip(mid.len() - lo@.len()),
        decreases lo@.len(),
    {
        let ghost before = lo@;
        lo.remove(0);
        proof {
            assert(before.remove(0) =~= mid.skip(mid.len() - before.len() + 1));
        }
    }
    proof {
        assert(mid.skip(0) =~= mid);
    }
    *series = lo;
}

/// Does some entry of `series` carry exactly the data of `p`?
pub fn series_has_daily_point(series: &Vec<DailyPoint>, p: &DailyPoint) -> (r: bool)
    ensures
        r == has_daily_point(series@, *p),
{
    let mut i: usize = 0;
    while i < series.len()
        invariant
            0 <= i <= series@.len(),
            forall|j: int| 0 <= j < i ==> !dp_eq(series@[j], *p),
        decreases series@.len() - i,
    {
        let e = &series[i];
        if e.ts.eq(&p.ts) && e.active == p.active && e.new_wallets == p.new_wallets {
            return true;
        }
        i = i + 1;
    }
    false
}

/// Does some entry of `series` carry exactly the data of `p`?
pub fn series_has_ext_point(series: &Vec<DailyExtrinsicsPoint>, p: &DailyExtrinsicsPoint) -> (r: bool)
    ensures
        r == has_ext_point(series@, *p),
{
    let mut i: usize = 0;
    while i < series.len()
        invariant
            0 <= i <= series@.len(),
            forall|j: int| 0 <= j < i ==> !ep_eq(series@[j], *p),
        decreases series@.len() - i,
    {
        let e = &series[i];
        if e.ts.eq(&p.ts) && e.extrinsics == p.extrinsics {
            return true;
        }
        i = i + 1;
    }
    false
}

/// Is a slice of points sorted strictly ascending by date? Restores use it to
/// reject a malformed persisted series.
pub fn daily_series_is_wf(series: &Vec<DailyPoint>) -> (r: bool)
    ensures
        r == daily_wf(series@),
{
    if series.len() > DEFAULT_DAYS {
        return false;
    }
    let mut i: usize = 0;
    while i + 1 < series.len()
        invariant
            0 <= i <= series@.len(),
            series@.len() <= DEFAULT_DAYS,
            forall|j: int, l: int| 0 <= j < l < series@.len() && l <= i ==> lex_lt(series@[j].ts@, series@[l].ts@),
        decreases series@.len() - i,
    {
        if !str_lt(series[i].ts.as_str(), series[i + 1].ts.as_str()) {
            return false;
        }
        proof {
            assert forall|j: int, l: int| 0 <= j < l < series@.len() && l <= i + 1 implies lex_lt(series@[j].ts@, series@[l].ts@) by {
                if l == i + 1 && j < i {
                    lemma_lex_transitive(series@[j].ts@, series@[i as int].ts@, series@[l].ts@);
                }
            }
        }
        i = i + 1;
    }
    true
}

/// Is a slice of extrinsics points sorted strictly ascending by date?
pub fn ext_series_is_wf(series: &Vec<DailyExtrinsicsPoint>) -> (r: bool)
    ensures
        r == ext_wf(series@),
{
    if series.len() > DEFAULT_DAYS {
        return false;
    }
    let mut i: usize = 0;
    while i + 1 < series.len()
        invariant
            0 <= i <= series@.len(),
            series@.len() <= DEFAULT_DAYS,
            forall|j: int, l: int| 0 <= j < l < series@.len() && l <= i ==> lex_lt(series@[j].ts@, series@[l].ts@),
        decreases series@.len() - i,
    {
        if !str_lt(series[i].ts.as_str(), series[i + 1].ts.as_str()) {
            return false;
        }
        proof {
            assert forall|j: int, l: int| 0 <= j < l < series@.len() && l <= i + 1 implies lex_lt(series@[j].ts@, series@[l].ts@) by {
                if l == i + 1 && j < i {
                    lemma_lex_transitive(series@[j].ts@, series@[i as int].ts@, series@[l].ts@);
                }
            }
        }
        i = i + 1;
    }
    true
}

} // verus!
