//! Listing a process-table snapshot: name filter, CPU ordering and a cap.

use vstd::prelude::*;

use crate::ordering::{cpu_descending, cpu_order, is_cpu_order_of, lemma_cpu_order, order_by_cpu};
use crate::record::ProcessRecord;
use crate::text::{contains_text, has_substring, lower_of, lowercase};

verus! {

/// What a caller asks of a listing: an optional case-insensitive name filter,
/// and a cap on the number of records returned (`0` means no cap).
pub struct ListQuery {
    pub filter: Option<String>,
    pub limit: usize,
}

/// The answer to a listing.
///
/// `processes` are the records returned, CPU-descending; `count` is how many
/// were returned; `total_count` is how many matched the filter before the cap;
/// `scanned_count` is the size of the snapshot; `limited` says that a cap was
/// given and the matches reached it, so more may exist beyond it.
pub struct ListOutcome {
    pub processes: Vec<ProcessRecord>,
    pub count: usize,
    pub total_count: usize,
    pub scanned_count: usize,
    pub limited: bool,
}

/// A name passes the filter: no filter, or the case-folded filter occurs in
/// the case-folded name.
pub open spec fn name_selected(name: Seq<char>, filter: Option<Seq<char>>) -> bool {
    match filter {
        None => true,
        Some(f) => has_substring(lower_of(name), lower_of(f)),
    }
}

/// The records of `s` whose name passes the filter, in snapshot order.
pub open spec fn selected(s: Seq<ProcessRecord>, filter: Option<Seq<char>>) -> Seq<ProcessRecord>
    decreases s.len(),
{
    if s.len() == 0 {
        Seq::empty()
    } else {
        let rest = selected(s.drop_last(), filter);
        if name_selected(s.last().name@, filter) {
            rest.push(s.last())
        } else {
            rest
        }
    }
}

/// The first `limit` records of `s`, or all of them when `limit` is `0`.
pub open spec fn capped(s: Seq<ProcessRecord>, limit: nat) -> Seq<ProcessRecord> {
    if limit > 0 && limit < s.len() {
        s.take(limit as int)
    } else {
        s
    }
}

/// The records a listing of `snapshot` returns.
pub open spec fn listed(snapshot: Seq<ProcessRecord>, filter: Option<Seq<char>>, limit: nat) -> Seq<
    ProcessRecord,
> {
    capped(cpu_order(selected(snapshot, filter)), limit)
}

/// A record stands in `selected(s, filter)` exactly when it stands in `s`
/// and its name passes the filter.
pub proof fn lemma_selected_members(s: Seq<ProcessRecord>, filter: Option<Seq<char>>)
    ensures
        forall|x: ProcessRecord| #[trigger]
            selected(s, filter).contains(x) <==> (s.contains(x) && name_selected(x.name@, filter)),
        selected(s, filter).len() <= s.len(),
    decreases s.len(),
{
    if s.len() > 0 {
        let p = s.drop_last();
        lemma_selected_members(p, filter);
        assert(s =~= p.push(s.last()));
        assert forall|x: ProcessRecord| #[trigger]
            selected(s, filter).contains(x) <==> (s.contains(x) && name_selected(
                x.name@,
                filter,
            )) by {
            if s.contains(x) {
                let i = choose|i: int| 0 <= i < s.len() && s[i] == x;
                if i < s.len() - 1 {
                    assert(p[i] == x);
                }
            }
            if p.contains(x) {
                let i = choose|i: int| 0 <= i < p.len() && p[i] == x;
                assert(s[i] == x);
            }
            let w = selected(p, filter);
            if name_selected(s.last().name@, filter) {
                assert(w.push(s.last())[w.len() as int] == s.last());
                if w.push(s.last()).contains(x) {
                    let i = choose|i: int| 0 <= i < w.len() + 1 && w.push(s.last())[i] == x;
                    if i < w.len() {
                        assert(w[i] == x);
                    }
                }
                if w.contains(x) {
                    let i = choose|i: int| 0 <= i < w.len() && w[i] == x;
                    assert(w.push(s.last())[i] == x);
                }
            }
        }
    }
}

/// With no filter every record is kept.
proof fn lemma_selected_all(s: Seq<ProcessRecord>)
    ensures
        selected(s, None) == s,
    decreases s.len(),
{
    if s.len() > 0 {
        lemma_selected_all(s.drop_last());
        assert(s.drop_last().push(s.last()) =~= s);
    }
}

/// Keeps the records whose name contains the filter, ignoring case; with no
/// filter, keeps them all. Snapshot order is kept.
pub fn select_by_name(snapshot: Vec<ProcessRecord>, filter: &Option<String>) -> (r: Vec<
    ProcessRecord,
>)
    ensures
        r@ == selected(snapshot@, filter.deep_view()),
{
    match filter {
        None => {
            proof {
                lemma_selected_all(snapshot@);
            }
            snapshot
        },
        Some(f) => {
            let ghost input = snapshot@;
            let ghost fv = filter.deep_view();
            assert(fv == Some(f@));
            let folded = lowercase(f.as_str());
            let mut out: Vec<ProcessRecord> = Vec::new();
            for p in it: snapshot
                invariant
                    it.seq() == input,
                    fv == Some(f@),
                    folded@ == lower_of(f@),
                    out@ == selected(input.take(it.index() as int), fv),
            {
                let ghost k = it.index() as int;
                assert(input.take(k + 1).drop_last() =~= input.take(k));
                assert(input.take(k + 1).last() == p);
                let name_folded = lowercase(p.name.as_str());
                if contains_text(name_folded.as_str(), folded.as_str()) {
                    out.push(p);
                }
            }
            assert(input.take(input.len() as int) =~= input);
            out
        },
    }
}

/// Keeps the first `limit` records, or all of them when `limit` is `0`.
pub fn apply_limit(records: Vec<ProcessRecord>, limit: usize) -> (r: Vec<ProcessRecord>)
    ensures
        r@ == capped(records@, limit as nat),
{
    let mut records = records;
    if limit > 0 {
        records.truncate(limit);
    }
    records
}

/// Lists a snapshot: keeps the records whose name contains the filter
/// (ignoring case), orders them by CPU usage, highest first and stable on
/// ties, and keeps the first `limit` of them when `limit` is nonzero.
pub fn list_processes(snapshot: Vec<ProcessRecord>, query: &ListQuery) -> (r: ListOutcome)
    ensures
        r.processes@ == listed(snapshot@, query.filter.deep_view(), query.limit as nat),
        r.count == r.processes@.len(),
        r.total_count == selected(snapshot@, query.filter.deep_view()).len(),
        r.scanned_count == snapshot@.len(),
        r.limited == (query.limit > 0 && r.total_count >= query.limit),
{
    let scanned_count = snapshot.len();
    let kept = select_by_name(snapshot, &query.filter);
    let total_count = kept.len();
    let ordered = order_by_cpu(kept);
    proof {
        lemma_cpu_order(kept@, ordered@);
    }
    let processes = apply_limit(ordered, query.limit);
    let count = processes.len();
    let limited = query.limit > 0 && total_count >= query.limit;
    ListOutcome { processes, count, total_count, scanned_count, limited }
}

/// Every record a listing returns comes from the snapshot and passes the
/// filter; without a cap, every record of the snapshot that passes the filter
/// is returned.
pub proof fn lemma_listed_filter(
    snapshot: Seq<ProcessRecord>,
    filter: Option<Seq<char>>,
    limit: nat,
)
    ensures
        forall|x: ProcessRecord| #[trigger]
            listed(snapshot, filter, limit).contains(x) ==> snapshot.contains(x) && name_selected(
                x.name@,
                filter,
            ),
        limit == 0 ==> forall|x: ProcessRecord| #[trigger]
            listed(snapshot, filter, limit).contains(x) <==> snapshot.contains(x)
                && name_selected(x.name@, filter),
{
    let sel = selected(snapshot, filter);
    let ord = cpu_order(sel);
    lemma_selected_members(snapshot, filter);
    lemma_cpu_order(sel, ord);
    assert forall|x: ProcessRecord| #[trigger]
        listed(snapshot, filter, limit).contains(x) implies snapshot.contains(x) && name_selected(
            x.name@,
            filter,
        ) by {
        if limit > 0 && limit < ord.len() {
            let i = choose|i: int|
                0 <= i < ord.take(limit as int).len() && ord.take(limit as int)[i] == x;
            assert(ord[i] == x);
        }
        assert(ord.contains(x));
        assert(sel.contains(x));
    }
    if limit == 0 {
        assert forall|x: ProcessRecord| #[trigger]
            listed(snapshot, filter, limit).contains(x) <==> snapshot.contains(x) && name_selected(
                x.name@,
                filter,
            ) by {
            assert(ord.contains(x) <==> sel.contains(x));
            assert(sel.contains(x) <==> snapshot.contains(x) && name_selected(x.name@, filter));
        }
    }
}

/// In a listing, no record has lower CPU usage than the one after it.
pub proof fn lemma_listed_cpu_descending(
    snapshot: Seq<ProcessRecord>,
    filter: Option<Seq<char>>,
    limit: nat,
)
    ensures
        cpu_descending(listed(snapshot, filter, limit)),
        forall|i: int|
            0 <= i < listed(snapshot, filter, limit).len() - 1 ==> #[trigger] listed(
                snapshot,
                filter,
                limit,
            )[i].cpu_key >= listed(snapshot, filter, limit)[i + 1].cpu_key,
{
    let sel = selected(snapshot, filter);
    let ord = cpu_order(sel);
    lemma_cpu_order(sel, ord);
    assert(is_cpu_order_of(ord, sel));
    let l = listed(snapshot, filter, limit);
    assert forall|i: int, j: int| 0 <= i < j < l.len() implies l[i].cpu_key >= l[j].cpu_key by {
        assert(l[i] == ord[i] && l[j] == ord[j]);
    }
    assert forall|i: int| 0 <= i < l.len() - 1 implies #[trigger] l[i].cpu_key >= l[i
        + 1].cpu_key by {
        assert(l[i] == ord[i] && l[i + 1] == ord[i + 1]);
    }
}

/// A nonzero cap bounds the number of records returned, which is the number
/// of matches when they are fewer; `limited` is set exactly when the matches
/// reach the cap.
pub proof fn lemma_listed_cap(snapshot: Seq<ProcessRecord>, filter: Option<Seq<char>>, limit: nat)
    ensures
        limit > 0 ==> listed(snapshot, filter, limit).len() <= limit,
        listed(snapshot, filter, limit).len() == if limit > 0 && limit < selected(
            snapshot,
            filter,
        ).len() {
            limit as int
        } else {
            selected(snapshot, filter).len() as int
        },
{
    let sel = selected(snapshot, filter);
    lemma_cpu_order(sel, cpu_order(sel));
}

} // verus!
