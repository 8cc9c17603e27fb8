//! Stable ordering of records by CPU usage, highest first.

use vstd::prelude::*;

use crate::record::ProcessRecord;

verus! {

/// No record has a lower CPU key than a record after it.
pub open spec fn cpu_descending(s: Seq<ProcessRecord>) -> bool {
    forall|i: int, j: int| 0 <= i < j < s.len() ==> s[i].cpu_key >= s[j].cpu_key
}

/// The records of `s` whose CPU key is `key`, in the order they stand in `s`.
pub open spec fn with_cpu(s: Seq<ProcessRecord>, key: u32) -> Seq<ProcessRecord>
    decreases s.len(),
{
    if s.len() == 0 {
        Seq::empty()
    } else {
        let rest = with_cpu(s.drop_last(), key);
        if s.last().cpu_key == key {
            rest.push(s.last())
        } else {
            rest
        }
    }
}

/// `out` holds the records of `s` ordered by CPU key, highest first, where
/// records with equal keys keep the relative order they have in `s`.
pub open spec fn is_cpu_order_of(out: Seq<ProcessRecord>, s: Seq<ProcessRecord>) -> bool {
    &&& cpu_descending(out)
    &&& forall|key: u32| #[trigger] with_cpu(out, key) == with_cpu(s, key)
}

/// The stable, CPU-descending order of `s`; it exists and is unique
/// (`lemma_cpu_order`).
pub open spec fn cpu_order(s: Seq<ProcessRecord>) -> Seq<ProcessRecord> {
    choose|out: Seq<ProcessRecord>| is_cpu_order_of(out, s)
}

proof fn lemma_with_cpu_add(a: Seq<ProcessRecord>, b: Seq<ProcessRecord>, key: u32)
    ensures
        with_cpu(a + b, key) == with_cpu(a, key) + with_cpu(b, key),
    decreases b.len(),
{
    if b.len() == 0 {
        assert(a + b =~= a);
        assert(with_cpu(a, key) + with_cpu(b, key) =~= with_cpu(a, key));
    } else {
        assert((a + b).drop_last() =~= a + b.drop_last());
        assert((a + b).last() == b.last());
        lemma_with_cpu_add(a, b.drop_last(), key);
        if b.last().cpu_key == key {
            assert(with_cpu(a, key) + with_cpu(b.drop_last(), key).push(b.last()) =~= (
            with_cpu(a, key) + with_cpu(b.drop_last(), key)).push(b.last()));
        }
    }
}

/// A record stands in `with_cpu(s, key)` exactly when it stands in `s` with that key.
proof fn lemma_with_cpu_members(s: Seq<ProcessRecord>, key: u32)
    ensures
        forall|x: ProcessRecord| #[trigger]
            with_cpu(s, key).contains(x) <==> (s.contains(x) && x.cpu_key == key),
    decreases s.len(),
{
    if s.len() > 0 {
        let p = s.drop_last();
        lemma_with_cpu_members(p, key);
        assert forall|x: ProcessRecord| #[trigger]
            with_cpu(s, key).contains(x) <==> (s.contains(x) && x.cpu_key == key) by {
            assert(s =~= p.push(s.last()));
            if s.contains(x) {
                let i = choose|i: int| 0 <= i < s.len() && s[i] == x;
                if i < s.len() - 1 {
                    assert(p[i] == x);
                }
            }
            if p.contains(x) {
                let i = choose|i: int| 0 <= i < p.len() && p[i] == x;
                assert(s[i] == x);
            }
            let w = with_cpu(p, key);
            if s.last().cpu_key == key {
                assert(w.push(s.last())[w.len() as int] == s.last());
                if w.push(s.last()).contains(x) {
                    let i = choose|i: int| 0 <= i < w.len() + 1 && w.push(s.last())[i] == x;
                    if i < w.len() {
                        assert(w[i] == x);
                    }
                }
                if w.contains(x) {
                    let i = choose|i: int| 0 <= i < w.len() && w[i] == x;
                    assert(w.push(s.last())[i] == x);
                }
            }
        }
    }
}

/// Finds where a record with CPU key `key` goes in a descending sequence:
/// everything before the split ranks at least as high, everything after lower.
proof fn lemma_split(t: Seq<ProcessRecord>, key: u32) -> (j: int)
    requires
        cpu_descending(t),
    ensures
        0 <= j <= t.len(),
        forall|i: int| 0 <= i < j ==> t[i].cpu_key >= key,
        forall|i: int| j <= i < t.len() ==> t[i].cpu_key < key,
    decreases t.len(),
{
    if t.len() == 0 {
        0
    } else if t.last().cpu_key >= key {
        t.len() as int
    } else {
        let j = lemma_split(t.drop_last(), key);
        assert forall|i: int| j <= i < t.len() implies t[i].cpu_key < key by {
            if i < t.len() - 1 {
                assert(t.drop_last()[i] == t[i]);
            }
        }
        assert forall|i: int| 0 <= i < j implies t[i].cpu_key >= key by {
            assert(t.drop_last()[i] == t[i]);
        }
        j
    }
}

/// Inserting the next record of the input at its split point keeps the
/// output a stable CPU order of the longer input.
proof fn lemma_insert_step(out: Seq<ProcessRecord>, s: Seq<ProcessRecord>, x: ProcessRecord, j: int)
    requires
        is_cpu_order_of(out, s),
        0 <= j <= out.len(),
        forall|i: int| 0 <= i < j ==> out[i].cpu_key >= x.cpu_key,
        forall|i: int| j <= i < out.len() ==> out[i].cpu_key < x.cpu_key,
    ensures
        is_cpu_order_of(out.insert(j, x), s.push(x)),
{
    let pre = out.subrange(0, j);
    let suf = out.subrange(j, out.len() as int);
    let ins = out.insert(j, x);
    assert(ins =~= pre + seq![x] + suf);
    assert(out =~= pre + suf);
    assert(s.push(x).drop_last() =~= s);
    assert forall|i: int, k: int| 0 <= i < k < ins.len() implies ins[i].cpu_key
        >= ins[k].cpu_key by {
        if k < j {
        } else if k == j {
        } else if i < j {
            assert(ins[k] == out[k - 1]);
        } else if i == j {
            assert(ins[k] == out[k - 1]);
        } else {
            assert(ins[k] == out[k - 1]);
            assert(ins[i] == out[i - 1]);
        }
    }
    assert forall|key: u32| #[trigger] with_cpu(ins, key) == with_cpu(s.push(x), key) by {
        lemma_with_cpu_add(pre + seq![x], suf, key);
        lemma_with_cpu_add(pre, seq![x], key);
        lemma_with_cpu_add(pre, suf, key);
        let e = Seq::<ProcessRecord>::empty();
        assert(with_cpu(e, key) =~= e);
        assert(seq![x].drop_last() =~= e);
        assert(seq![x].last() == x);
        if key == x.cpu_key {
            lemma_with_cpu_members(suf, key);
            if with_cpu(suf, key).len() > 0 {
                assert(with_cpu(suf, key).contains(with_cpu(suf, key)[0]));
                let i = choose|i: int| 0 <= i < suf.len() && suf[i] == with_cpu(suf, key)[0];
                assert(suf[i] == out[j + i]);
            }
            assert(with_cpu(suf, key) =~= Seq::<ProcessRecord>::empty());
            assert(e.push(x) =~= seq![x]);
            assert(with_cpu(seq![x], key) =~= seq![x]);
            assert(with_cpu(pre, key) + seq![x] + Seq::<ProcessRecord>::empty() =~= (with_cpu(
                pre,
                key,
            ) + Seq::<ProcessRecord>::empty()).push(x));
        } else {
            assert(with_cpu(seq![x], key) =~= Seq::<ProcessRecord>::empty());
            assert(with_cpu(pre, key) + Seq::<ProcessRecord>::empty() =~= with_cpu(pre, key));
        }
    }
}

/// Two CPU-descending sequences with the same records per key are equal.
proof fn lemma_same_groups_equal(a: Seq<ProcessRecord>, b: Seq<ProcessRecord>)
    requires
        cpu_descending(a),
        cpu_descending(b),
        forall|key: u32| #[trigger] with_cpu(a, key) == with_cpu(b, key),
    ensures
        a == b,
    decreases a.len(),
{
    if a.len() == 0 {
        if b.len() > 0 {
            assert(with_cpu(a, b.last().cpu_key) == with_cpu(b, b.last().cpu_key));
        }
        assert(a =~= b);
    } else {
        let m = a.last().cpu_key;
        assert(with_cpu(a, m) == with_cpu(b, m));
        assert(with_cpu(a, m).len() > 0);
        if b.len() == 0 {
            assert(false);
        }
        let n = b.last().cpu_key;
        assert(with_cpu(a, n) == with_cpu(b, n));
        lemma_with_cpu_members(a, m);
        lemma_with_cpu_members(b, m);
        lemma_with_cpu_members(a, n);
        lemma_with_cpu_members(b, n);
        assert(with_cpu(a, m).contains(a.last())) by {
            assert(with_cpu(a, m).last() == a.last());
        }
        assert(b.contains(a.last()));
        let ib = choose|i: int| 0 <= i < b.len() && b[i] == a.last();
        assert(with_cpu(b, n).contains(b.last())) by {
            assert(with_cpu(b, n).last() == b.last());
        }
        assert(a.contains(b.last()));
        let ia = choose|i: int| 0 <= i < a.len() && a[i] == b.last();
        if ib < b.len() - 1 {
            assert(b[ib].cpu_key >= b[b.len() - 1].cpu_key);
        }
        if ia < a.len() - 1 {
            assert(a[ia].cpu_key >= a[a.len() - 1].cpu_key);
        }
        assert(m == n);
        assert(a.last() == b.last()) by {
            assert(with_cpu(a, m).last() == a.last());
            assert(with_cpu(b, m).last() == b.last());
        }
        let a1 = a.drop_last();
        let b1 = b.drop_last();
        assert forall|key: u32| #[trigger] with_cpu(a1, key) == with_cpu(b1, key) by {
            assert(with_cpu(a, key) == with_cpu(b, key));
            if key == m {
                assert(with_cpu(a1, key) =~= with_cpu(a, key).drop_last());
                assert(with_cpu(b1, key) =~= with_cpu(b, key).drop_last());
            }
        }
        lemma_same_groups_equal(a1, b1);
        assert(a =~= a1.push(a.last()));
        assert(b =~= b1.push(b.last()));
    }
}

/// Every sequence has a stable CPU-descending order of the same length.
proof fn lemma_cpu_order_exists(s: Seq<ProcessRecord>)
    ensures
        exists|out: Seq<ProcessRecord>| is_cpu_order_of(out, s) && out.len() == s.len(),
    decreases s.len(),
{
    if s.len() == 0 {
        assert(is_cpu_order_of(s, s));
    } else {
        let p = s.drop_last();
        let x = s.last();
        lemma_cpu_order_exists(p);
        let t = choose|out: Seq<ProcessRecord>| is_cpu_order_of(out, p) && out.len() == p.len();
        let j = lemma_split(t, x.cpu_key);
        lemma_insert_step(t, p, x, j);
        assert(p.push(x) =~= s);
        assert(is_cpu_order_of(t.insert(j, x), s) && t.insert(j, x).len() == s.len());
    }
}

/// The stable CPU-descending order of a sequence exists and is the only one:
/// `cpu_order(s)` is it, and any sequence that is such an order equals it. It
/// holds the same records as `s`, as many as `s` has.
pub proof fn lemma_cpu_order(s: Seq<ProcessRecord>, out: Seq<ProcessRecord>)
    ensures
        is_cpu_order_of(cpu_order(s), s),
        is_cpu_order_of(out, s) ==> out == cpu_order(s),
        cpu_order(s).len() == s.len(),
        forall|x: ProcessRecord| #[trigger] cpu_order(s).contains(x) <==> s.contains(x),
{
    lemma_cpu_order_exists(s);
    let w = choose|w: Seq<ProcessRecord>| is_cpu_order_of(w, s) && w.len() == s.len();
    lemma_same_groups_equal(w, cpu_order(s));
    if is_cpu_order_of(out, s) {
        lemma_same_groups_equal(out, cpu_order(s));
    }
    assert forall|x: ProcessRecord| #[trigger] cpu_order(s).contains(x) <==> s.contains(x) by {
        lemma_with_cpu_members(s, x.cpu_key);
        lemma_with_cpu_members(cpu_order(s), x.cpu_key);
        assert(with_cpu(cpu_order(s), x.cpu_key) == with_cpu(s, x.cpu_key));
        assert(with_cpu(s, x.cpu_key).contains(x) <==> s.contains(x));
        assert(with_cpu(cpu_order(s), x.cpu_key).contains(x) <==> cpu_order(s).contains(x));
    }
}

/// Orders records by CPU usage, highest first; records with equal usage keep
/// the order they had.
pub fn order_by_cpu(records: Vec<ProcessRecord>) -> (r: Vec<ProcessRecord>)
    ensures
        r@ == cpu_order(records@),
{
    let ghost input = records@;
    let mut out: Vec<ProcessRecord> = Vec::new();
    for x in it: records
        invariant
            it.seq() == input,
            is_cpu_order_of(out@, input.take(it.index() as int)),
    {
        let ghost before = out@;
        let mut j: usize = out.len();
        while j > 0 && out[j - 1].cpu_key < x.cpu_key
            invariant
                out@ == before,
                j <= out.len(),
                cpu_descending(out@),
                forall|i: int| j <= i < out.len() ==> out[i].cpu_key < x.cpu_key,
            decreases j,
        {
            j = j - 1;
        }
        proof {
            assert forall|i: int| 0 <= i < j implies out[i].cpu_key >= x.cpu_key by {
                if i < j - 1 {
                    assert(out[i].cpu_key >= out[j - 1].cpu_key);
                }
            }
            let k = it.index() as int;
            lemma_insert_step(out@, input.take(k), x, j as int);
            assert(input.take(k).push(x) =~= input.take(k + 1));
        }
        out.insert(j, x);
    }
    proof {
        assert(input.take(input.len() as int) =~= input);
        lemma_cpu_order(input, out@);
    }
    out
}

} // verus!
