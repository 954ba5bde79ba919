//! The cleaning workflow: the order items are offered in, and what a session
//! of removals adds up to.

use vstd::prelude::*;
use crate::scanner::SubItem;
use crate::text::same_text;

verus! {

/// Selects the items of size `v`.
pub open spec fn size_is(v: u64) -> spec_fn(SubItem) -> bool {
    |x: SubItem| x.size == v
}

/// Largest first.
pub open spec fn sorted_by_size_desc(s: Seq<SubItem>) -> bool {
    forall|i: int, j: int| 0 <= i < j < s.len() ==> s[i].size >= s[j].size
}

/// `a` and `b` hold, for every size, the same items of that size in the same
/// order.
pub open spec fn same_order_within_sizes(a: Seq<SubItem>, b: Seq<SubItem>) -> bool {
    forall|v: u64| #[trigger] a.filter(size_is(v)) == b.filter(size_is(v))
}

proof fn lemma_filter_none(s: Seq<SubItem>, f: spec_fn(SubItem) -> bool)
    requires
        forall|i: int| 0 <= i < s.len() ==> !f(#[trigger] s[i]),
    ensures
        s.filter(f) == Seq::<SubItem>::empty(),
    decreases s.len(),
{
    reveal(Seq::filter);
    if s.len() > 0 {
        assert forall|i: int| 0 <= i < s.drop_last().len() implies !f(
            #[trigger] s.drop_last()[i],
        ) by {
            assert(s.drop_last()[i] == s[i]);
        }
        lemma_filter_none(s.drop_last(), f);
        assert(!f(s[s.len() - 1]));
    }
}

proof fn lemma_filter_single(x: SubItem, f: spec_fn(SubItem) -> bool)
    ensures
        seq![x].filter(f) == (if f(x) {
            seq![x]
        } else {
            Seq::<SubItem>::empty()
        }),
{
    reveal_with_fuel(Seq::filter, 2);
    assert(seq![x].drop_last() =~= Seq::<SubItem>::empty());
    assert(Seq::<SubItem>::empty().push(x) =~= seq![x]);
}

proof fn lemma_filter_keeps_count(s: Seq<SubItem>, f: spec_fn(SubItem) -> bool, x: SubItem)
    requires
        f(x),
    ensures
        s.filter(f).to_multiset().count(x) == s.to_multiset().count(x),
    decreases s.len(),
{
    broadcast use vstd::seq_lib::group_to_multiset_ensures;

    reveal(Seq::filter);
    if s.len() > 0 {
        let init = s.drop_last();
        lemma_filter_keeps_count(init, f, x);
        assert(s == init.push(s.last()));
        assert(s.to_multiset() == init.to_multiset().insert(s.last()));
        if f(s.last()) {
            assert(s.filter(f) == init.filter(f).push(s.last()));
            assert(s.filter(f).to_multiset() == init.filter(f).to_multiset().insert(s.last()));
        } else {
            assert(s.filter(f) == init.filter(f));
        }
    } else {
        assert(s.filter(f) =~= s);
    }
}

/// Two sequences of items that hold, size by size, the same items in the same
/// order are permutations of each other: the order within sizes pins down
/// which items there are.
pub proof fn lemma_same_order_within_sizes_is_permutation(a: Seq<SubItem>, b: Seq<SubItem>)
    requires
        same_order_within_sizes(a, b),
    ensures
        a.to_multiset() =~= b.to_multiset(),
{
    assert forall|x: SubItem| a.to_multiset().count(x) == b.to_multiset().count(x) by {
        let f = size_is(x.size);
        lemma_filter_keeps_count(a, f, x);
        lemma_filter_keeps_count(b, f, x);
        assert(a.filter(f) == b.filter(f));
    }
}

/// Some item of `a` has the size of `a`'s last item in `b` too; so the last
/// items of two sorted sequences with the same items per size have the same size.
proof fn lemma_last_sizes_agree(a: Seq<SubItem>, b: Seq<SubItem>)
    requires
        a.len() > 0,
        sorted_by_size_desc(b),
        same_order_within_sizes(a, b),
    ensures
        b.len() > 0,
        b.last().size <= a.last().size,
{
    let f = size_is(a.last().size);
    assert(a.filter(f).contains(a.last())) by {
        a.lemma_filter_contains(f, a.len() - 1);
    }
    assert(b.filter(f) == a.filter(f));
    let x = a.last();
    b.lemma_filter_contains_rev(f, x);
    let j = choose|j: int| 0 <= j < b.len() && b[j] == x;
    assert(b[j].size == a.last().size);
}

/// Dropping the last item keeps both properties.
proof fn lemma_drop_last_keeps_order(a: Seq<SubItem>, b: Seq<SubItem>)
    requires
        a.len() > 0,
        b.len() > 0,
        a.last() == b.last(),
        same_order_within_sizes(a, b),
    ensures
        same_order_within_sizes(a.drop_last(), b.drop_last()),
{
    assert forall|v: u64| #[trigger] a.drop_last().filter(size_is(v)) == b.drop_last().filter(
        size_is(v),
    ) by {
        let f = size_is(v);
        reveal(Seq::filter);
        assert(a.filter(f) == b.filter(f));
        if f(a.last()) {
            assert(a.filter(f) == a.drop_last().filter(f).push(a.last()));
            assert(b.filter(f) == b.drop_last().filter(f).push(b.last()));
            assert(a.filter(f).drop_last() =~= a.drop_last().filter(f));
            assert(b.filter(f).drop_last() =~= b.drop_last().filter(f));
        }
    }
}

/// There is exactly one order of a set of items that is largest first and
/// keeps items of equal size in a given order: two sequences that are both
/// sorted largest first and hold, size by size, the same items in the same
/// order are equal.
pub proof fn lemma_size_order_is_unique(a: Seq<SubItem>, b: Seq<SubItem>)
    requires
        sorted_by_size_desc(a),
        sorted_by_size_desc(b),
        same_order_within_sizes(a, b),
    ensures
        a == b,
    decreases a.len(),
{
    if a.len() == 0 {
        if b.len() > 0 {
            lemma_last_sizes_agree(b, a);
        }
        assert(a =~= b);
    } else {
        lemma_last_sizes_agree(a, b);
        lemma_last_sizes_agree(b, a);
        let f = size_is(a.last().size);
        reveal(Seq::filter);
        assert(a.filter(f) == b.filter(f));
        assert(a.filter(f) == a.drop_last().filter(f).push(a.last()));
        assert(b.filter(f) == b.drop_last().filter(f).push(b.last()));
        assert(a.filter(f).last() == b.filter(f).last());
        lemma_drop_last_keeps_order(a, b);
        lemma_size_order_is_unique(a.drop_last(), b.drop_last());
        assert(a =~= b.drop_last().push(b.last()));
        assert(b =~= b.drop_last().push(b.last()));
    }
}

/// Sorts items largest first; items of equal size keep their order.
pub fn sort_by_size_desc(items: Vec<SubItem>) -> (sorted: Vec<SubItem>)
    ensures
        sorted_by_size_desc(sorted@),
        same_order_within_sizes(sorted@, items@),
{
    let ghost orig = items@;
    let mut rest = items;
    let mut res: Vec<SubItem> = Vec::new();
    let ghost mut k: int = 0;
    proof {
        assert forall|v: u64| #[trigger] res@.filter(size_is(v)) == orig.take(0).filter(
            size_is(v),
        ) by {
            reveal(Seq::filter);
            assert(orig.take(0) =~= res@);
        }
        assert(orig.skip(0) =~= orig);
    }
    while rest.len() > 0
        invariant
            0 <= k <= orig.len(),
            rest@ == orig.skip(k),
            sorted_by_size_desc(res@),
            same_order_within_sizes(res@, orig.take(k)),
        decreases rest.len(),
    {
        let x = rest.remove(0);
        assert(x == orig[k]);
        assert(orig.skip(k).remove(0) =~= orig.skip(k + 1));
        let mut p: usize = 0;
        while p < res.len() && res[p].size >= x.size
            invariant
                p <= res.len(),
                forall|i: int| 0 <= i < p ==> res@[i].size >= x.size,
            decreases res.len() - p,
        {
            p += 1;
        }
        let ghost old_res = res@;
        let ghost xs = x.size;
        assert(forall|i: int| p <= i < old_res.len() ==> old_res[i].size < xs);
        res.insert(p, x);
        proof {
            let a = old_res.take(p as int);
            let b = old_res.skip(p as int);
            assert(res@ =~= a + seq![x] + b);
            assert(a + b =~= old_res);
            assert(orig.take(k + 1) =~= orig.take(k) + seq![x]);
            assert forall|v: u64| #[trigger] res@.filter(size_is(v)) == orig.take(k + 1).filter(
                size_is(v),
            ) by {
                let f = size_is(v);
                Seq::filter_distributes_over_add(a + seq![x], b, f);
                Seq::filter_distributes_over_add(a, seq![x], f);
                Seq::filter_distributes_over_add(a, b, f);
                Seq::filter_distributes_over_add(orig.take(k), seq![x], f);
                lemma_filter_single(x, f);
                assert(old_res.filter(f) == orig.take(k).filter(f));
                if xs == v {
                    assert forall|i: int| 0 <= i < b.len() implies !f(#[trigger] b[i]) by {
                        assert(b[i] == old_res[p + i]);
                    }
                    lemma_filter_none(b, f);
                    assert(a.filter(f) + seq![x] + Seq::<SubItem>::empty() =~= a.filter(f)
                        + Seq::<SubItem>::empty() + seq![x]);
                } else {
                    assert(a.filter(f) + Seq::<SubItem>::empty() + b.filter(f) =~= a.filter(f)
                        + b.filter(f) + Seq::<SubItem>::empty());
                }
            }
            assert forall|i: int, j: int| 0 <= i < j < res@.len() implies res@[i].size
                >= res@[j].size by {
                if j < p {
                } else if j == p {
                } else if i < p {
                    assert(res@[j] == old_res[j - 1]);
                } else if i == p {
                    assert(res@[j] == old_res[j - 1]);
                } else {
                    assert(res@[i] == old_res[i - 1]);
                    assert(res@[j] == old_res[j - 1]);
                }
            }
            k = k + 1;
        }
    }
    assert(orig.take(orig.len() as int) =~= orig);
    res
}


/// What happens to an item the user selected for deletion.
#[derive(PartialEq, Eq, Structural, Clone, Copy)]
pub enum RemovalStep {
    /// Dry run: report it, touch nothing.
    Simulate,
    /// Remove it from the disk.
    Delete,
}

/// The running account of a cleaning session: whether it is a dry run, how
/// many bytes the removed (or, in a dry run, the would-be-removed) items
/// held, and whether one of them was an Ollama manifest.
pub struct CleanSession {
    pub dry_run: bool,
    pub freed_bytes: u64,
    pub has_ollama: bool,
}

/// The key of Ollama items, after whose removal `ollama gc` is recommended.
pub open spec fn ollama_key() -> Seq<char> {
    "ollama"@
}

/// The sizes of `items`.
pub open spec fn item_sizes(items: Seq<SubItem>) -> Seq<u64> {
    items.map_values(|x: SubItem| x.size)
}

/// Whether one of `items` belongs to Ollama.
pub open spec fn any_ollama(items: Seq<SubItem>) -> bool {
    exists|i: int| 0 <= i < items.len() && #[trigger] items[i].key@ == ollama_key()
}

impl CleanSession {
    /// A session with nothing removed yet.
    pub fn new(dry_run: bool) -> (s: Self)
        ensures
            s.dry_run == dry_run,
            s.freed_bytes == 0,
            !s.has_ollama,
    {
        CleanSession { dry_run, freed_bytes: 0, has_ollama: false }
    }

    /// The session that a confirmation opens: none when the user refused.
    /// Items are only removed through a session's `Delete` step, so a refused
    /// confirmation removes nothing.
    pub fn after_confirmation(dry_run: bool, confirmed: bool) -> (s: Option<Self>)
        ensures
            s is Some <==> confirmed,
            s matches Some(s) ==> s.dry_run == dry_run && s.freed_bytes == 0 && !s.has_ollama,
    {
        if confirmed {
            Some(CleanSession::new(dry_run))
        } else {
            None
        }
    }

    /// What to do with the next selected item: a dry run never deletes.
    pub fn step(&self) -> (st: RemovalStep)
        ensures
            st == (if self.dry_run {
                RemovalStep::Simulate
            } else {
                RemovalStep::Delete
            }),
    {
        if self.dry_run {
            RemovalStep::Simulate
        } else {
            RemovalStep::Delete
        }
    }

    /// Counts an item of `size` bytes and key `key` as removed. Refuses, and
    /// changes nothing, when the total would not fit in `u64`.
    pub fn record(&mut self, size: u64, key: &str) -> (counted: bool)
        ensures
            counted == (old(self).freed_bytes + size <= u64::MAX),
            counted ==> final(self).freed_bytes == old(self).freed_bytes + size,
            counted ==> final(self).has_ollama == (old(self).has_ollama || key@ == ollama_key()),
            counted ==> final(self).dry_run == old(self).dry_run,
            !counted ==> *final(self) == *old(self),
    {
        match self.freed_bytes.checked_add(size) {
            Some(total) => {
                self.freed_bytes = total;
                if same_text(key, "ollama") {
                    self.has_ollama = true;
                }
                true
            },
            None => false,
        }
    }
}

/// The account of a session in which `removed` were removed, in that order:
/// the bytes freed are the sum of their sizes, and `ollama gc` is due exactly
/// when one of them belongs to Ollama. Nothing when the sum does not fit in
/// `u64`.
pub fn summarize(dry_run: bool, removed: &Vec<SubItem>) -> (s: Option<CleanSession>)
    ensures
        match s {
            Some(s) => {
                &&& s.dry_run == dry_run
                &&& s.freed_bytes == crate::scanner::sum_sizes(item_sizes(removed@))
                &&& s.has_ollama == any_ollama(removed@)
            },
            None => crate::scanner::sum_sizes(item_sizes(removed@)) > u64::MAX,
        },
{
    let mut session = CleanSession::new(dry_run);
    let mut i: usize = 0;
    while i < removed.len()
        invariant
            i <= removed.len(),
            session.dry_run == dry_run,
            session.freed_bytes == crate::scanner::sum_sizes(item_sizes(removed@.take(i as int))),
            session.has_ollama == any_ollama(removed@.take(i as int)),
        decreases removed.len() - i,
    {
        let ghost before = removed@.take(i as int);
        let ghost after = removed@.take(i + 1);
        assert(item_sizes(after).drop_last() =~= item_sizes(before));
        assert(item_sizes(after).last() == removed@[i as int].size);
        let item = &removed[i];
        if !session.record(item.size, item.key.as_str()) {
            proof {
                crate::scanner::lemma_sum_sizes_prefix(item_sizes(removed@), i + 1);
                assert(item_sizes(removed@).take(i + 1) =~= item_sizes(after));
            }
            return None;
        }
        proof {
            if any_ollama(after) {
                let j = choose|j: int| 0 <= j < after.len() && #[trigger] after[j].key@
                    == ollama_key();
                if j < i {
                    assert(before[j] == after[j]);
                }
            }
            if any_ollama(before) {
                let j = choose|j: int| 0 <= j < before.len() && #[trigger] before[j].key@
                    == ollama_key();
                assert(after[j] == before[j]);
            }
            if removed@[i as int].key@ == ollama_key() {
                assert(after[i as int] == removed@[i as int]);
            }
        }
        i += 1;
    }
    assert(removed@.take(removed.len() as int) =~= removed@);
    Some(session)
}

} // verus!
