use vstd::prelude::*;
use vstd::relations::{sorted_by, total_ordering};
use vstd::multiset::lemma_multiset_empty_len;
use vstd::seq_lib::{
    group_to_multiset_ensures, lemma_sorted_unique, to_multiset_build, to_multiset_insert,
};

verus! {

/// One child of a directory: its name and whether it is itself a directory.
pub struct DirEntry {
    pub name: String,
    pub is_dir: bool,
}

/// The mathematical value of a `DirEntry`.
pub ghost struct EntryView {
    pub name: Seq<char>,
    pub is_dir: bool,
}

impl View for DirEntry {
    type V = EntryView;

    open spec fn view(&self) -> EntryView {
        EntryView { name: self.name@, is_dir: self.is_dir }
    }
}

/// The views of a sequence of entries.
pub open spec fn entry_views(s: Seq<DirEntry>) -> Seq<EntryView> {
    s.map_values(|e: DirEntry| e@)
}

/// Case-sensitive lexicographic order on names: characters compare by code
/// point, and a proper prefix comes first.
pub open spec fn name_le(a: Seq<char>, b: Seq<char>) -> bool
    decreases a.len(),
{
    if a.len() == 0 {
        true
    } else if b.len() == 0 {
        false
    } else if a[0] != b[0] {
        a[0] < b[0]
    } else {
        name_le(a.drop_first(), b.drop_first())
    }
}

/// Listing order: every directory before every file, and within each group
/// by name.
pub open spec fn entry_le(a: EntryView, b: EntryView) -> bool {
    if a.is_dir != b.is_dir {
        a.is_dir
    } else {
        name_le(a.name, b.name)
    }
}

/// `entry_le` as a relation value, for `sorted_by` and `sort_by`.
pub open spec fn listing_order() -> spec_fn(EntryView, EntryView) -> bool {
    |a: EntryView, b: EntryView| entry_le(a, b)
}

/// The entries of a directory in listing order.
pub open spec fn sorted_entries(raw: Seq<EntryView>) -> Seq<EntryView> {
    raw.sort_by(listing_order())
}

proof fn lemma_name_le_reflexive(a: Seq<char>)
    ensures
        name_le(a, a),
    decreases a.len(),
{
    if a.len() > 0 {
        lemma_name_le_reflexive(a.drop_first());
    }
}

proof fn lemma_name_le_antisymmetric(a: Seq<char>, b: Seq<char>)
    requires
        name_le(a, b),
        name_le(b, a),
    ensures
        a == b,
    decreases a.len(),
{
    if a.len() > 0 && b.len() > 0 {
        if a[0] == b[0] {
            lemma_name_le_antisymmetric(a.drop_first(), b.drop_first());
            assert(a =~= seq![a[0]] + a.drop_first());
            assert(b =~= seq![b[0]] + b.drop_first());
        } else {
            assert(a[0] < b[0] && b[0] < a[0]);
        }
    }
}

proof fn lemma_name_le_transitive(a: Seq<char>, b: Seq<char>, c: Seq<char>)
    requires
        name_le(a, b),
        name_le(b, c),
    ensures
        name_le(a, c),
    decreases a.len(),
{
    if a.len() > 0 && b.len() > 0 && c.len() > 0 && a[0] == b[0] && b[0] == c[0] {
        lemma_name_le_transitive(a.drop_first(), b.drop_first(), c.drop_first());
    }
}

proof fn lemma_name_le_total(a: Seq<char>, b: Seq<char>)
    ensures
        name_le(a, b) || name_le(b, a),
    decreases a.len(),
{
    if a.len() > 0 && b.len() > 0 {
        if a[0] == b[0] {
            lemma_name_le_total(a.drop_first(), b.drop_first());
        }
    }
}

/// The listing order is a total order on entries.
pub proof fn lemma_listing_order_total()
    ensures
        total_ordering(listing_order()),
{
    let r = listing_order();
    assert forall|x: EntryView| #[trigger] r(x, x) by {
        lemma_name_le_reflexive(x.name);
    }
    assert forall|x: EntryView, y: EntryView| #[trigger] r(x, y) && #[trigger] r(y, x) implies x
        == y by {
        lemma_name_le_antisymmetric(x.name, y.name);
    }
    assert forall|x: EntryView, y: EntryView, z: EntryView| #[trigger] r(x, y) && #[trigger] r(
        y,
        z,
    ) implies r(x, z) by {
        if x.is_dir == y.is_dir && y.is_dir == z.is_dir {
            lemma_name_le_transitive(x.name, y.name, z.name);
        }
    }
    assert forall|x: EntryView, y: EntryView| #[trigger] r(x, y) || #[trigger] r(y, x) by {
        lemma_name_le_total(x.name, y.name);
    }
}

/// Compares two names in the order of `name_le`.
pub fn name_le_exec(a: &String, b: &String) -> (r: bool)
    ensures
        r == name_le(a@, b@),
{
    let sa = a.as_str();
    let sb = b.as_str();
    let la = sa.unicode_len();
    let lb = sb.unicode_len();
    let mut i: usize = 0;
    assert(a@.skip(0) =~= a@);
    assert(b@.skip(0) =~= b@);
    while i < la && i < lb
        invariant
            i <= la,
            i <= lb,
            la == a@.len(),
            lb == b@.len(),
            sa@ == a@,
            sb@ == b@,
            name_le(a@, b@) == name_le(a@.skip(i as int), b@.skip(i as int)),
        decreases la - i,
    {
        let ca = sa.get_char(i);
        let cb = sb.get_char(i);
        assert(a@.skip(i as int)[0] == ca);
        assert(b@.skip(i as int)[0] == cb);
        if ca != cb {
            return ca < cb;
        }
        assert(a@.skip(i as int).drop_first() =~= a@.skip(i + 1));
        assert(b@.skip(i as int).drop_first() =~= b@.skip(i + 1));
        i = i + 1;
    }
    i == la
}

/// Compares two entries in listing order.
pub fn entry_le_exec(a: &DirEntry, b: &DirEntry) -> (r: bool)
    ensures
        r == entry_le(a@, b@),
{
    if a.is_dir != b.is_dir {
        a.is_dir
    } else {
        name_le_exec(&a.name, &b.name)
    }
}

/// Puts the entries of a directory in listing order.
pub fn sort_entries(entries: Vec<DirEntry>) -> (r: Vec<DirEntry>)
    ensures
        entry_views(r@) == sorted_entries(entry_views(entries@)),
{
    broadcast use group_to_multiset_ensures;
    broadcast use vstd::multiset::group_multiset_axioms;

    proof {
        lemma_listing_order_total();
    }
    let ghost orig = entry_views(entries@);
    let mut rest = entries;
    let mut out: Vec<DirEntry> = Vec::new();
    assert(entry_views(rest@) =~= orig);
    assert(entry_views(out@) =~= Seq::<EntryView>::empty());
    proof {
        lemma_multiset_empty_len(entry_views(out@).to_multiset());
    }
    while rest.len() > 0
        invariant
            total_ordering(listing_order()),
            sorted_by(entry_views(out@), listing_order()),
            entry_views(rest@).to_multiset().add(entry_views(out@).to_multiset())
                == orig.to_multiset(),
        decreases rest.len(),
    {
        let ghost before = rest@;
        let x = rest.pop().unwrap();
        assert(entry_views(before) =~= entry_views(rest@).push(x@));
        let ghost rest_ms = entry_views(rest@).to_multiset();
        proof {
            to_multiset_build(entry_views(rest@), x@);
        }
        assert(entry_views(before).to_multiset() == rest_ms.insert(x@));
        let mut k: usize = 0;
        while k < out.len() && entry_le_exec(&out[k], &x)
            invariant
                k <= out.len(),
                forall|i: int| 0 <= i < k ==> entry_le(#[trigger] out@[i]@, x@),
            decreases out.len() - k,
        {
            k = k + 1;
        }
        let ghost old_out = entry_views(out@);
        proof {
            let r = listing_order();
            assert forall|i: int| 0 <= i < k implies #[trigger] r(old_out[i], x@) by {
                assert(old_out[i] == out@[i]@);
            }
            if k < old_out.len() {
                assert(old_out[k as int] == out@[k as int]@);
                assert(!r(old_out[k as int], x@));
                assert(r(x@, old_out[k as int]));
            }
        }
        out.insert(k, x);
        assert(entry_views(out@) =~= old_out.insert(k as int, x@));
        assert(sorted_by(entry_views(out@), listing_order())) by {
            let s = entry_views(out@);
            let r = listing_order();
            assert forall|i: int, j: int| 0 <= i < j < s.len() implies #[trigger] r(
                s[i],
                s[j],
            ) by {
                if j < k {
                    assert(r(old_out[i], old_out[j]));
                } else if j == k {
                    assert(r(old_out[i], x@));
                } else if i < k {
                    assert(r(old_out[i], x@));
                    assert(r(x@, old_out[k as int]));
                    assert(r(old_out[k as int], old_out[j - 1]) || k == j - 1);
                    assert(r(x@, old_out[j - 1]));
                } else if i == k {
                    assert(r(x@, old_out[k as int]));
                    assert(r(old_out[k as int], old_out[j - 1]) || k == j - 1);
                } else {
                    assert(r(old_out[i - 1], old_out[j - 1]));
                }
            }
        }
        proof {
            to_multiset_insert(old_out, k as int, x@);
        }
        assert(entry_views(out@).to_multiset() == old_out.to_multiset().insert(x@));
        assert(rest_ms.add(entry_views(out@).to_multiset()) =~= rest_ms.insert(x@).add(
            old_out.to_multiset(),
        ));
    }
    proof {
        let s = entry_views(out@);
        assert(entry_views(rest@) =~= Seq::<EntryView>::empty());
        lemma_multiset_empty_len(entry_views(rest@).to_multiset());
        assert(s.to_multiset() =~= orig.to_multiset());
        orig.lemma_sort_by_ensures(listing_order());
        lemma_sorted_unique(s, orig.sort_by(listing_order()), listing_order());
    }
    out
}

} // verus!
