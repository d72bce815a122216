use vstd::prelude::*;

use crate::paths::{parent_of, path_parent};

verus! {

/// One row of a directory listing.
pub struct Entry {
    pub name: String,
    pub path: String,
    pub is_dir: bool,
}

/// What the contracts see of an entry.
pub struct EntryView {
    pub name: Seq<char>,
    pub path: Seq<char>,
    pub is_dir: bool,
}

impl DeepView for Entry {
    type V = EntryView;

    open spec fn deep_view(&self) -> EntryView {
        EntryView { name: self.name@, path: self.path@, is_dir: self.is_dir }
    }
}

impl Clone for Entry {
    fn clone(&self) -> (copy: Self)
        ensures
            copy == *self,
    {
        Entry { name: self.name.clone(), path: self.path.clone(), is_dir: self.is_dir }
    }
}

/// A place offered in the sidebar.
pub struct Volume {
    pub label: String,
    pub path: String,
}

/// What the contracts see of a volume.
pub struct VolumeView {
    pub label: Seq<char>,
    pub path: Seq<char>,
}

impl DeepView for Volume {
    type V = VolumeView;

    open spec fn deep_view(&self) -> VolumeView {
        VolumeView { label: self.label@, path: self.path@ }
    }
}

impl Clone for Volume {
    fn clone(&self) -> (copy: Self)
        ensures
            copy == *self,
    {
        Volume { label: self.label.clone(), path: self.path.clone() }
    }
}

// ── Ordering of names ────────────────────────────────────────────────────────

/// Lexicographic comparison of `a` and `b` from position `i` on: the first
/// differing character decides, and a proper prefix comes first.
pub open spec fn less_from(a: Seq<char>, b: Seq<char>, i: int) -> bool
    decreases a.len() - i,
{
    if i < 0 || i >= a.len() {
        i >= 0 && i == a.len() && i < b.len()
    } else if i >= b.len() {
        false
    } else if a[i] != b[i] {
        a[i] < b[i]
    } else {
        less_from(a, b, i + 1)
    }
}

/// `a` sorts strictly before `b` (the order of `str`'s `Ord`, which for UTF-8
/// agrees with the order of the characters).
pub open spec fn name_less(a: Seq<char>, b: Seq<char>) -> bool {
    less_from(a, b, 0)
}

proof fn lemma_less_from_irreflexive(a: Seq<char>, i: int)
    requires
        0 <= i <= a.len(),
    ensures
        !less_from(a, a, i),
    decreases a.len() - i,
{
    if i < a.len() {
        lemma_less_from_irreflexive(a, i + 1);
    }
}

proof fn lemma_less_from_transitive(a: Seq<char>, b: Seq<char>, c: Seq<char>, i: int)
    requires
        0 <= i,
        less_from(a, b, i),
        less_from(b, c, i),
    ensures
        less_from(a, c, i),
    decreases a.len() - i,
{
    if i < a.len() && i < b.len() && i < c.len() && a[i] == b[i] && b[i] == c[i] {
        lemma_less_from_transitive(a, b, c, i + 1);
    }
}

proof fn lemma_less_from_total(a: Seq<char>, b: Seq<char>, i: int)
    requires
        0 <= i <= a.len(),
        i <= b.len(),
        a.subrange(i, a.len() as int) != b.subrange(i, b.len() as int),
    ensures
        less_from(a, b, i) || less_from(b, a, i),
    decreases a.len() - i,
{
    if i == a.len() && i == b.len() {
        assert(a.subrange(i, a.len() as int) =~= b.subrange(i, b.len() as int));
    } else if i < a.len() && i < b.len() && a[i] == b[i] {
        if a.subrange(i + 1, a.len() as int) == b.subrange(i + 1, b.len() as int) {
            assert(a.subrange(i, a.len() as int) =~= b.subrange(i, b.len() as int)) by {
                assert(a.subrange(i + 1, a.len() as int).len() == b.subrange(
                    i + 1,
                    b.len() as int,
                ).len());
                assert(a.len() == b.len());
                assert forall|k: int| 0 <= k < a.len() - i implies a.subrange(
                    i,
                    a.len() as int,
                )[k] == b.subrange(i, b.len() as int)[k] by {
                    if k > 0 {
                        assert(a.subrange(i, a.len() as int)[k] == a.subrange(
                            i + 1,
                            a.len() as int,
                        )[k - 1]);
                        assert(b.subrange(i, b.len() as int)[k] == b.subrange(
                            i + 1,
                            b.len() as int,
                        )[k - 1]);
                    }
                }
            }
        }
        lemma_less_from_total(a, b, i + 1);
    }
}

/// `name_less` is a strict total order on texts: irreflexive, transitive,
/// and it decides between any two different texts.
pub proof fn lemma_name_less_order(a: Seq<char>, b: Seq<char>, c: Seq<char>)
    ensures
        !name_less(a, a),
        name_less(a, b) && name_less(b, c) ==> name_less(a, c),
        a != b ==> name_less(a, b) || name_less(b, a),
{
    lemma_less_from_irreflexive(a, 0);
    if a != b {
        assert(a.subrange(0, a.len() as int) =~= a);
        assert(b.subrange(0, b.len() as int) =~= b);
        lemma_less_from_total(a, b, 0);
    }
    if name_less(a, b) && name_less(b, c) {
        lemma_less_from_transitive(a, b, c, 0);
    }
}

proof fn lemma_less_from_skips_common(a: Seq<char>, b: Seq<char>, i: int, k: int)
    requires
        0 <= i <= k,
        k <= a.len(),
        k <= b.len(),
        forall|m: int| i <= m < k ==> a[m] == b[m],
    ensures
        less_from(a, b, i) == less_from(a, b, k),
    decreases k - i,
{
    if i < k {
        lemma_less_from_skips_common(a, b, i + 1, k);
    }
}

/// Names are compared character by character: after a common start, the
/// first character that differs decides, and a name that is a proper start
/// of another comes first.
pub proof fn lemma_name_less_lexicographic(a: Seq<char>, b: Seq<char>, k: int)
    ensures
        0 <= k < a.len() && k < b.len() && (forall|m: int| 0 <= m < k ==> a[m] == b[m]) && a[k]
            != b[k] ==> (name_less(a, b) <==> a[k] < b[k]),
        a.len() < b.len() && (forall|m: int| 0 <= m < a.len() ==> a[m] == b[m]) ==> name_less(
            a,
            b,
        ),
        b.len() <= a.len() && (forall|m: int| 0 <= m < b.len() ==> a[m] == b[m]) ==> !name_less(
            a,
            b,
        ),
{
    if 0 <= k < a.len() && k < b.len() && (forall|m: int| 0 <= m < k ==> a[m] == b[m]) {
        lemma_less_from_skips_common(a, b, 0, k);
    }
    if a.len() < b.len() && (forall|m: int| 0 <= m < a.len() ==> a[m] == b[m]) {
        lemma_less_from_skips_common(a, b, 0, a.len() as int);
    }
    if b.len() <= a.len() && (forall|m: int| 0 <= m < b.len() ==> a[m] == b[m]) {
        lemma_less_from_skips_common(a, b, 0, b.len() as int);
    }
}

/// Compares two texts in the order of `name_less`.
pub fn text_less(a: &str, b: &str) -> (less: bool)
    ensures
        less == name_less(a@, b@),
{
    let la: usize = a.unicode_len();
    let lb: usize = b.unicode_len();
    let mut i: usize = 0;
    while i < la && i < lb
        invariant
            la == a@.len(),
            lb == b@.len(),
            i <= la,
            i <= lb,
            name_less(a@, b@) == less_from(a@, b@, i as int),
        decreases la - i,
    {
        let ca = a.get_char(i);
        let cb = b.get_char(i);
        if ca != cb {
            return ca < cb;
        }
        i = i + 1;
    }
    i == la && i < lb
}

// ── Directory listings ───────────────────────────────────────────────────────

/// Names that start with a dot are not shown.
pub open spec fn is_hidden(name: Seq<char>) -> bool {
    name.len() > 0 && name[0] == '.'
}

/// The entries of a listing that are shown, in their listed order.
pub open spec fn visible_entries(listing: Seq<EntryView>) -> Seq<EntryView>
    decreases listing.len(),
{
    if listing.len() == 0 {
        Seq::empty()
    } else {
        let rest = visible_entries(listing.drop_last());
        if is_hidden(listing.last().name) {
            rest
        } else {
            rest.push(listing.last())
        }
    }
}

/// `a` is shown before `b`: folders come before files, and within each kind
/// names ascend.
pub open spec fn entry_before(a: EntryView, b: EntryView) -> bool {
    (a.is_dir && !b.is_dir) || (a.is_dir == b.is_dir && name_less(a.name, b.name))
}

/// No entry is shown before one that precedes it.
pub open spec fn entries_sorted(entries: Seq<EntryView>) -> bool {
    forall|i: int, j: int|
        0 <= i < j < entries.len() ==> !entry_before(#[trigger] entries[j], #[trigger] entries[i])
}

/// `entry_before` is a strict order.
pub proof fn lemma_entry_before_order(a: EntryView, b: EntryView, c: EntryView)
    ensures
        !entry_before(a, a),
        entry_before(a, b) && entry_before(b, c) ==> entry_before(a, c),
{
    lemma_name_less_order(a.name, b.name, c.name);
}

/// Whether `a` is shown before `b`.
pub fn shown_before(a: &Entry, b: &Entry) -> (before: bool)
    ensures
        before == entry_before(a.deep_view(), b.deep_view()),
{
    if a.is_dir != b.is_dir {
        a.is_dir
    } else {
        text_less(a.name.as_str(), b.name.as_str())
    }
}

/// Whether a name is hidden from the listing.
pub fn hidden_name(name: &str) -> (hidden: bool)
    ensures
        hidden == is_hidden(name@),
        hidden == (name@.len() > 0 && name@[0] == '.'),
{
    name.unicode_len() > 0 && name.get_char(0) == '.'
}

proof fn lemma_insert_to_multiset<A>(s: Seq<A>, k: int, x: A)
    requires
        0 <= k <= s.len(),
    ensures
        s.insert(k, x).to_multiset() =~= s.to_multiset().insert(x),
{
    broadcast use vstd::seq_lib::group_to_multiset_ensures;
    broadcast use vstd::multiset::group_multiset_axioms;

    let t = s.insert(k, x);
    assert(t.remove(k) =~= s);
    assert(t[k] == x);
    assert(t.to_multiset().count(x) > 0);
    assert(s.to_multiset() =~= t.to_multiset().remove(x));
}

/// Where `e` goes into the shown entries `shown`: after every entry it is
/// not shown before, so that equal entries keep the order of the listing.
pub open spec fn insertion_point(shown: Seq<EntryView>, e: EntryView) -> int
    decreases shown.len(),
{
    if shown.len() == 0 || entry_before(e, shown[0]) {
        0
    } else {
        1 + insertion_point(shown.drop_first(), e)
    }
}

/// The shown part of a listing in grid order: the visible entries, each put
/// in place as it comes, which sorts them stably by `entry_before`.
pub open spec fn arranged(listing: Seq<EntryView>) -> Seq<EntryView>
    decreases listing.len(),
{
    if listing.len() == 0 {
        Seq::empty()
    } else {
        let rest = arranged(listing.drop_last());
        let e = listing.last();
        if is_hidden(e.name) {
            rest
        } else {
            rest.insert(insertion_point(rest, e), e)
        }
    }
}

proof fn lemma_insertion_point(shown: Seq<EntryView>, e: EntryView, k: int)
    requires
        0 <= k <= shown.len(),
        forall|m: int| 0 <= m < k ==> !entry_before(e, #[trigger] shown[m]),
        k == shown.len() || entry_before(e, shown[k]),
    ensures
        insertion_point(shown, e) == k,
    decreases k,
{
    if k > 0 {
        let rest = shown.drop_first();
        assert(!entry_before(e, shown[0]));
        assert forall|m: int| 0 <= m < k - 1 implies !entry_before(e, #[trigger] rest[m]) by {
            assert(rest[m] == shown[m + 1]);
        }
        if k < shown.len() {
            assert(rest[k - 1] == shown[k]);
        }
        lemma_insertion_point(rest, e, k - 1);
    }
}

proof fn lemma_insertion_point_bounds(shown: Seq<EntryView>, e: EntryView)
    ensures
        0 <= insertion_point(shown, e) <= shown.len(),
        forall|m: int|
            0 <= m < insertion_point(shown, e) ==> !entry_before(e, #[trigger] shown[m]),
        insertion_point(shown, e) < shown.len() ==> entry_before(
            e,
            shown[insertion_point(shown, e)],
        ),
    decreases shown.len(),
{
    if shown.len() > 0 && !entry_before(e, shown[0]) {
        let rest = shown.drop_first();
        lemma_insertion_point_bounds(rest, e);
        assert forall|m: int| 0 <= m < insertion_point(shown, e) implies !entry_before(
            e,
            #[trigger] shown[m],
        ) by {
            if m > 0 {
                assert(shown[m] == rest[m - 1]);
            }
        }
    }
}

proof fn lemma_insert_sorted(shown: Seq<EntryView>, e: EntryView)
    requires
        entries_sorted(shown),
    ensures
        entries_sorted(shown.insert(insertion_point(shown, e), e)),
{
    lemma_insertion_point_bounds(shown, e);
    let k = insertion_point(shown, e);
    let after = shown.insert(k, e);
    assert forall|a: int, b: int| 0 <= a < b < after.len() implies !entry_before(
        #[trigger] after[b],
        #[trigger] after[a],
    ) by {
        if b < k {
        } else if b == k {
        } else if a < k {
            assert(!entry_before(shown[b - 1], shown[a]));
        } else if a == k {
            if b - 1 > k {
                assert(!entry_before(shown[b - 1], shown[k]));
            }
            lemma_entry_before_order(shown[b - 1], e, shown[k]);
            lemma_entry_before_order(e, e, e);
        } else {
            assert(!entry_before(shown[b - 1], shown[a - 1]));
        }
    }
}

/// The arrangement of a listing is sorted, holds exactly its visible entries,
/// and so never a hidden one.
pub proof fn lemma_arranged(listing: Seq<EntryView>)
    ensures
        entries_sorted(arranged(listing)),
        arranged(listing).to_multiset() == visible_entries(listing).to_multiset(),
    decreases listing.len(),
{
    broadcast use vstd::seq_lib::group_to_multiset_ensures;

    if listing.len() == 0 {
        assert(arranged(listing).to_multiset() =~= visible_entries(listing).to_multiset());
    } else {
        let rest = arranged(listing.drop_last());
        let e = listing.last();
        lemma_arranged(listing.drop_last());
        if !is_hidden(e.name) {
            lemma_insertion_point_bounds(rest, e);
            lemma_insert_sorted(rest, e);
            lemma_insert_to_multiset(rest, insertion_point(rest, e), e);
        }
    }
}

/// The shown part of a listing, in the order of the grid: the hidden entries
/// are left out and the rest sorted with folders first and names ascending;
/// entries that tie keep the order of the listing.
pub fn arrange_entries(listing: Vec<Entry>) -> (shown: Vec<Entry>)
    ensures
        shown.deep_view() == arranged(listing.deep_view()),
        entries_sorted(shown.deep_view()),
        shown.deep_view().to_multiset() == visible_entries(listing.deep_view()).to_multiset(),
        shown.deep_view().to_multiset() == listing.deep_view().filter(
            |e: EntryView| e.name.len() == 0 || e.name[0] != '.',
        ).to_multiset(),
        forall|i: int|
            0 <= i < listing.len() && (listing.deep_view()[i].name.len() == 0
                || listing.deep_view()[i].name[0] != '.') ==> shown.deep_view().contains(
                #[trigger] listing.deep_view()[i],
            ),
        forall|i: int|
            0 <= i < shown.len() ==> (#[trigger] shown.deep_view()[i]).name.len() == 0
                || shown.deep_view()[i].name[0] != '.',
{
    let ghost all = listing.deep_view();
    let mut shown: Vec<Entry> = Vec::new();
    let mut i: usize = 0;
    proof {
        assert(shown.deep_view() =~= Seq::<EntryView>::empty());
        assert(all.take(0) =~= Seq::<EntryView>::empty());
    }
    while i < listing.len()
        invariant
            all == listing.deep_view(),
            i <= listing.len(),
            shown.deep_view() == arranged(all.take(i as int)),
        decreases listing.len() - i,
    {
        proof {
            assert(all.take(i + 1).drop_last() =~= all.take(i as int));
            assert(all.take(i + 1).last() == all[i as int]);
        }
        let entry = &listing[i];
        if !hidden_name(entry.name.as_str()) {
            let ghost before = shown.deep_view();
            let mut k: usize = 0;
            while k < shown.len() && !shown_before(entry, &shown[k])
                invariant
                    before == shown.deep_view(),
                    k <= shown.len(),
                    forall|m: int| 0 <= m < k ==> !entry_before(entry.deep_view(), #[trigger] before[m]),
                decreases shown.len() - k,
            {
                k = k + 1;
            }
            proof {
                lemma_insertion_point(before, entry.deep_view(), k as int);
            }
            let item = entry.clone();
            shown.insert(k, item);
            proof {
                assert(shown.deep_view() =~= before.insert(k as int, entry.deep_view()));
            }
        }
        i = i + 1;
    }
    proof {
        assert(all.take(listing.len() as int) =~= all);
        lemma_arranged(all);
        lemma_shown_unless_dotted(all);
    }
    shown
}

/// Turns what reading a directory gave into the listing that is shown: a
/// failure's message passes through unchanged, and a listing is arranged by
/// `arrange_entries`.
pub fn load_entries(read: Result<Vec<Entry>, String>) -> (loaded: Result<Vec<Entry>, String>)
    ensures
        match (read, loaded) {
            (Ok(listing), Ok(shown)) => shown.deep_view() == arranged(listing.deep_view()),
            (Err(e), Err(f)) => f == e,
            _ => false,
        },
{
    match read {
        Ok(listing) => Ok(arrange_entries(listing)),
        Err(e) => Err(e),
    }
}

proof fn lemma_visible_not_hidden(listing: Seq<EntryView>)
    ensures
        forall|i: int|
            0 <= i < visible_entries(listing).len() ==> !is_hidden(
                #[trigger] visible_entries(listing)[i].name,
            ),
    decreases listing.len(),
{
    if listing.len() > 0 {
        let rest = visible_entries(listing.drop_last());
        lemma_visible_not_hidden(listing.drop_last());
        assert forall|i: int| 0 <= i < visible_entries(listing).len() implies !is_hidden(
            #[trigger] visible_entries(listing)[i].name,
        ) by {
            if i < rest.len() {
                assert(visible_entries(listing)[i] == rest[i]);
            }
        }
    }
}

/// A listing never shows a name that starts with a dot, and shows every
/// other entry of the listing.
pub proof fn lemma_dotfiles_never_shown(listing: Seq<EntryView>)
    ensures
        forall|i: int|
            0 <= i < arranged(listing).len() ==> !is_hidden(#[trigger] arranged(listing)[i].name),
        forall|i: int|
            0 <= i < listing.len() && !is_hidden(listing[i].name) ==> arranged(listing).contains(
                #[trigger] listing[i],
            ),
{
    broadcast use vstd::seq_lib::group_to_multiset_ensures;

    lemma_arranged(listing);
    lemma_visible_not_hidden(listing);
    lemma_visible_keeps(listing);
    let shown = arranged(listing);
    let v = visible_entries(listing);
    assert forall|i: int| 0 <= i < shown.len() implies !is_hidden(#[trigger] shown[i].name) by {
        assert(shown.to_multiset().count(shown[i]) > 0);
        assert(v.contains(shown[i]));
        let j = choose|j: int| 0 <= j < v.len() && v[j] == shown[i];
        assert(!is_hidden(v[j].name));
    }
    assert forall|i: int| 0 <= i < listing.len() && !is_hidden(listing[i].name) implies shown.contains(
        #[trigger] listing[i],
    ) by {
        assert(v.contains(listing[i]));
        assert(v.to_multiset().count(listing[i]) > 0);
    }
}

proof fn lemma_visible_keeps(listing: Seq<EntryView>)
    ensures
        forall|i: int|
            0 <= i < listing.len() && !is_hidden(listing[i].name) ==> visible_entries(
                listing,
            ).contains(#[trigger] listing[i]),
    decreases listing.len(),
{
    if listing.len() > 0 {
        let rest = listing.drop_last();
        lemma_visible_keeps(rest);
        let v = visible_entries(listing);
        assert forall|i: int| 0 <= i < listing.len() && !is_hidden(listing[i].name) implies v.contains(
            #[trigger] listing[i],
        ) by {
            if i < listing.len() - 1 {
                assert(listing[i] == rest[i]);
                assert(visible_entries(rest).contains(rest[i]));
                let j = choose|j: int|
                    0 <= j < visible_entries(rest).len() && visible_entries(rest)[j] == rest[i];
                if !is_hidden(listing.last().name) {
                    assert(v[j] == visible_entries(rest)[j]);
                }
            } else {
                assert(v[v.len() - 1] == listing[i]);
            }
        }
    }
}

proof fn lemma_visible_is_filter(listing: Seq<EntryView>, shows: spec_fn(EntryView) -> bool)
    requires
        forall|e: EntryView| #[trigger] shows(e) == !is_hidden(e.name),
    ensures
        visible_entries(listing) == listing.filter(shows),
    decreases listing.len(),
{
    reveal(Seq::filter);
    if listing.len() > 0 {
        lemma_visible_is_filter(listing.drop_last(), shows);
        assert(listing.filter(shows) == if shows(listing.last()) {
            listing.drop_last().filter(shows).push(listing.last())
        } else {
            listing.drop_last().filter(shows)
        });
    } else {
        assert(listing.filter(shows) =~= Seq::<EntryView>::empty());
    }
}

/// The grid shows every entry of the listing whose name does not start with
/// a dot, and nothing else: the arrangement holds, as a multiset, exactly the
/// entries of the listing whose name is empty or starts with another
/// character, and no shown name starts with a dot.
pub proof fn lemma_shown_unless_dotted(listing: Seq<EntryView>)
    ensures
        arranged(listing).to_multiset() == listing.filter(
            |e: EntryView| e.name.len() == 0 || e.name[0] != '.',
        ).to_multiset(),
        forall|i: int|
            0 <= i < listing.len() && (listing[i].name.len() == 0 || listing[i].name[0] != '.')
                ==> arranged(listing).contains(#[trigger] listing[i]),
        forall|i: int|
            0 <= i < arranged(listing).len() ==> (#[trigger] arranged(listing)[i]).name.len() == 0
                || arranged(listing)[i].name[0] != '.',
{
    lemma_arranged(listing);
    lemma_dotfiles_never_shown(listing);
    lemma_visible_is_filter(listing, |e: EntryView| e.name.len() == 0 || e.name[0] != '.');
}

/// In the grid every folder comes before every file, and within each kind
/// names never descend.
pub proof fn lemma_grid_order(listing: Seq<EntryView>)
    ensures
        forall|i: int, j: int|
            0 <= i < j < arranged(listing).len() && (#[trigger] arranged(listing)[j]).is_dir
                ==> (#[trigger] arranged(listing)[i]).is_dir,
        forall|i: int, j: int|
            0 <= i < j < arranged(listing).len() && (#[trigger] arranged(listing)[i]).is_dir
                == (#[trigger] arranged(listing)[j]).is_dir ==> !name_less(
                arranged(listing)[j].name,
                arranged(listing)[i].name,
            ),
{
    lemma_arranged(listing);
}

/// The chain of ancestors ends with the path itself, and each element is the
/// parent of the next.
pub proof fn lemma_ancestors_chain(path: Seq<char>)
    ensures
        ancestors(path).len() >= 1,
        ancestors(path).last() == path,
        forall|i: int|
            0 < i < ancestors(path).len() ==> parent_of(#[trigger] ancestors(path)[i]) == Some(
                ancestors(path)[i - 1],
            ),
    decreases path.len(),
{
    match parent_of(path) {
        Some(parent) => {
            if parent.len() < path.len() {
                lemma_ancestors_chain(parent);
                let a = ancestors(parent);
                assert forall|i: int| 0 < i < ancestors(path).len() implies parent_of(
                    #[trigger] ancestors(path)[i],
                ) == Some(ancestors(path)[i - 1]) by {
                    if i < a.len() {
                        assert(ancestors(path)[i] == a[i]);
                        assert(ancestors(path)[i - 1] == a[i - 1]);
                    } else {
                        assert(ancestors(path)[i - 1] == a.last());
                    }
                }
            }
        },
        None => {},
    }
}

// ── Volume discovery ─────────────────────────────────────────────────────────

/// The folders of the home directory offered in the sidebar when they exist;
/// each is labelled with its own name.
pub open spec fn place_folder_names() -> Seq<Seq<char>> {
    seq!["Desktop"@, "Documents"@, "Downloads"@, "Music"@, "Pictures"@, "Videos"@]
}

/// The folders of the home directory offered in the sidebar when they exist.
pub fn place_folders() -> (names: Vec<&'static str>)
    ensures
        names@.map_values(|n: &str| n@) == place_folder_names(),
{
    let mut names = Vec::new();
    names.push("Desktop");
    names.push("Documents");
    names.push("Downloads");
    names.push("Music");
    names.push("Pictures");
    names.push("Videos");
    proof {
        assert(names@.map_values(|n: &str| n@) =~= place_folder_names());
    }
    names
}

/// The sidebar's volumes: the home directory (when there is one) and the
/// folders of it that were found, the root, then the devices.
pub open spec fn volumes_of(
    home: Option<Seq<char>>,
    places: Seq<VolumeView>,
    devices: Seq<VolumeView>,
) -> Seq<VolumeView> {
    let root = VolumeView { label: "/ (root)"@, path: "/"@ };
    match home {
        Some(h) => seq![VolumeView { label: "Home"@, path: h }] + places + seq![root] + devices,
        None => seq![root] + devices,
    }
}

/// The order of the sidebar: with a home directory, Home first, then every
/// place found, in the given order, then the root, then every device, in
/// order; without one, the root and then the devices. Nothing is left out
/// and nothing added.
pub open spec fn sidebar_order(
    volumes: Seq<VolumeView>,
    home: Option<Seq<char>>,
    places: Seq<VolumeView>,
    devices: Seq<VolumeView>,
) -> bool {
    match home {
        Some(h) => {
            &&& volumes.len() == 2 + places.len() + devices.len()
            &&& volumes[0] == (VolumeView { label: "Home"@, path: h })
            &&& forall|i: int| 0 <= i < places.len() ==> volumes[1 + i] == #[trigger] places[i]
            &&& volumes[1 + places.len() as int] == (VolumeView { label: "/ (root)"@, path: "/"@ })
            &&& forall|j: int|
                0 <= j < devices.len() ==> volumes[2 + places.len() + j] == #[trigger] devices[j]
        },
        None => {
            &&& volumes.len() == 1 + devices.len()
            &&& volumes[0] == (VolumeView { label: "/ (root)"@, path: "/"@ })
            &&& forall|j: int| 0 <= j < devices.len() ==> volumes[1 + j] == #[trigger] devices[j]
        },
    }
}

/// The sidebar holds Home, each place found in the home directory in its
/// order, the root and each device in its order, and nothing else.
pub proof fn lemma_sidebar_order(
    home: Option<Seq<char>>,
    places: Seq<VolumeView>,
    devices: Seq<VolumeView>,
)
    ensures
        sidebar_order(volumes_of(home, places, devices), home, places, devices),
{
    let v = volumes_of(home, places, devices);
    match home {
        Some(h) => {
            assert forall|i: int| 0 <= i < places.len() implies v[1 + i] == #[trigger] places[i] by {
            }
            assert forall|j: int| 0 <= j < devices.len() implies v[2 + places.len() + j]
                == #[trigger] devices[j] by {}
        },
        None => {
            assert forall|j: int| 0 <= j < devices.len() implies v[1 + j] == #[trigger] devices[j] by {
            }
        },
    }
}

fn append_volumes(all: &mut Vec<Volume>, more: Vec<Volume>)
    ensures
        final(all).deep_view() == old(all).deep_view() + more.deep_view(),
{
    let ghost start = all.deep_view();
    let mut i: usize = 0;
    while i < more.len()
        invariant
            i <= more.len(),
            all.deep_view() =~= start + more.deep_view().take(i as int),
        decreases more.len() - i,
    {
        let ghost before = all.deep_view();
        all.push(more[i].clone());
        proof {
            assert(all.deep_view() =~= before.push(more.deep_view()[i as int]));
        }
        i = i + 1;
    }
    proof {
        assert(more.deep_view().take(more.len() as int) =~= more.deep_view());
    }
}

/// Puts together the sidebar's volumes. `places` are the folders of
/// `place_folders` found in the home directory, `devices` the mounted drives;
/// without a home directory, `places` are not shown.
pub fn get_volumes(
    home: Option<String>,
    places: Vec<Volume>,
    devices: Vec<Volume>,
) -> (volumes: Vec<Volume>)
    ensures
        volumes.deep_view() == volumes_of(home.deep_view(), places.deep_view(), devices.deep_view()),
        sidebar_order(volumes.deep_view(), home.deep_view(), places.deep_view(), devices.deep_view()),
{
    let mut volumes: Vec<Volume> = Vec::new();
    proof {
        assert(volumes.deep_view() =~= Seq::<VolumeView>::empty());
    }
    match home {
        Some(h) => {
            volumes.push(Volume { label: String::from_str("Home"), path: h });
            proof {
                assert(volumes.deep_view() =~= seq![volumes.deep_view()[0]]);
            }
            append_volumes(&mut volumes, places);
        },
        None => {},
    }
    let ghost before = volumes.deep_view();
    volumes.push(Volume { label: String::from_str("/ (root)"), path: String::from_str("/") });
    proof {
        assert(volumes.deep_view() =~= before.push(volumes.deep_view().last()));
    }
    append_volumes(&mut volumes, devices);
    proof {
        assert(volumes.deep_view() =~= volumes_of(
            home.deep_view(),
            places.deep_view(),
            devices.deep_view(),
        ));
        lemma_sidebar_order(home.deep_view(), places.deep_view(), devices.deep_view());
    }
    volumes
}

/// The sidebar volumes of a mounted drive `label` at `path`: each folder
/// found in it, labelled `label/name`, or the drive itself when it holds no
/// folder or could not be read (`None`).
pub open spec fn mount_volumes_of(
    label: Seq<char>,
    path: Seq<char>,
    folders: Option<Seq<(Seq<char>, Seq<char>)>>,
) -> Seq<VolumeView> {
    match folders {
        Some(found) if found.len() > 0 => found.map_values(
            |f: (Seq<char>, Seq<char>)| VolumeView { label: label + "/"@ + f.0, path: f.1 },
        ),
        _ => seq![VolumeView { label, path }],
    }
}

/// The sidebar volumes of a mounted drive; `folders` are the names and paths
/// of the folders in it, or `None` when it could not be read.
pub fn mount_volumes(
    label: String,
    path: String,
    folders: Option<Vec<(String, String)>>,
) -> (volumes: Vec<Volume>)
    ensures
        volumes.deep_view() == mount_volumes_of(label@, path@, folders.deep_view()),
{
    let mut volumes: Vec<Volume> = Vec::new();
    match folders {
        Some(found) => {
            if found.len() > 0 {
                let ghost f = found.deep_view();
                let mut i: usize = 0;
                while i < found.len()
                    invariant
                        f == found.deep_view(),
                        i <= found.len(),
                        volumes.deep_view() =~= mount_volumes_of(label@, path@, Some(f)).take(
                            i as int,
                        ),
                    decreases found.len() - i,
                {
                    let ghost before = volumes.deep_view();
                    let mut name = label.clone();
                    name.append("/");
                    name.append(found[i].0.as_str());
                    volumes.push(Volume { label: name, path: found[i].1.clone() });
                    proof {
                        assert(volumes.deep_view() =~= before.push(volumes.deep_view().last()));
                    }
                    i = i + 1;
                }
                return volumes;
            }
        },
        None => {},
    }
    volumes.push(Volume { label, path });
    proof {
        assert(volumes.deep_view() =~= mount_volumes_of(label@, path@, folders.deep_view()));
    }
    volumes
}

// ── Helpers ──────────────────────────────────────────────────────────────────

/// The ellipsis that ends a shortened name.
pub open spec fn ellipsis() -> Seq<char> {
    seq!['\u{2026}']
}

/// A text cut to at most `max` characters: unchanged when it fits, otherwise
/// its first `max - 1` characters and an ellipsis.
pub open spec fn truncated(text: Seq<char>, max: int) -> Seq<char> {
    if text.len() <= max {
        text
    } else {
        text.take(max - 1) + ellipsis()
    }
}

/// Shortens a name to fit under an icon. A text that does not fit needs room
/// for at least the ellipsis, so `max` is positive unless the text is empty.
pub fn truncate(s: &str, max: usize) -> (short: String)
    requires
        max > 0 || s@.len() == 0,
    ensures
        short@ == truncated(s@, max as int),
{
    if s.unicode_len() <= max {
        String::from_str(s)
    } else {
        let head = s.substring_char(0, max - 1);
        let mut short = String::from_str(head);
        short.append("\u{2026}");
        proof {
            reveal_strlit("\u{2026}");
            assert("\u{2026}"@ =~= ellipsis());
        }
        short
    }
}

/// A shortened name never holds more than `max` characters, and keeps the
/// start of the name.
pub proof fn lemma_truncated_fits(text: Seq<char>, max: int)
    requires
        max > 0,
    ensures
        truncated(text, max).len() <= max,
        text.len() <= max ==> truncated(text, max) == text,
        text.len() > max ==> truncated(text, max).take(max - 1) == text.take(max - 1),
{
    if text.len() > max {
        assert(truncated(text, max).take(max - 1) =~= text.take(max - 1));
    }
}

/// The chain of a path's ancestors, from the outermost to the path itself:
/// each element's parent is the element before it.
pub open spec fn ancestors(path: Seq<char>) -> Seq<Seq<char>>
    decreases path.len(),
{
    match parent_of(path) {
        Some(parent) => if parent.len() < path.len() {
            ancestors(parent).push(path)
        } else {
            seq![path]
        },
        None => seq![path],
    }
}

/// The paths shown as the breadcrumbs of the address bar: the current
/// directory and each of its ancestors, outermost first. The outermost has
/// no parent.
pub fn ancestor_paths(current: &String) -> (chain: Vec<String>)
    ensures
        chain.deep_view() == ancestors(current@),
        chain.len() >= 1,
        parent_of(chain.deep_view()[0]) is None,
{
    let mut chain: Vec<String> = Vec::new();
    let mut p = current.clone();
    loop
        invariant
            ancestors(current@) == ancestors(p@) + chain.deep_view(),
        decreases p@.len(),
    {
        let ghost tail = chain.deep_view();
        match path_parent(p.as_str()) {
            Some(parent) => {
                proof {
                    assert(ancestors(p@) == ancestors(parent@).push(p@));
                }
                chain.insert(0, p);
                proof {
                    assert(chain.deep_view() =~= seq![p@] + tail);
                    assert(ancestors(parent@).push(p@) + tail =~= ancestors(parent@) + (seq![p@] + tail));
                }
                p = parent;
            },
            None => {
                let ghost last = p@;
                chain.insert(0, p);
                proof {
                    assert(chain.deep_view() =~= seq![last] + tail);
                    assert(chain.deep_view()[0] == last);
                }
                return chain;
            },
        }
    }
}

} // verus!
