//! The entries of a directory of configuration files, and the order in
//! which its files are loaded.

use vstd::prelude::*;
use vstd::relations::{sorted_by, total_ordering};
use vstd::seq_lib::lemma_sorted_unique;
use crate::text::{bytes_of, lemma_bytes_of_injective};

verus! {

/// What kind of thing an entry of a directory is, links not followed.
#[derive(Clone, Copy, Debug, PartialEq, Eq, Structural)]
pub enum EntryKind {
    File,
    Dir,
    Symlink,
    Other,
}

impl DeepView for EntryKind {
    type V = EntryKind;

    open spec fn deep_view(&self) -> EntryKind {
        *self
    }
}

/// One entry of a directory.
#[derive(Clone, Debug, PartialEq, Eq)]
pub struct DirEntry {
    pub name: String,
    pub kind: EntryKind,
}

/// What a [`DirEntry`] holds.
pub struct DirEntryView {
    pub name: Seq<char>,
    pub kind: EntryKind,
}

impl DeepView for DirEntry {
    type V = DirEntryView;

    open spec fn deep_view(&self) -> DirEntryView {
        DirEntryView { name: self.name@, kind: self.kind }
    }
}

/// Whether the bytes `a` come before the bytes `b` or are equal to them,
/// byte by byte from the front, a shorter run before its longer ones.
pub open spec fn bytes_le(a: Seq<u8>, b: Seq<u8>) -> bool
    decreases a.len(),
{
    if a.len() == 0 {
        true
    } else if b.len() == 0 {
        false
    } else if a[0] != b[0] {
        a[0] < b[0]
    } else {
        bytes_le(a.skip(1), b.skip(1))
    }
}

/// Whether the name `a` comes before the name `b` or is equal to it, by
/// the bytes of the names.
pub open spec fn name_le(a: Seq<char>, b: Seq<char>) -> bool {
    bytes_le(bytes_of(a), bytes_of(b))
}

/// The order of names.
pub open spec fn name_order() -> spec_fn(Seq<char>, Seq<char>) -> bool {
    |a: Seq<char>, b: Seq<char>| name_le(a, b)
}

/// Whether configuration files are looked for in an entry of this kind:
/// in files and in links, not in directories.
pub open spec fn is_loaded(kind: EntryKind) -> bool {
    kind == EntryKind::File || kind == EntryKind::Symlink
}

/// The names of the files and links among `entries`, in the order of the
/// entries.
pub open spec fn file_names(entries: Seq<DirEntryView>) -> Seq<Seq<char>>
    decreases entries.len(),
{
    if entries.len() == 0 {
        Seq::empty()
    } else if is_loaded(entries.last().kind) {
        file_names(entries.drop_last()).push(entries.last().name)
    } else {
        file_names(entries.drop_last())
    }
}

/// The names of the files and links among `entries`, in the order in which
/// they are loaded: sorted by name.
pub open spec fn load_order(entries: Seq<DirEntryView>) -> Seq<Seq<char>> {
    file_names(entries).sort_by(name_order())
}

proof fn lemma_bytes_le_reflexive(a: Seq<u8>)
    ensures
        bytes_le(a, a),
    decreases a.len(),
{
    if a.len() > 0 {
        lemma_bytes_le_reflexive(a.skip(1));
    }
}

proof fn lemma_bytes_le_antisymmetric(a: Seq<u8>, b: Seq<u8>)
    requires
        bytes_le(a, b),
        bytes_le(b, a),
    ensures
        a == b,
    decreases a.len(),
{
    if a.len() == 0 || b.len() == 0 {
        assert(a =~= b);
    } else {
        lemma_bytes_le_antisymmetric(a.skip(1), b.skip(1));
        assert(a =~= seq![a[0]] + a.skip(1));
        assert(b =~= seq![b[0]] + b.skip(1));
    }
}

proof fn lemma_bytes_le_transitive(a: Seq<u8>, b: Seq<u8>, c: Seq<u8>)
    requires
        bytes_le(a, b),
        bytes_le(b, c),
    ensures
        bytes_le(a, c),
    decreases a.len(),
{
    if a.len() > 0 && b.len() > 0 && c.len() > 0 {
        if a[0] == b[0] && b[0] == c[0] {
            lemma_bytes_le_transitive(a.skip(1), b.skip(1), c.skip(1));
        }
    }
}

proof fn lemma_bytes_le_total(a: Seq<u8>, b: Seq<u8>)
    ensures
        bytes_le(a, b) || bytes_le(b, a),
    decreases a.len(),
{
    if a.len() > 0 && b.len() > 0 && a[0] == b[0] {
        lemma_bytes_le_total(a.skip(1), b.skip(1));
    }
}

/// The order of names is a total order: any two names compare, and names
/// that compare both ways are the same name.
pub proof fn lemma_name_order_is_total()
    ensures
        total_ordering(name_order()),
{
    let leq = name_order();
    assert forall|x: Seq<char>| #[trigger] leq(x, x) by {
        lemma_bytes_le_reflexive(bytes_of(x));
    }
    assert forall|x: Seq<char>, y: Seq<char>| #[trigger] leq(x, y) && #[trigger] leq(y, x) implies x
        == y by {
        lemma_bytes_le_antisymmetric(bytes_of(x), bytes_of(y));
        lemma_bytes_of_injective(x, y);
    }
    assert forall|x: Seq<char>, y: Seq<char>, z: Seq<char>| #[trigger]
        leq(x, y) && #[trigger] leq(y, z) implies leq(x, z) by {
        lemma_bytes_le_transitive(bytes_of(x), bytes_of(y), bytes_of(z));
    }
    assert forall|x: Seq<char>, y: Seq<char>| #[trigger] leq(x, y) || #[trigger] leq(y, x) by {
        lemma_bytes_le_total(bytes_of(x), bytes_of(y));
    }
}

/// The files of a directory are loaded in an order that is sorted by name
/// and that leaves no file out and takes none twice.
pub proof fn lemma_load_order_is_sorted(entries: Seq<DirEntryView>)
    ensures
        sorted_by(load_order(entries), name_order()),
        load_order(entries).to_multiset() == file_names(entries).to_multiset(),
{
    lemma_name_order_is_total();
    file_names(entries).lemma_sort_by_ensures(name_order());
}

/// The order in which the files of a directory are loaded does not depend
/// on the order in which the file system lists them: two listings with the
/// same file names give the same order.
pub proof fn lemma_load_order_ignores_listing(a: Seq<DirEntryView>, b: Seq<DirEntryView>)
    requires
        file_names(a).to_multiset() == file_names(b).to_multiset(),
    ensures
        load_order(a) == load_order(b),
{
    lemma_load_order_is_sorted(a);
    lemma_load_order_is_sorted(b);
    lemma_name_order_is_total();
    lemma_sorted_unique(load_order(a), load_order(b), name_order());
}

/// Whether the name `a` comes before the name `b` or is equal to it.
pub fn name_comes_first(a: &str, b: &str) -> (r: bool)
    ensures
        r == name_le(a@, b@),
{
    let x = a.as_bytes();
    let y = b.as_bytes();
    let mut i: usize = 0;
    assert(x@.skip(0) =~= x@ && y@.skip(0) =~= y@);
    while i < x.len() && i < y.len() && x[i] == y[i]
        invariant
            i <= x@.len(),
            i <= y@.len(),
            bytes_le(x@.skip(i as int), y@.skip(i as int)) == bytes_le(x@, y@),
        decreases x@.len() - i,
    {
        assert(x@.skip(i as int).skip(1) =~= x@.skip(i + 1));
        assert(y@.skip(i as int).skip(1) =~= y@.skip(i + 1));
        i += 1;
    }
    if i == x.len() {
        true
    } else if i == y.len() {
        false
    } else {
        x[i] < y[i]
    }
}

/// The names of the files and links among `entries`, in the order in which
/// they are loaded: sorted by name, whatever the order of `entries`.
pub fn order_entries(entries: &Vec<DirEntry>) -> (r: Vec<String>)
    ensures
        r.deep_view() == load_order(entries.deep_view()),
{
    let ghost views = entries.deep_view();
    let mut names: Vec<String> = Vec::new();
    proof {
        assert(views.take(0) =~= Seq::empty());
        assert(names.deep_view() =~= Seq::<Seq<char>>::empty());
    }
    let mut i: usize = 0;
    while i < entries.len()
        invariant
            i <= entries@.len(),
            views == entries.deep_view(),
            sorted_by(names.deep_view(), name_order()),
            names.deep_view().to_multiset() == file_names(views.take(i as int)).to_multiset(),
        decreases entries@.len() - i,
    {
        let entry = &entries[i];
        proof {
            assert(views.take(i + 1).drop_last() =~= views.take(i as int));
            assert(views.take(i + 1).last() == entry.deep_view());
        }
        if entry.kind == EntryKind::File || entry.kind == EntryKind::Symlink {
            let ghost before = names.deep_view();
            let mut at: usize = 0;
            while at < names.len() && name_comes_first(names[at].as_str(), entry.name.as_str())
                invariant
                    at <= names@.len(),
                    before == names.deep_view(),
                    forall|k: int| 0 <= k < at ==> name_le(#[trigger] before[k], entry.name@),
                decreases names@.len() - at,
            {
                assert(before[at as int] == names@[at as int]@);
                at += 1;
            }
            let name = entry.name.clone();
            names.insert(at, name);
            proof {
                let after = names.deep_view();
                assert(after =~= before.insert(at as int, name@));
                lemma_name_order_is_total();
                assert forall|p: int, q: int| 0 <= p < q < after.len() implies name_le(
                    after[p],
                    after[q],
                ) by {
                    if q == at {
                        assert(after[p] == before[p]);
                    } else if p == at {
                        assert(after[q] == before[q - 1]);
                        assert(before[at as int] == names@[at + 1]@);
                        assert(!name_le(before[at as int], name@));
                        assert(name_order()(before[at as int], name@) || name_order()(
                            name@,
                            before[at as int],
                        ));
                        if q - 1 > at {
                            assert(name_order()(before[at as int], before[q - 1]));
                            assert(name_order()(name@, before[at as int]) && name_order()(
                                before[at as int],
                                before[q - 1],
                            ) ==> name_order()(name@, before[q - 1]));
                        }
                    } else {
                        let p0 = if p < at {
                            p
                        } else {
                            p - 1
                        };
                        let q0 = if q < at {
                            q
                        } else {
                            q - 1
                        };
                        assert(after[p] == before[p0]);
                        assert(after[q] == before[q0]);
                        assert(name_order()(before[p0], before[q0]));
                    }
                }
                vstd::seq_lib::to_multiset_insert(before, at as int, name@);
                vstd::seq_lib::to_multiset_build(file_names(views.take(i as int)), name@);
            }
        }
        i += 1;
    }
    proof {
        assert(views.take(i as int) =~= views);
        lemma_load_order_is_sorted(views);
        lemma_name_order_is_total();
        lemma_sorted_unique(names.deep_view(), load_order(views), name_order());
    }
    names
}

} // verus!
