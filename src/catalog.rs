use vstd::prelude::*;
use crate::identifier::PraziCrate;

verus! {

/// What the index lists for one package: its name and every published
/// version, withdrawn ones included, in order of publication.
pub struct IndexEntry {
    pub name: String,
    pub versions: Vec<String>,
}

impl View for IndexEntry {
    type V = (Seq<char>, Seq<Seq<char>>);

    open spec fn view(&self) -> (Seq<char>, Seq<Seq<char>>) {
        (self.name@, self.versions@.map_values(|v: String| v@))
    }
}

/// The identifiers that one index entry contributes: its most recent version
/// alone, or every version, most recent first.
pub open spec fn entry_ids(e: (Seq<char>, Seq<Seq<char>>), latest_only: bool) -> Seq<
    (Seq<char>, Seq<char>),
> {
    if latest_only {
        if e.1.len() == 0 {
            seq![]
        } else {
            seq![(e.0, e.1.last())]
        }
    } else {
        Seq::new(e.1.len(), |j: int| (e.0, e.1[e.1.len() - 1 - j]))
    }
}

/// The catalog of a list of index entries: their contributions in index order.
pub open spec fn catalog_of(entries: Seq<(Seq<char>, Seq<Seq<char>>)>, latest_only: bool) -> Seq<
    (Seq<char>, Seq<char>),
>
    decreases entries.len(),
{
    if entries.len() == 0 {
        seq![]
    } else {
        catalog_of(entries.drop_last(), latest_only) + entry_ids(entries.last(), latest_only)
    }
}

/// Every package is listed once, and each of its versions once.
pub open spec fn index_distinct(entries: Seq<(Seq<char>, Seq<Seq<char>>)>) -> bool {
    &&& forall|i: int, j: int| 0 <= i < j < entries.len() ==> entries[i].0 != entries[j].0
    &&& forall|k: int, i: int, j: int|
        0 <= k < entries.len() && 0 <= i < j < entries[k].1.len() ==> entries[k].1[i] != entries[k].1[j]
}

proof fn lemma_catalog_names(entries: Seq<(Seq<char>, Seq<Seq<char>>)>, latest_only: bool, i: int)
    requires
        0 <= i < catalog_of(entries, latest_only).len(),
    ensures
        exists|k: int| 0 <= k < entries.len() && entries[k].0 == catalog_of(entries, latest_only)[i].0,
    decreases entries.len(),
{
    let a = catalog_of(entries.drop_last(), latest_only);
    if i < a.len() {
        lemma_catalog_names(entries.drop_last(), latest_only, i);
        let k = choose|k: int| 0 <= k < entries.drop_last().len() && entries.drop_last()[k].0 == a[i].0;
        assert(entries[k].0 == catalog_of(entries, latest_only)[i].0);
    } else {
        assert(entries[entries.len() - 1].0 == catalog_of(entries, latest_only)[i].0);
    }
}

/// An index that lists each package once and each version once yields a
/// catalog without duplicate identifiers, in either policy.
pub proof fn lemma_catalog_no_duplicates(entries: Seq<(Seq<char>, Seq<Seq<char>>)>, latest_only: bool)
    requires
        index_distinct(entries),
    ensures
        catalog_of(entries, latest_only).no_duplicates(),
    decreases entries.len(),
{
    if entries.len() > 0 {
        let init = entries.drop_last();
        let e = entries.last();
        let a = catalog_of(init, latest_only);
        let b = entry_ids(e, latest_only);
        let c = catalog_of(entries, latest_only);
        assert(index_distinct(init)) by {
            assert forall|k: int, i: int, j: int|
                0 <= k < init.len() && 0 <= i < j < init[k].1.len() implies init[k].1[i] != init[k].1[j] by {
                assert(init[k] == entries[k]);
            }
        }
        lemma_catalog_no_duplicates(init, latest_only);
        assert(c == a + b);
        assert forall|i: int, j: int| 0 <= i < j < c.len() implies c[i] != c[j] by {
            if j < a.len() {
            } else if i >= a.len() {
                if !latest_only {
                    let n = e.1.len();
                    assert(entries[entries.len() - 1] == e);
                    assert(e.1[n - 1 - (i - a.len())] != e.1[n - 1 - (j - a.len())]);
                }
            } else {
                lemma_catalog_names(init, latest_only, i);
                let k = choose|k: int| 0 <= k < init.len() && init[k].0 == a[i].0;
                assert(entries[k].0 != entries[entries.len() - 1].0);
            }
        }
    }
}

pub open spec fn entries_view(entries: Seq<IndexEntry>) -> Seq<(Seq<char>, Seq<Seq<char>>)> {
    entries.map_values(|e: IndexEntry| e@)
}

pub open spec fn ids_view(list: Seq<PraziCrate>) -> Seq<(Seq<char>, Seq<char>)> {
    list.map_values(|c: PraziCrate| c@)
}

/// The ordered list of identifiers that a pipeline run works through.
pub struct Registry {
    pub list: Vec<PraziCrate>,
}

impl View for Registry {
    type V = Seq<(Seq<char>, Seq<char>)>;

    open spec fn view(&self) -> Seq<(Seq<char>, Seq<char>)> {
        ids_view(self.list@)
    }
}

impl Registry {
    /// An empty catalog.
    pub fn new() -> (r: Registry)
        ensures
            r@ == Seq::<(Seq<char>, Seq<char>)>::empty(),
    {
        let r = Registry { list: Vec::new() };
        assert(r@ =~= Seq::<(Seq<char>, Seq<char>)>::empty());
        r
    }

    fn push_id(&mut self, name: &String, version: &String)
        ensures
            final(self)@ == old(self)@.push((name@, version@)),
    {
        self.list.push(PraziCrate::new(name.as_str(), version.as_str()));
        assert(final(self)@ =~= old(self)@.push((name@, version@)));
    }

    /// Rebuilds the catalog from `entries`, dropping what it held: one
    /// identifier per package with its most recent version when
    /// `latest_only`, else every version of every package, withdrawn ones
    /// included, most recent first.
    pub fn read(&mut self, entries: &Vec<IndexEntry>, latest_only: bool)
        ensures
            final(self)@ == catalog_of(entries_view(entries@), latest_only),
    {
        self.list = Vec::new();
        let mut i: usize = 0;
        assert(entries_view(entries@).subrange(0, 0) =~= seq![]);
        assert(self@ =~= catalog_of(entries_view(entries@).subrange(0, 0), latest_only));
        while i < entries.len()
            invariant
                i <= entries@.len(),
                self@ == catalog_of(
                    entries_view(entries@).subrange(0, i as int),
                    latest_only,
                ),
            decreases entries@.len() - i,
        {
            let e = &entries[i];
            let ghost before = self@;
            let ghost ev = e@;
            let n = e.versions.len();
            if latest_only {
                if n > 0 {
                    self.push_id(&e.name, &e.versions[n - 1]);
                }
                assert(self@ =~= before + entry_ids(ev, latest_only));
            } else {
                let mut j: usize = 0;
                while j < n
                    invariant
                        n == ev.1.len(),
                        ev == e@,
                        j <= n,
                        self@ == before + entry_ids(ev, false).subrange(0, j as int),
                        !latest_only,
                    decreases n - j,
                {
                    self.push_id(&e.name, &e.versions[n - 1 - j]);
                    assert(entry_ids(ev, false).subrange(0, j + 1) =~= entry_ids(ev, false).subrange(
                        0,
                        j as int,
                    ).push((ev.0, ev.1[n - 1 - j])));
                    j = j + 1;
                }
                assert(entry_ids(ev, false).subrange(0, n as int) =~= entry_ids(ev, false));
            }
            let ghost es = entries_view(entries@);
            assert(es.subrange(0, i + 1).drop_last() =~= es.subrange(0, i as int));
            assert(es.subrange(0, i + 1).last() == ev);
            i = i + 1;
        }
        assert(entries_view(entries@).subrange(0, entries@.len() as int) =~= entries_view(entries@));
    }

    /// Rebuilds the catalog with every version of every package, withdrawn
    /// ones included, as after a refresh of the index.
    pub fn update(&mut self, entries: &Vec<IndexEntry>)
        ensures
            final(self)@ == catalog_of(entries_view(entries@), false),
    {
        self.read(entries, false);
    }
}

} // verus!
