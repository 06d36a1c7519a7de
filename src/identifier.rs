use vstd::prelude::*;
use core::cmp::Ordering;

verus! {

/// Lexicographic comparison of two character sequences by code point.
///
/// On valid strings this is the order that `String`'s `Ord` uses: UTF-8
/// preserves code point order byte for byte.
pub open spec fn chars_cmp(a: Seq<char>, b: Seq<char>) -> Ordering
    decreases a.len(),
{
    if a.len() == 0 {
        if b.len() == 0 {
            Ordering::Equal
        } else {
            Ordering::Less
        }
    } else if b.len() == 0 {
        Ordering::Greater
    } else if a[0] < b[0] {
        Ordering::Less
    } else if a[0] > b[0] {
        Ordering::Greater
    } else {
        chars_cmp(a.drop_first(), b.drop_first())
    }
}

/// The opposite of an ordering.
pub open spec fn flip(o: Ordering) -> Ordering {
    match o {
        Ordering::Less => Ordering::Greater,
        Ordering::Equal => Ordering::Equal,
        Ordering::Greater => Ordering::Less,
    }
}

/// Order of identifiers: by name, then by version.
pub open spec fn id_cmp(a: (Seq<char>, Seq<char>), b: (Seq<char>, Seq<char>)) -> Ordering {
    match chars_cmp(a.0, b.0) {
        Ordering::Equal => chars_cmp(a.1, b.1),
        o => o,
    }
}

proof fn lemma_chars_cmp_equal(a: Seq<char>, b: Seq<char>)
    ensures
        (chars_cmp(a, b) == Ordering::Equal) <==> a == b,
    decreases a.len(),
{
    if a.len() > 0 && b.len() > 0 && a[0] == b[0] {
        lemma_chars_cmp_equal(a.drop_first(), b.drop_first());
        if a.drop_first() == b.drop_first() {
            assert(a =~= seq![a[0]] + a.drop_first());
            assert(b =~= seq![b[0]] + b.drop_first());
        }
    }
    if a == b && a.len() > 0 {
        assert(a.drop_first() =~= b.drop_first());
    }
    if a.len() == 0 && b.len() == 0 {
        assert(a =~= b);
    }
}

proof fn lemma_chars_cmp_flip(a: Seq<char>, b: Seq<char>)
    ensures
        chars_cmp(b, a) == flip(chars_cmp(a, b)),
    decreases a.len(),
{
    if a.len() > 0 && b.len() > 0 && a[0] == b[0] {
        lemma_chars_cmp_flip(a.drop_first(), b.drop_first());
    }
}

proof fn lemma_chars_cmp_trans(a: Seq<char>, b: Seq<char>, c: Seq<char>)
    requires
        chars_cmp(a, b) == Ordering::Less,
        chars_cmp(b, c) == Ordering::Less,
    ensures
        chars_cmp(a, c) == Ordering::Less,
    decreases a.len(),
{
    if a.len() > 0 && b.len() > 0 && c.len() > 0 && a[0] == b[0] && b[0]
        == c[0] {
        lemma_chars_cmp_trans(a.drop_first(), b.drop_first(), c.drop_first());
    }
}

/// One published revision of a package: its name and its version.
#[derive(Debug, Clone, Eq, Ord, Hash)]
pub struct PraziCrate {
    pub name: String,
    pub version: String,
}

impl View for PraziCrate {
    type V = (Seq<char>, Seq<char>);

    open spec fn view(&self) -> (Seq<char>, Seq<char>) {
        (self.name@, self.version@)
    }
}

fn compare_strs(a: &str, b: &str) -> (r: Ordering)
    ensures
        r == chars_cmp(a@, b@),
{
    let la = a.unicode_len();
    let lb = b.unicode_len();
    let mut i: usize = 0;
    assert(a@.skip(0) =~= a@);
    assert(b@.skip(0) =~= b@);
    while i < la && i < lb
        invariant
            la == a@.len(),
            lb == b@.len(),
            i <= la,
            i <= lb,
            chars_cmp(a@, b@) == chars_cmp(a@.skip(i as int), b@.skip(i as int)),
        decreases la - i,
    {
        let ca = a.get_char(i);
        let cb = b.get_char(i);
        assert(a@.skip(i as int).drop_first() =~= a@.skip(i + 1));
        assert(b@.skip(i as int).drop_first() =~= b@.skip(i + 1));
        if ca < cb {
            return Ordering::Less;
        } else if ca > cb {
            return Ordering::Greater;
        }
        i = i + 1;
    }
    if i < la {
        Ordering::Greater
    } else if i < lb {
        Ordering::Less
    } else {
        Ordering::Equal
    }
}

impl PraziCrate {
    /// An identifier from its name and its version.
    pub fn new(name: &str, version: &str) -> (r: PraziCrate)
        ensures
            r@ == (name@, version@),
    {
        PraziCrate { name: name.to_owned(), version: version.to_owned() }
    }

    /// Compares by name, then by version.
    pub fn compare(&self, other: &PraziCrate) -> (r: Ordering)
        ensures
            r == id_cmp(self@, other@),
    {
        let n = compare_strs(self.name.as_str(), other.name.as_str());
        match n {
            Ordering::Equal => compare_strs(self.version.as_str(), other.version.as_str()),
            _ => n,
        }
    }
}

impl PartialEq for PraziCrate {
    fn eq(&self, other: &PraziCrate) -> (r: bool)
        ensures
            r == (self@ == other@),
    {
        self.name == other.name && self.version == other.version
    }
}

impl vstd::std_specs::cmp::PartialEqSpecImpl for PraziCrate {
    open spec fn obeys_eq_spec() -> bool {
        true
    }

    open spec fn eq_spec(&self, other: &PraziCrate) -> bool {
        self@ == other@
    }
}

impl PartialOrd for PraziCrate {
    fn partial_cmp(&self, other: &PraziCrate) -> (r: Option<Ordering>)
        ensures
            r == Some(id_cmp(self@, other@)),
    {
        Some(self.compare(other))
    }
}

impl vstd::std_specs::cmp::PartialOrdSpecImpl for PraziCrate {
    open spec fn obeys_partial_cmp_spec() -> bool {
        true
    }

    open spec fn partial_cmp_spec(&self, other: &PraziCrate) -> Option<Ordering> {
        Some(id_cmp(self@, other@))
    }
}

/// Identifiers compare equal exactly when name and version are equal, the
/// comparison is antisymmetric, and it is transitive: a total order keyed by
/// name, then version.
pub proof fn lemma_identifier_order(a: PraziCrate, b: PraziCrate, c: PraziCrate)
    ensures
        (id_cmp(a@, b@) == Ordering::Equal) <==> a@ == b@,
        id_cmp(b@, a@) == flip(id_cmp(a@, b@)),
        id_cmp(a@, b@) == Ordering::Less && id_cmp(b@, c@) == Ordering::Less ==> id_cmp(a@, c@)
            == Ordering::Less,
        chars_cmp(a.name@, b.name@) == Ordering::Less ==> id_cmp(a@, b@) == Ordering::Less,
{
    lemma_chars_cmp_equal(a.name@, b.name@);
    lemma_chars_cmp_equal(a.version@, b.version@);
    lemma_chars_cmp_flip(a.name@, b.name@);
    lemma_chars_cmp_flip(a.version@, b.version@);
    lemma_chars_cmp_equal(b.name@, c.name@);
    lemma_chars_cmp_equal(a.name@, c.name@);
    if id_cmp(a@, b@) == Ordering::Less && id_cmp(b@, c@) == Ordering::Less {
        if chars_cmp(a.name@, b.name@) == Ordering::Less && chars_cmp(b.name@, c.name@)
            == Ordering::Less {
            lemma_chars_cmp_trans(a.name@, b.name@, c.name@);
        } else if a.name@ == b.name@ && b.name@ == c.name@ {
            lemma_chars_cmp_trans(a.version@, b.version@, c.version@);
        }
    }
}

} // verus!
