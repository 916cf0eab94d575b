use vstd::prelude::*;
use crate::path::{parent, parent_of, SEPARATOR};

verus! {

/// `a` comes strictly before `b` in byte-lexicographic order.
pub open spec fn bytes_lt(a: Seq<u8>, b: Seq<u8>) -> bool
    decreases a.len(),
{
    if a.len() == 0 {
        b.len() > 0
    } else if b.len() == 0 {
        false
    } else if a[0] != b[0] {
        a[0] < b[0]
    } else {
        bytes_lt(a.drop_first(), b.drop_first())
    }
}

/// `a` comes no later than `b` in byte-lexicographic order.
pub open spec fn bytes_le(a: Seq<u8>, b: Seq<u8>) -> bool {
    !bytes_lt(b, a)
}

/// Each string is no later than the next one.
pub open spec fn is_sorted(s: Seq<Seq<u8>>) -> bool {
    forall|i: int| 0 <= i < s.len() - 1 ==> #[trigger] bytes_le(s[i], s[i + 1])
}

/// One entry of a directory as it was read: its name, or `None` where the name
/// is not valid text, and whether it is a directory.
pub struct DirEntryInfo {
    pub name: Option<Vec<u8>>,
    pub is_dir: bool,
}

/// How an entry is shown: directories carry a trailing separator.
pub open spec fn display_name(e: DirEntryInfo) -> Option<Seq<u8>> {
    match e.name {
        Some(n) => Some(if e.is_dir { n@.push(SEPARATOR) } else { n@ }),
        None => None,
    }
}

/// The shown names of the entries that have one, in reading order.
pub open spec fn display_names(raw: Seq<DirEntryInfo>) -> Seq<Seq<u8>>
    decreases raw.len(),
{
    if raw.len() == 0 {
        Seq::empty()
    } else {
        let rest = display_names(raw.drop_last());
        match display_name(raw.last()) {
            Some(n) => rest.push(n),
            None => rest,
        }
    }
}

/// The label of the entry that leads to the parent directory.
pub open spec fn up_label() -> Seq<u8> {
    seq![85u8, 112, 32, 111, 110, 101, 32, 108, 101, 118, 101, 108]
}

/// The views of a list of byte strings.
pub open spec fn views(v: Seq<Vec<u8>>) -> Seq<Seq<u8>> {
    v.map_values(|e: Vec<u8>| e@)
}

/// A name without separators is shown ending in a separator exactly when it
/// is a directory, so directories and files never look alike.
pub proof fn directories_are_marked(e: DirEntryInfo)
    requires
        e.name matches Some(n) && forall|i: int| 0 <= i < n@.len() ==> n@[i] != SEPARATOR,
    ensures
        display_name(e) matches Some(s) && (
            (s.len() > 0 && s.last() == SEPARATOR) <==> e.is_dir),
{
}

proof fn lemma_lt_asym(a: Seq<u8>, b: Seq<u8>)
    ensures
        bytes_lt(a, b) ==> !bytes_lt(b, a),
    decreases a.len(),
{
    if a.len() > 0 && b.len() > 0 && a[0] == b[0] {
        lemma_lt_asym(a.drop_first(), b.drop_first());
    }
}

proof fn lemma_lt_trans(a: Seq<u8>, b: Seq<u8>, c: Seq<u8>)
    requires
        bytes_lt(a, b),
        bytes_lt(b, c),
    ensures
        bytes_lt(a, c),
    decreases a.len(),
{
    if a.len() > 0 && a[0] == b[0] && b[0] == c[0] {
        lemma_lt_trans(a.drop_first(), b.drop_first(), c.drop_first());
    }
}

proof fn lemma_lt_total(a: Seq<u8>, b: Seq<u8>)
    ensures
        a == b || bytes_lt(a, b) || bytes_lt(b, a),
    decreases a.len(),
{
    if a.len() > 0 && b.len() > 0 && a[0] == b[0] {
        lemma_lt_total(a.drop_first(), b.drop_first());
        if a.drop_first() == b.drop_first() {
            assert forall|i: int| 0 <= i < a.len() implies a[i] == b[i] by {
                if i > 0 {
                    assert(a[i] == a.drop_first()[i - 1]);
                    assert(b[i] == b.drop_first()[i - 1]);
                }
            }
            assert(a =~= b);
        }
    } else if a.len() == 0 && b.len() == 0 {
        assert(a =~= b);
    }
}

proof fn lemma_le_trans(a: Seq<u8>, b: Seq<u8>, c: Seq<u8>)
    requires
        bytes_le(a, b),
        bytes_le(b, c),
    ensures
        bytes_le(a, c),
{
    lemma_lt_total(a, b);
    if bytes_lt(c, a) && bytes_lt(a, b) {
        lemma_lt_trans(c, a, b);
    }
}

/// A list in which each string is no later than the next is in
/// byte-lexicographic order throughout: each string is no later than any
/// string after it.
pub proof fn sorted_is_ordered(s: Seq<Seq<u8>>)
    requires
        is_sorted(s),
    ensures
        forall|i: int, j: int| 0 <= i <= j < s.len() ==> #[trigger] bytes_le(s[i], s[j]),
{
    assert forall|i: int, j: int| 0 <= i <= j < s.len() implies #[trigger] bytes_le(s[i], s[j]) by {
        lemma_sorted_from(s, i, j);
    }
}

proof fn lemma_sorted_from(s: Seq<Seq<u8>>, i: int, j: int)
    requires
        is_sorted(s),
        0 <= i <= j < s.len(),
    ensures
        bytes_le(s[i], s[j]),
    decreases j - i,
{
    if i == j {
        lemma_lt_asym(s[i], s[i]);
    } else {
        lemma_sorted_from(s, i, j - 1);
        let k = j - 1;
        assert(bytes_le(s[k], s[k + 1]));
        lemma_le_trans(s[i], s[j - 1], s[j]);
    }
}

proof fn lemma_insert_multiset<A>(s: Seq<A>, i: int, a: A)
    requires
        0 <= i <= s.len(),
    ensures
        s.insert(i, a).to_multiset() =~= s.to_multiset().insert(a),
{
    let t = s.insert(i, a);
    assert(t.remove(i) =~= s);
    t.to_multiset_ensures();
    assert(t[i] == a);
    assert(t.contains(a));
}

/// Whether `a` comes strictly before `b` in byte-lexicographic order.
pub fn bytes_less(a: &Vec<u8>, b: &Vec<u8>) -> (r: bool)
    ensures
        r == bytes_lt(a@, b@),
{
    let mut i: usize = 0;
    assert(a@.subrange(0, a@.len() as int) =~= a@);
    assert(b@.subrange(0, b@.len() as int) =~= b@);
    while i < a.len() && i < b.len()
        invariant
            i <= a@.len(),
            i <= b@.len(),
            bytes_lt(a@, b@) == bytes_lt(a@.subrange(i as int, a@.len() as int), b@.subrange(i as int, b@.len() as int)),
        decreases a@.len() - i,
    {
        let ghost sa = a@.subrange(i as int, a@.len() as int);
        let ghost sb = b@.subrange(i as int, b@.len() as int);
        assert(sa.drop_first() =~= a@.subrange(i + 1, a@.len() as int));
        assert(sb.drop_first() =~= b@.subrange(i + 1, b@.len() as int));
        if a[i] != b[i] {
            return a[i] < b[i];
        }
        i = i + 1;
    }
    i < b.len()
}

/// Inserts `x` into the sorted list `v` so that it stays sorted.
fn insert_sorted(v: &mut Vec<Vec<u8>>, x: Vec<u8>)
    requires
        is_sorted(views(old(v)@)),
    ensures
        is_sorted(views(final(v)@)),
        views(final(v)@).to_multiset() =~= views(old(v)@).to_multiset().insert(x@),
        final(v)@.len() == old(v)@.len() + 1,
{
    let mut p: usize = 0;
    while p < v.len() && !bytes_less(&x, &v[p])
        invariant
            p <= v@.len(),
            forall|j: int| 0 <= j < p ==> #[trigger] bytes_le(v@[j]@, x@),
        decreases v@.len() - p,
    {
        p = p + 1;
    }
    let ghost before = views(v@);
    proof {
        if p < v@.len() {
            lemma_lt_asym(x@, v@[p as int]@);
        }
        lemma_insert_multiset(before, p as int, x@);
    }
    v.insert(p, x);
    assert(views(v@) =~= before.insert(p as int, x@));
    assert(is_sorted(views(v@))) by {
        assert forall|i: int| 0 <= i < views(v@).len() - 1 implies #[trigger] bytes_le(views(v@)[i], views(v@)[i + 1]) by {
            if i + 1 < p {
                assert(bytes_le(before[i], before[i + 1]));
            } else if i > p {
                let k = i - 1;
                assert(bytes_le(before[k], before[k + 1]));
            }
        }
    }
}

/// The shown entries of one directory.
pub struct FileDialogEntries {
    pub entries: Vec<Vec<u8>>,
    pub index: usize,
}

impl FileDialogEntries {
    /// The shown entries as byte strings.
    pub open spec fn names(&self) -> Seq<Seq<u8>> {
        views(self.entries@)
    }

    /// The selection lies within the entries whenever there are any.
    pub open spec fn wf(&self) -> bool {
        if self.entries@.len() == 0 {
            self.index == 0
        } else {
            self.index < self.entries@.len()
        }
    }

    /// The listing of `path`, built from what was read of it: `None` where the
    /// path could not be read as a directory.
    pub open spec fn listing_of(path: Seq<u8>, listing: Option<Seq<DirEntryInfo>>, r: Seq<Seq<u8>>) -> bool {
        match listing {
            None => r.len() == 0,
            Some(raw) => {
                let off: int = if parent_of(path) is Some { 1 } else { 0 };
                &&& r.len() == off + display_names(raw).len()
                &&& (parent_of(path) is Some ==> r[0] == up_label())
                &&& is_sorted(r.subrange(off, r.len() as int))
                &&& r.subrange(off, r.len() as int).to_multiset() =~= display_names(raw).to_multiset()
            },
        }
    }

    /// An empty listing.
    pub fn none() -> (r: FileDialogEntries)
        ensures
            r.entries@.len() == 0,
            r.index == 0,
            r.wf(),
    {
        FileDialogEntries { entries: Vec::new(), index: 0 }
    }

    /// Builds the listing of `path` from what was read of it: entries without a
    /// text name are left out, directories are marked with a trailing separator,
    /// the names are sorted by bytes, and where `path` has a parent an entry that
    /// leads to it comes first. The selection is the first entry.
    pub fn new(path: &Vec<u8>, listing: Option<Vec<DirEntryInfo>>) -> (r: FileDialogEntries)
        ensures
            r.index == 0,
            r.wf(),
            Self::listing_of(path@, match listing { Some(l) => Some(l@), None => None }, r.names()),
    {
        let raw = match listing {
            None => return FileDialogEntries::none(),
            Some(raw) => raw,
        };
        let mut sorted: Vec<Vec<u8>> = Vec::new();
        let mut i: usize = 0;
        assert(raw@.subrange(0, 0) =~= Seq::<DirEntryInfo>::empty());
        assert(views(sorted@) =~= Seq::<Seq<u8>>::empty());
        while i < raw.len()
            invariant
                i <= raw@.len(),
                is_sorted(views(sorted@)),
                views(sorted@).to_multiset() =~= display_names(raw@.subrange(0, i as int)).to_multiset(),
                sorted@.len() == display_names(raw@.subrange(0, i as int)).len(),
            decreases raw@.len() - i,
        {
            let ghost prefix = raw@.subrange(0, i as int);
            assert(raw@.subrange(0, i + 1).drop_last() =~= prefix);
            match &raw[i].name {
                None => {},
                Some(n) => {
                    let mut shown: Vec<u8> = n.clone();
                    if raw[i].is_dir {
                        shown.push(SEPARATOR);
                    }
                    proof {
                        display_names(prefix).to_multiset_ensures();
                    }
                    insert_sorted(&mut sorted, shown);
                },
            }
            i = i + 1;
        }
        assert(raw@.subrange(0, raw@.len() as int) =~= raw@);
        let ghost tail = views(sorted@);
        match parent(path) {
            Some(_) => {
                let up: Vec<u8> = vec![85u8, 112, 32, 111, 110, 101, 32, 108, 101, 118, 101, 108];
                assert(up@ =~= up_label());
                sorted.insert(0, up);
                assert(views(sorted@).subrange(1, views(sorted@).len() as int) =~= tail);
            },
            None => {
                assert(views(sorted@).subrange(0, views(sorted@).len() as int) =~= tail);
            },
        }
        FileDialogEntries { entries: sorted, index: 0 }
    }
}

} // verus!
