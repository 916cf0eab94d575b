use vstd::prelude::*;

verus! {

/// The separator between the components of a path.
pub const SEPARATOR: u8 = 47;

/// Index of the last separator in `p`, or -1 when there is none.
pub open spec fn last_separator(p: Seq<u8>) -> int
    decreases p.len(),
{
    if p.len() == 0 {
        -1
    } else if p.last() == SEPARATOR {
        p.len() - 1
    } else {
        last_separator(p.drop_last())
    }
}

/// The parent of a path in normal form (absolute, or relative, with no trailing
/// separator except for the root itself). The root and the empty path have none.
pub open spec fn parent_of(p: Seq<u8>) -> Option<Seq<u8>> {
    let k = last_separator(p);
    if p.len() == 0 || p =~= seq![SEPARATOR] {
        None
    } else if k < 0 {
        Some(Seq::empty())
    } else if k == 0 {
        Some(seq![SEPARATOR])
    } else {
        Some(p.subrange(0, k))
    }
}

/// `name` appended to `p` as one more component.
pub open spec fn join(p: Seq<u8>, name: Seq<u8>) -> Seq<u8> {
    if p.len() > 0 && p.last() == SEPARATOR {
        p + name
    } else {
        p.push(SEPARATOR) + name
    }
}

proof fn lemma_last_separator_bounds(p: Seq<u8>)
    ensures
        -1 <= last_separator(p) < p.len(),
        last_separator(p) >= 0 ==> p[last_separator(p)] == SEPARATOR,
    decreases p.len(),
{
    if p.len() > 0 && p.last() != SEPARATOR {
        lemma_last_separator_bounds(p.drop_last());
    }
}

/// Position of the last separator of `p`, if any.
pub fn find_last_separator(p: &Vec<u8>) -> (r: Option<usize>)
    ensures
        match r {
            Some(k) => last_separator(p@) == k as int,
            None => last_separator(p@) == -1,
        },
{
    let mut i: usize = p.len();
    assert(p@.subrange(0, i as int) =~= p@);
    while i > 0
        invariant
            i <= p@.len(),
            last_separator(p@) == last_separator(p@.subrange(0, i as int)),
        decreases i,
    {
        let ghost q = p@.subrange(0, i as int);
        assert(q.drop_last() =~= p@.subrange(0, i - 1));
        if p[i - 1] == SEPARATOR {
            return Some(i - 1);
        }
        i = i - 1;
    }
    assert(p@.subrange(0, 0).len() == 0);
    None
}

/// The parent directory of `p`, as `parent_of` describes it.
pub fn parent(p: &Vec<u8>) -> (r: Option<Vec<u8>>)
    ensures
        match r {
            Some(q) => parent_of(p@) == Some(q@),
            None => parent_of(p@) is None,
        },
{
    proof {
        lemma_last_separator_bounds(p@);
    }
    if p.len() == 0 || (p.len() == 1 && p[0] == SEPARATOR) {
        assert(p.len() == 1 ==> p@ =~= seq![SEPARATOR]);
        return None;
    }
    assert(!(p@ =~= seq![SEPARATOR]));
    match find_last_separator(p) {
        None => Some(Vec::new()),
        Some(0) => {
            let mut root: Vec<u8> = Vec::new();
            root.push(SEPARATOR);
            assert(root@ =~= seq![SEPARATOR]);
            Some(root)
        },
        Some(k) => {
            let mut q: Vec<u8> = Vec::new();
            let mut i: usize = 0;
            while i < k
                invariant
                    k < p@.len(),
                    i <= k,
                    q@ =~= p@.subrange(0, i as int),
                decreases k - i,
            {
                q.push(p[i]);
                i = i + 1;
            }
            Some(q)
        },
    }
}

/// `name` appended to `p` as one more component.
pub fn join_path(p: &Vec<u8>, name: &Vec<u8>) -> (r: Vec<u8>)
    ensures
        r@ == join(p@, name@),
{
    let mut r: Vec<u8> = p.clone();
    if !(p.len() > 0 && p[p.len() - 1] == SEPARATOR) {
        r.push(SEPARATOR);
    }
    let ghost base = r@;
    let mut i: usize = 0;
    while i < name.len()
        invariant
            i <= name@.len(),
            r@ =~= base + name@.subrange(0, i as int),
        decreases name@.len() - i,
    {
        r.push(name[i]);
        i = i + 1;
    }
    assert(name@.subrange(0, name@.len() as int) =~= name@);
    r
}

} // verus!
