use vstd::prelude::*;

verus! {

/// Size in bytes of the edit buffer of a text field, terminator included.
pub const MAX_TEXT_LENGTH: usize = 1024;

/// Position of the first zero byte of `t`, or its length when it has none.
pub open spec fn first_nul(t: Seq<u8>) -> int
    decreases t.len(),
{
    if t.len() == 0 || t[0] == 0 {
        0
    } else {
        1 + first_nul(t.drop_first())
    }
}

/// The text held by a zero-terminated buffer: the bytes before the first zero.
pub open spec fn c_text(t: Seq<u8>) -> Seq<u8> {
    t.subrange(0, first_nul(t))
}

/// How many bytes of `t` a buffer keeps: its text, cut so that the terminator fits.
pub open spec fn kept_len(t: Seq<u8>) -> int {
    if first_nul(t) < MAX_TEXT_LENGTH - 1 {
        first_nul(t)
    } else {
        MAX_TEXT_LENGTH - 1
    }
}

/// The buffer that holds the text of `t`: its kept bytes, then zeros up to the
/// capacity.
pub open spec fn buffer_of(t: Seq<u8>) -> Seq<u8> {
    t.subrange(0, kept_len(t)) + Seq::new((MAX_TEXT_LENGTH - kept_len(t)) as nat, |i: int| 0u8)
}

/// A full edit buffer: of the fixed capacity, terminated, and with nothing but
/// zeros after its first zero.
pub open spec fn buffer_wf(b: Seq<u8>) -> bool {
    &&& b.len() == MAX_TEXT_LENGTH
    &&& b[MAX_TEXT_LENGTH - 1] == 0
    &&& forall|i: int, j: int| 0 <= i <= j < b.len() && #[trigger] b[i] == 0 ==> #[trigger] b[j] == 0
}

pub proof fn lemma_first_nul(t: Seq<u8>, k: int)
    requires
        0 <= k <= t.len(),
        forall|j: int| 0 <= j < k ==> t[j] != 0,
        k == t.len() || t[k] == 0,
    ensures
        first_nul(t) == k,
    decreases k,
{
    if k > 0 {
        lemma_first_nul(t.drop_first(), k - 1);
    }
}

pub proof fn lemma_first_nul_bounds(t: Seq<u8>)
    ensures
        0 <= first_nul(t) <= t.len(),
        forall|j: int| 0 <= j < first_nul(t) ==> t[j] != 0,
        first_nul(t) < t.len() ==> t[first_nul(t)] == 0,
    decreases t.len(),
{
    if t.len() > 0 && t[0] != 0 {
        let d = t.drop_first();
        lemma_first_nul_bounds(d);
        assert forall|j: int| 0 <= j < first_nul(t) implies t[j] != 0 by {
            if j > 0 {
                assert(t[j] == d[j - 1]);
            }
        }
    }
}

/// A buffer built from any bytes is well formed, and its text is the kept
/// prefix of those bytes.
pub proof fn lemma_buffer_of(t: Seq<u8>)
    ensures
        buffer_wf(buffer_of(t)),
        c_text(buffer_of(t)) =~= t.subrange(0, kept_len(t)),
{
    lemma_first_nul_bounds(t);
    let b = buffer_of(t);
    let k = kept_len(t);
    assert(forall|j: int| 0 <= j < k ==> b[j] == t[j]);
    assert(forall|j: int| k <= j < MAX_TEXT_LENGTH ==> b[j] == 0);
    lemma_first_nul(b, k);
}

/// How many bytes of `t` a buffer keeps.
fn text_len(t: &Vec<u8>) -> (r: usize)
    ensures
        r == kept_len(t@),
{
    let mut i: usize = 0;
    while i < t.len() && i < MAX_TEXT_LENGTH - 1 && t[i] != 0
        invariant
            i <= t@.len(),
            i <= MAX_TEXT_LENGTH - 1,
            forall|j: int| 0 <= j < i ==> t@[j] != 0,
        decreases t@.len() - i,
    {
        i = i + 1;
    }
    proof {
        lemma_first_nul_bounds(t@);
        if i < t@.len() && t@[i as int] == 0 {
            lemma_first_nul(t@, i as int);
        } else if i == t@.len() {
            lemma_first_nul(t@, i as int);
        }
    }
    i
}

/// The edit buffer that holds the text of `t`.
pub fn make_buffer(t: &Vec<u8>) -> (r: Vec<u8>)
    ensures
        r@ =~= buffer_of(t@),
        buffer_wf(r@),
{
    let k = text_len(t);
    proof {
        lemma_first_nul_bounds(t@);
    }
    let mut r: Vec<u8> = Vec::new();
    let mut i: usize = 0;
    while i < MAX_TEXT_LENGTH
        invariant
            k == kept_len(t@),
            0 <= k < MAX_TEXT_LENGTH,
            k <= t@.len(),
            i <= MAX_TEXT_LENGTH,
            r@.len() == i,
            forall|j: int| 0 <= j < i ==> #[trigger] r@[j] == buffer_of(t@)[j],
        decreases MAX_TEXT_LENGTH - i,
    {
        if i < k {
            r.push(t[i]);
        } else {
            r.push(0);
        }
        i = i + 1;
    }
    proof {
        lemma_buffer_of(t@);
    }
    r
}

/// The text held by a buffer.
pub fn buffer_text(b: &Vec<u8>) -> (r: Vec<u8>)
    ensures
        r@ =~= c_text(b@),
{
    let mut r: Vec<u8> = Vec::new();
    let mut i: usize = 0;
    while i < b.len() && b[i] != 0
        invariant
            i <= b@.len(),
            forall|j: int| 0 <= j < i ==> b@[j] != 0,
            r@ =~= b@.subrange(0, i as int),
        decreases b@.len() - i,
    {
        r.push(b[i]);
        i = i + 1;
    }
    proof {
        lemma_first_nul(b@, i as int);
    }
    r
}

} // verus!
