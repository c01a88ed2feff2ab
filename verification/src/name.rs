//! Capsule names: NUL-free byte strings with a dotted structure.
//!
//! A capsule is registered and looked up under a dotted name such as
//! `unicodedata.ucnhash_CAPI`. Before such a name may cross the C boundary it
//! must be free of interior NUL bytes (it travels as a NUL-terminated C
//! string), and the interpreter resolves it by splitting it at every dot:
//! the first piece names a module, each further piece an attribute.

use vstd::prelude::*;

verus! {

/// The ASCII dot that separates the pieces of a capsule name.
pub const DOT: u8 = 46;

/// Holds when no byte of `s` is the NUL byte, so `s` can travel as the
/// contents of a NUL-terminated C string without being cut short.
pub open spec fn nul_free(s: Seq<u8>) -> bool {
    forall|i: int| 0 <= i < s.len() ==> s[i] != 0u8
}

/// Holds when no byte of `s` is the separating dot, i.e. `s` is a single
/// piece of a dotted name.
pub open spec fn dot_free(s: Seq<u8>) -> bool {
    forall|i: int| 0 <= i < s.len() ==> s[i] != DOT
}

/// Why a byte string was refused as a capsule name, or why a capsule refused
/// to hand out its data.
#[derive(Clone, Copy, Debug, PartialEq, Eq, Structural)]
pub enum CapsuleError {
    /// The proposed name holds a NUL byte at this index, so it cannot be
    /// turned into a C string.
    InteriorNul(usize),
    /// The name is a well-formed C string but is not the name the capsule
    /// was created under.
    WrongName,
}

/// A validated capsule name: a byte string with no interior NUL byte.
pub struct CapsuleName {
    bytes: Vec<u8>,
}

impl View for CapsuleName {
    type V = Seq<u8>;

    closed spec fn view(&self) -> Seq<u8> {
        self.bytes@
    }
}

impl CapsuleName {
    /// Every value of this type satisfies this: the bytes are NUL-free.
    pub open spec fn wf(&self) -> bool {
        nul_free(self@)
    }

    /// Validates `bytes` as a capsule name: accepted exactly when it holds
    /// no NUL byte, and refused with the index of the first NUL otherwise.
    pub fn new(bytes: Vec<u8>) -> (r: Result<CapsuleName, CapsuleError>)
        ensures
            r is Ok <==> nul_free(bytes@),
            r matches Ok(n) ==> n@ == bytes@ && n.wf(),
            r matches Err(e) ==> (e matches CapsuleError::InteriorNul(p)
                && 0 <= p < bytes@.len()
                && bytes@[p as int] == 0u8
                && (forall|j: int| 0 <= j < p ==> bytes@[j] != 0u8)),
    {
        let n = bytes.len();
        let mut i: usize = 0;
        while i < n
            invariant
                n == bytes@.len(),
                i <= n,
                forall|j: int| 0 <= j < i ==> bytes@[j] != 0u8,
            decreases n - i,
        {
            if bytes[i] == 0 {
                return Err(CapsuleError::InteriorNul(i));
            }
            i += 1;
        }
        Ok(CapsuleName { bytes })
    }

    /// The validated bytes, without the terminating NUL.
    pub fn as_bytes(&self) -> (r: &Vec<u8>)
        ensures
            r@ == self@,
    {
        &self.bytes
    }

    /// The name as it crosses the C boundary: the bytes with the terminating
    /// NUL appended.
    pub fn to_c_bytes(&self) -> (r: Vec<u8>)
        ensures
            r@ == self@.push(0u8),
    {
        let mut out: Vec<u8> = Vec::new();
        push_bytes(&mut out, &self.bytes);
        out.push(0);
        proof {
            assert(out@ =~= self.bytes@.push(0u8));
        }
        out
    }

    /// Builds the dotted name of a capsule from the pieces of its path, as
    /// written one identifier at a time: the pieces joined with single dots.
    /// Accepted exactly when there is at least one piece and every piece is
    /// free of NUL bytes (the name must cross into C) and of dots (a dotted
    /// piece would change where the name splits).
    pub fn from_segments(pieces: &Vec<Vec<u8>>) -> (r: Option<CapsuleName>)
        ensures
            r is Some <==> pieces@.len() > 0 && (forall|k: int|
                #![trigger pieces@[k]]
                0 <= k < pieces@.len() ==> nul_free(pieces@[k]@) && dot_free(pieces@[k]@)),
            r matches Some(n) ==> n@ == join_dotted(seq_views(pieces@)) && n.wf(),
    {
        if pieces.len() == 0 {
            return None;
        }
        let mut out: Vec<u8> = Vec::new();
        let mut k: usize = 0;
        while k < pieces.len()
            invariant
                k <= pieces@.len(),
                forall|j: int|
                    #![trigger pieces@[j]]
                    0 <= j < k ==> nul_free(pieces@[j]@) && dot_free(pieces@[j]@),
                out@ == join_dotted(seq_views(pieces@.subrange(0, k as int))),
            decreases pieces@.len() - k,
        {
            if !piece_ok(&pieces[k]) {
                return None;
            }
            if k > 0 {
                out.push(DOT);
            }
            push_bytes(&mut out, &pieces[k]);
            proof {
                let done = seq_views(pieces@.subrange(0, k as int));
                lemma_join_push(done, pieces@[k as int]@);
                assert(seq_views(pieces@.subrange(0, k + 1 as int)) =~= done.push(
                    pieces@[k as int]@,
                ));
            }
            k += 1;
        }
        proof {
            assert(pieces@.subrange(0, pieces@.len() as int) =~= pieces@);
            lemma_join_nul_free(seq_views(pieces@));
        }
        Some(CapsuleName { bytes: out })
    }

    /// The pieces of this name, split at every dot: what the interpreter
    /// resolves one by one when the capsule is imported.
    pub fn segments(&self) -> (r: Vec<Vec<u8>>)
        ensures
            seq_views(r@) == split_dotted(self@),
    {
        let n = self.bytes.len();
        let mut out: Vec<Vec<u8>> = Vec::new();
        let mut cur: Vec<u8> = Vec::new();
        let ghost mut start: int = 0;
        let mut i: usize = 0;
        proof {
            assert(self.bytes@.subrange(0, n as int) =~= self.bytes@);
            assert(cur@ =~= self.bytes@.subrange(0, 0));
            assert(seq_views(out@) + split_dotted(self.bytes@) =~= split_dotted(self.bytes@));
        }
        while i < n
            invariant
                n == self.bytes@.len(),
                i <= n,
                0 <= start <= i,
                cur@ == self.bytes@.subrange(start, i as int),
                dot_free(cur@),
                split_dotted(self.bytes@) == seq_views(out@) + split_dotted(
                    self.bytes@.subrange(start, n as int),
                ),
            decreases n - i,
        {
            let b = self.bytes[i];
            if b == DOT {
                let ghost prev = out@;
                let ghost piece = cur@;
                proof {
                    let t = self.bytes@.subrange(start, n as int);
                    assert forall|j: int| 0 <= j < i - start implies t[j] != DOT by {
                        assert(t[j] == piece[j]);
                    }
                    assert(t[i - start] == DOT);
                    lemma_first_dot_unique(t, i - start);
                    assert(t.subrange(0, i - start) =~= piece);
                    assert(t.subrange(i - start + 1, t.len() as int) =~= self.bytes@.subrange(
                        i + 1,
                        n as int,
                    ));
                }
                out.push(cur);
                cur = Vec::new();
                proof {
                    start = i as int + 1;
                    assert(seq_views(out@) =~= seq_views(prev).push(piece));
                    assert(split_dotted(self.bytes@) =~= seq_views(out@) + split_dotted(
                        self.bytes@.subrange(start, n as int),
                    ));
                }
            } else {
                cur.push(b);
                proof {
                    assert(cur@ =~= self.bytes@.subrange(start, i + 1));
                }
            }
            i += 1;
        }
        let ghost prev = out@;
        let ghost piece = cur@;
        proof {
            let t = self.bytes@.subrange(start, n as int);
            assert(t =~= piece);
            lemma_first_dot_unique(t, t.len() as int);
            assert(split_dotted(t) =~= seq![piece]);
        }
        out.push(cur);
        proof {
            assert(seq_views(out@) =~= seq_views(prev).push(piece));
            assert(seq_views(out@) =~= split_dotted(self.bytes@));
        }
        out
    }

    /// True exactly when the two names hold the same bytes. Capsule data is
    /// handed out only under this equality.
    pub fn eq_name(&self, other: &CapsuleName) -> (r: bool)
        ensures
            r <==> self@ == other@,
    {
        bytes_eq(&self.bytes, &other.bytes)
    }
}

/// The views of a sequence of byte vectors, taken element by element.
pub open spec fn seq_views(vs: Seq<Vec<u8>>) -> Seq<Seq<u8>> {
    Seq::new(vs.len(), |i: int| vs[i]@)
}

/// The dotted join of `segs`: the pieces laid out in order with one dot
/// between each pair of neighbours. This is the name under which a capsule
/// built from the path `segs` is registered.
pub open spec fn join_dotted(segs: Seq<Seq<u8>>) -> Seq<u8>
    decreases segs.len(),
{
    if segs.len() == 0 {
        Seq::empty()
    } else if segs.len() == 1 {
        segs[0]
    } else {
        segs[0] + seq![DOT] + join_dotted(segs.drop_first())
    }
}

/// The index of the first dot of `s`, or `s.len()` when `s` holds none.
pub open spec fn first_dot(s: Seq<u8>) -> int
    decreases s.len(),
{
    if s.len() == 0 {
        0
    } else if s[0] == DOT {
        0
    } else {
        1 + first_dot(s.drop_first())
    }
}

/// The pieces of `s`, split at every dot: what the interpreter resolves one
/// by one when it imports a capsule (a module, then attribute after
/// attribute). Splitting never yields an empty list; a dot-free `s` is a
/// single piece.
pub open spec fn split_dotted(s: Seq<u8>) -> Seq<Seq<u8>>
    decreases s.len(),
{
    let d = first_dot(s);
    if 0 <= d < s.len() {
        seq![s.subrange(0, d)] + split_dotted(s.subrange(d + 1, s.len() as int))
    } else {
        seq![s]
    }
}

/// What `first_dot` returns: an index within `0..=s.len()`, pointing at a
/// dot when one exists, with no dot before it.
pub proof fn lemma_first_dot(s: Seq<u8>)
    ensures
        0 <= first_dot(s) <= s.len(),
        first_dot(s) < s.len() ==> s[first_dot(s)] == DOT,
        forall|j: int| 0 <= j < first_dot(s) ==> s[j] != DOT,
    decreases s.len(),
{
    if s.len() == 0 {
    } else if s[0] == DOT {
    } else {
        lemma_first_dot(s.drop_first());
        assert forall|j: int| 0 <= j < first_dot(s) implies s[j] != DOT by {
            if j > 0 {
                assert(s.drop_first()[j - 1] != DOT);
            }
        }
    }
}

/// `first_dot` is pinned down by its characterization: an index that sits on
/// a dot (or at the end) with no dot before it is the first dot.
pub proof fn lemma_first_dot_unique(s: Seq<u8>, k: int)
    requires
        0 <= k <= s.len(),
        k < s.len() ==> s[k] == DOT,
        k == s.len() ==> dot_free(s),
        forall|j: int| 0 <= j < k ==> s[j] != DOT,
    ensures
        first_dot(s) == k,
{
    lemma_first_dot(s);
    let d = first_dot(s);
    if d < k {
        assert(s[d] == DOT);
        assert(s[d] != DOT);
    } else if d > k {
        assert(k < s.len());
        assert(s[k] != DOT);
    }
}

/// Splitting yields at least one piece, and joining the pieces of a name
/// back together restores the name exactly: splitting loses nothing.
pub proof fn lemma_split_then_join(s: Seq<u8>)
    ensures
        split_dotted(s).len() >= 1,
        join_dotted(split_dotted(s)) == s,
    decreases s.len(),
{
    lemma_first_dot(s);
    let d = first_dot(s);
    if 0 <= d < s.len() {
        let tail = s.subrange(d + 1, s.len() as int);
        lemma_split_then_join(tail);
        let parts = split_dotted(s);
        assert(parts.drop_first() =~= split_dotted(tail));
        assert(join_dotted(parts) =~= s);
    } else {
        assert(join_dotted(split_dotted(s)) == s);
    }
}

/// Splitting a joined path restores the pieces exactly, provided each piece
/// is dot-free (a piece holding a dot would be cut apart): joining loses
/// nothing.
pub proof fn lemma_join_then_split(segs: Seq<Seq<u8>>)
    requires
        segs.len() >= 1,
        forall|k: int| 0 <= k < segs.len() ==> dot_free(#[trigger] segs[k]),
    ensures
        split_dotted(join_dotted(segs)) == segs,
    decreases segs.len(),
{
    let s = join_dotted(segs);
    if segs.len() == 1 {
        lemma_first_dot_unique(s, s.len() as int);
        assert(split_dotted(s) =~= segs);
    } else {
        let head = segs[0];
        let rest = join_dotted(segs.drop_first());
        assert(s == head + seq![DOT] + rest);
        assert forall|j: int| 0 <= j < head.len() implies s[j] != DOT by {
            assert(s[j] == head[j]);
        }
        lemma_first_dot_unique(s, head.len() as int);
        assert(s.subrange(0, head.len() as int) =~= head);
        assert(s.subrange(head.len() as int + 1, s.len() as int) =~= rest);
        lemma_join_then_split(segs.drop_first());
        assert(split_dotted(s) =~= segs);
    }
}

/// A join of NUL-free pieces is NUL-free: the separating dot is not NUL,
/// so the joined name is a valid capsule name whenever its pieces are.
pub proof fn lemma_join_nul_free(segs: Seq<Seq<u8>>)
    requires
        forall|k: int| 0 <= k < segs.len() ==> nul_free(#[trigger] segs[k]),
    ensures
        nul_free(join_dotted(segs)),
    decreases segs.len(),
{
    if segs.len() <= 1 {
    } else {
        lemma_join_nul_free(segs.drop_first());
        let head = segs[0];
        let rest = join_dotted(segs.drop_first());
        assert forall|i: int| 0 <= i < join_dotted(segs).len() implies join_dotted(segs)[i]
            != 0u8 by {
            if i < head.len() {
                assert(join_dotted(segs)[i] == head[i]);
            } else if i == head.len() {
                assert(join_dotted(segs)[i] == DOT);
            } else {
                assert(join_dotted(segs)[i] == rest[i - head.len() - 1]);
            }
        }
    }
}

/// How a join grows when one more piece is appended at the end: the first
/// piece stands alone, every further one arrives behind a dot.
proof fn lemma_join_push(segs: Seq<Seq<u8>>, x: Seq<u8>)
    ensures
        segs.len() == 0 ==> join_dotted(segs.push(x)) == x,
        segs.len() >= 1 ==> join_dotted(segs.push(x)) == join_dotted(segs) + seq![DOT] + x,
    decreases segs.len(),
{
    if segs.len() == 0 {
        assert(segs.push(x)[0] == x);
    } else if segs.len() == 1 {
        assert(segs.push(x).drop_first() =~= seq![x]);
        assert(segs.push(x)[0] == segs[0]);
        assert(join_dotted(seq![x]) == x);
        assert(join_dotted(segs) == segs[0]);
        assert(join_dotted(segs.push(x)) == segs[0] + seq![DOT] + x);
    } else {
        lemma_join_push(segs.drop_first(), x);
        assert(segs.push(x).drop_first() =~= segs.drop_first().push(x));
        assert(join_dotted(segs.push(x)) =~= join_dotted(segs) + seq![DOT] + x);
    }
}

/// Appends all of `src` to `out`.
fn push_bytes(out: &mut Vec<u8>, src: &Vec<u8>)
    ensures
        final(out)@ == old(out)@ + src@,
{
    let n = src.len();
    let mut i: usize = 0;
    while i < n
        invariant
            n == src@.len(),
            i <= n,
            out@ == old(out)@ + src@.subrange(0, i as int),
        decreases n - i,
    {
        out.push(src[i]);
        proof {
            assert(out@ =~= old(out)@ + src@.subrange(0, i + 1 as int));
        }
        i += 1;
    }
    proof {
        assert(out@ =~= old(out)@ + src@);
    }
}

/// True exactly when `seg` can stand as one piece of a dotted name: free of
/// NUL bytes and of dots.
fn piece_ok(seg: &Vec<u8>) -> (r: bool)
    ensures
        r <==> nul_free(seg@) && dot_free(seg@),
{
    let n = seg.len();
    let mut i: usize = 0;
    while i < n
        invariant
            n == seg@.len(),
            i <= n,
            forall|j: int| 0 <= j < i ==> seg@[j] != 0u8 && seg@[j] != DOT,
        decreases n - i,
    {
        if seg[i] == 0 || seg[i] == DOT {
            return false;
        }
        i += 1;
    }
    true
}

/// True exactly when the two byte strings are equal.
fn bytes_eq(a: &Vec<u8>, b: &Vec<u8>) -> (r: bool)
    ensures
        r <==> a@ == b@,
{
    if a.len() != b.len() {
        return false;
    }
    let n = a.len();
    let mut i: usize = 0;
    while i < n
        invariant
            n == a@.len(),
            n == b@.len(),
            i <= n,
            forall|j: int| 0 <= j < i ==> a@[j] == b@[j],
        decreases n - i,
    {
        if a[i] != b[i] {
            return false;
        }
        i += 1;
    }
    proof {
        assert(a@ =~= b@);
    }
    true
}

} // verus!
