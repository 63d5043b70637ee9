//! Character-level differences between feature-card texts, based on the
//! longest common subsequence, and the classification of card changes.
use crate::text::{chars_of, seq_eq, string_of};
use vstd::prelude::*;

verus! {

/// The kind of a diff segment.
#[derive(Debug, Clone, Copy, PartialEq, Eq, Structural)]
pub enum DiffKind {
    /// Text present in both inputs.
    Equal,
    /// Text only in the first input.
    Remove,
    /// Text only in the second input.
    Add,
}

/// A segment of a diff.
#[derive(Debug, Clone)]
pub struct DiffOp {
    pub kind: DiffKind,
    pub text: String,
}

/// Length of the longest common subsequence of `a[..i]` and `b[..j]`.
pub open spec fn lcs(a: Seq<char>, b: Seq<char>, i: nat, j: nat) -> nat
    decreases i + j,
{
    if i == 0 || j == 0 {
        0
    } else if a[i - 1] == b[j - 1] {
        lcs(a, b, (i - 1) as nat, (j - 1) as nat) + 1
    } else {
        let x = lcs(a, b, (i - 1) as nat, j);
        let y = lcs(a, b, i, (j - 1) as nat);
        if x >= y {
            x
        } else {
            y
        }
    }
}

/// The edit script turning `a[..i]` into `b[..j]` read off the LCS table:
/// common characters kept, additions preferred over removals on ties.
pub open spec fn script(a: Seq<char>, b: Seq<char>, i: nat, j: nat) -> Seq<(DiffKind, char)>
    decreases i + j,
{
    if i == 0 && j == 0 {
        Seq::empty()
    } else if i > 0 && j > 0 && a[i - 1] == b[j - 1] {
        script(a, b, (i - 1) as nat, (j - 1) as nat).push((DiffKind::Equal, a[i - 1]))
    } else if j > 0 && (i == 0 || lcs(a, b, i, (j - 1) as nat) >= lcs(a, b, (i - 1) as nat, j)) {
        script(a, b, i, (j - 1) as nat).push((DiffKind::Add, b[j - 1]))
    } else {
        script(a, b, (i - 1) as nat, j).push((DiffKind::Remove, a[i - 1]))
    }
}

/// Characters of the first text that a script walks over (kept and removed).
pub open spec fn old_chars(ops: Seq<(DiffKind, char)>) -> Seq<char>
    decreases ops.len(),
{
    if ops.len() == 0 {
        Seq::empty()
    } else if ops.last().0 == DiffKind::Add {
        old_chars(ops.drop_last())
    } else {
        old_chars(ops.drop_last()).push(ops.last().1)
    }
}

/// Characters of the second text that a script walks over (kept and added).
pub open spec fn new_chars(ops: Seq<(DiffKind, char)>) -> Seq<char>
    decreases ops.len(),
{
    if ops.len() == 0 {
        Seq::empty()
    } else if ops.last().0 == DiffKind::Remove {
        new_chars(ops.drop_last())
    } else {
        new_chars(ops.drop_last()).push(ops.last().1)
    }
}

/// Number of kept characters of a script.
pub open spec fn equal_count(ops: Seq<(DiffKind, char)>) -> nat
    decreases ops.len(),
{
    if ops.len() == 0 {
        0
    } else {
        equal_count(ops.drop_last()) + (if ops.last().0 == DiffKind::Equal {
            1nat
        } else {
            0nat
        })
    }
}

/// Merging state: finished segments and the pending equal, removed and added text.
pub struct MergeState {
    pub out: Seq<(DiffKind, Seq<char>)>,
    pub eq: Seq<char>,
    pub rm: Seq<char>,
    pub add: Seq<char>,
}

pub open spec fn seg(k: DiffKind, t: Seq<char>) -> Seq<(DiffKind, Seq<char>)> {
    if t.len() > 0 {
        seq![(k, t)]
    } else {
        Seq::empty()
    }
}

/// One step of merging runs: a kept character first flushes pending removed
/// and added text; a removed or added one first flushes pending kept text.
pub open spec fn merge_step(s: MergeState, op: (DiffKind, char)) -> MergeState {
    match op.0 {
        DiffKind::Equal => MergeState {
            out: s.out + seg(DiffKind::Remove, s.rm) + seg(DiffKind::Add, s.add),
            eq: s.eq.push(op.1),
            rm: Seq::empty(),
            add: Seq::empty(),
        },
        DiffKind::Remove => MergeState {
            out: s.out + seg(DiffKind::Equal, s.eq),
            eq: Seq::empty(),
            rm: s.rm.push(op.1),
            add: s.add,
        },
        DiffKind::Add => MergeState {
            out: s.out + seg(DiffKind::Equal, s.eq),
            eq: Seq::empty(),
            rm: s.rm,
            add: s.add.push(op.1),
        },
    }
}

pub open spec fn merge_state(ops: Seq<(DiffKind, char)>) -> MergeState
    decreases ops.len(),
{
    if ops.len() == 0 {
        MergeState { out: Seq::empty(), eq: Seq::empty(), rm: Seq::empty(), add: Seq::empty() }
    } else {
        merge_step(merge_state(ops.drop_last()), ops.last())
    }
}

/// Segments of a script: maximal runs merged, removals before additions.
pub open spec fn merge_ops(ops: Seq<(DiffKind, char)>) -> Seq<(DiffKind, Seq<char>)> {
    let s = merge_state(ops);
    s.out + seg(DiffKind::Remove, s.rm) + seg(DiffKind::Add, s.add) + seg(DiffKind::Equal, s.eq)
}

/// The diff of `a` and `b` as segments.
pub open spec fn diff_spec(a: Seq<char>, b: Seq<char>) -> Seq<(DiffKind, Seq<char>)> {
    if a == b {
        seq![(DiffKind::Equal, a)]
    } else if a.len() > 5000 || b.len() > 5000 {
        seq![(DiffKind::Remove, a), (DiffKind::Add, b)]
    } else {
        merge_ops(script(a, b, a.len(), b.len()))
    }
}

pub open spec fn op_view(o: DiffOp) -> (DiffKind, Seq<char>) {
    (o.kind, o.text@)
}

/// Text of the first input covered by segments (kept and removed).
pub open spec fn old_text(segs: Seq<(DiffKind, Seq<char>)>) -> Seq<char>
    decreases segs.len(),
{
    if segs.len() == 0 {
        Seq::empty()
    } else if segs.last().0 == DiffKind::Add {
        old_text(segs.drop_last())
    } else {
        old_text(segs.drop_last()) + segs.last().1
    }
}

/// Text of the second input covered by segments (kept and added).
pub open spec fn new_text(segs: Seq<(DiffKind, Seq<char>)>) -> Seq<char>
    decreases segs.len(),
{
    if segs.len() == 0 {
        Seq::empty()
    } else if segs.last().0 == DiffKind::Remove {
        new_text(segs.drop_last())
    } else {
        new_text(segs.drop_last()) + segs.last().1
    }
}

// ───────────────────────── laws ─────────────────────────

pub proof fn lemma_lcs_bounds(a: Seq<char>, b: Seq<char>, i: nat, j: nat)
    ensures
        lcs(a, b, i, j) <= i,
        lcs(a, b, i, j) <= j,
    decreases i + j,
{
    if i > 0 && j > 0 {
        lemma_lcs_bounds(a, b, (i - 1) as nat, (j - 1) as nat);
        lemma_lcs_bounds(a, b, (i - 1) as nat, j);
        lemma_lcs_bounds(a, b, i, (j - 1) as nat);
    }
}

/// The script walks over exactly `a[..i]` and `b[..j]`, and keeps
/// `lcs(i, j)` characters: a longest common subsequence.
pub proof fn lemma_script_sound(a: Seq<char>, b: Seq<char>, i: nat, j: nat)
    requires
        i <= a.len(),
        j <= b.len(),
    ensures
        old_chars(script(a, b, i, j)) == a.take(i as int),
        new_chars(script(a, b, i, j)) == b.take(j as int),
        equal_count(script(a, b, i, j)) == lcs(a, b, i, j),
    decreases i + j,
{
    if i == 0 && j == 0 {
        assert(a.take(0) =~= Seq::<char>::empty());
        assert(b.take(0) =~= Seq::<char>::empty());
    } else if i > 0 && j > 0 && a[i - 1] == b[j - 1] {
        lemma_script_sound(a, b, (i - 1) as nat, (j - 1) as nat);
        let s = script(a, b, (i - 1) as nat, (j - 1) as nat);
        assert(s.push((DiffKind::Equal, a[i - 1])).drop_last() =~= s);
        assert(a.take(i - 1).push(a[i - 1]) =~= a.take(i as int));
        assert(b.take(j - 1).push(b[j - 1]) =~= b.take(j as int));
    } else if j > 0 && (i == 0 || lcs(a, b, i, (j - 1) as nat) >= lcs(a, b, (i - 1) as nat, j)) {
        lemma_script_sound(a, b, i, (j - 1) as nat);
        let s = script(a, b, i, (j - 1) as nat);
        assert(s.push((DiffKind::Add, b[j - 1])).drop_last() =~= s);
        assert(b.take(j - 1).push(b[j - 1]) =~= b.take(j as int));
        if i > 0 && j > 0 {
            assert(lcs(a, b, i, j) == lcs(a, b, i, (j - 1) as nat));
        }
    } else {
        lemma_script_sound(a, b, (i - 1) as nat, j);
        let s = script(a, b, (i - 1) as nat, j);
        assert(s.push((DiffKind::Remove, a[i - 1])).drop_last() =~= s);
        assert(a.take(i - 1).push(a[i - 1]) =~= a.take(i as int));
    }
}

proof fn lemma_old_text_append(x: Seq<(DiffKind, Seq<char>)>, y: Seq<(DiffKind, Seq<char>)>)
    ensures
        old_text(x + y) == old_text(x) + old_text(y),
        new_text(x + y) == new_text(x) + new_text(y),
    decreases y.len(),
{
    if y.len() == 0 {
        assert(x + y =~= x);
        assert(old_text(x) + Seq::<char>::empty() =~= old_text(x));
        assert(new_text(x) + Seq::<char>::empty() =~= new_text(x));
    } else {
        lemma_old_text_append(x, y.drop_last());
        assert((x + y).drop_last() =~= x + y.drop_last());
        assert((x + y).last() == y.last());
        assert(old_text(x) + old_text(y.drop_last()) + y.last().1 =~= old_text(x) + (old_text(
            y.drop_last(),
        ) + y.last().1));
        assert(new_text(x) + new_text(y.drop_last()) + y.last().1 =~= new_text(x) + (new_text(
            y.drop_last(),
        ) + y.last().1));
    }
}

proof fn lemma_seg_text(k: DiffKind, t: Seq<char>)
    ensures
        old_text(seg(k, t)) == (if k == DiffKind::Add { Seq::<char>::empty() } else { t }),
        new_text(seg(k, t)) == (if k == DiffKind::Remove { Seq::<char>::empty() } else { t }),
{
    let e = Seq::<(DiffKind, Seq<char>)>::empty();
    assert(old_text(e) == Seq::<char>::empty());
    assert(new_text(e) == Seq::<char>::empty());
    if t.len() > 0 {
        assert(seg(k, t).drop_last() =~= e);
        assert(seg(k, t).last() == (k, t));
        assert(Seq::<char>::empty() + t =~= t);
    } else {
        assert(seg(k, t) =~= e);
    }
}

/// While merging, pending kept text and pending changed text never coexist,
/// and finished segments plus pending text spell what the script walked over.
proof fn lemma_merge_invariant(ops: Seq<(DiffKind, char)>)
    ensures
        ({
            let s = merge_state(ops);
            &&& s.eq.len() == 0 || (s.rm.len() == 0 && s.add.len() == 0)
            &&& old_text(s.out) + s.eq + s.rm == old_chars(ops)
            &&& new_text(s.out) + s.eq + s.add == new_chars(ops)
        }),
    decreases ops.len(),
{
    if ops.len() == 0 {
        assert(Seq::<char>::empty() + Seq::<char>::empty() + Seq::<char>::empty() =~= Seq::<char>::empty());
    } else {
        let p = ops.drop_last();
        lemma_merge_invariant(p);
        let s = merge_state(p);
        let op = ops.last();
        match op.0 {
            DiffKind::Equal => {
                let o1 = s.out + seg(DiffKind::Remove, s.rm);
                lemma_old_text_append(s.out, seg(DiffKind::Remove, s.rm));
                lemma_old_text_append(o1, seg(DiffKind::Add, s.add));
                lemma_seg_text(DiffKind::Remove, s.rm);
                lemma_seg_text(DiffKind::Add, s.add);
                if s.eq.len() > 0 {
                    assert(s.rm =~= Seq::<char>::empty());
                    assert(s.add =~= Seq::<char>::empty());
                }
                assert(old_text(s.out) + s.rm + Seq::<char>::empty() + s.eq.push(op.1) + Seq::<char>::empty() =~= (old_text(s.out) + s.eq + s.rm).push(op.1));
                assert(new_text(s.out) + Seq::<char>::empty() + s.add + s.eq.push(op.1) + Seq::<char>::empty() =~= (new_text(s.out) + s.eq + s.add).push(op.1));
            },
            DiffKind::Remove => {
                lemma_old_text_append(s.out, seg(DiffKind::Equal, s.eq));
                lemma_seg_text(DiffKind::Equal, s.eq);
                assert(old_text(s.out) + s.eq + Seq::<char>::empty() + s.rm.push(op.1) =~= (old_text(s.out) + s.eq + s.rm).push(op.1));
                assert(new_text(s.out) + s.eq + Seq::<char>::empty() + s.add =~= new_text(s.out) + s.eq + s.add);
            },
            DiffKind::Add => {
                lemma_old_text_append(s.out, seg(DiffKind::Equal, s.eq));
                lemma_seg_text(DiffKind::Equal, s.eq);
                assert(old_text(s.out) + s.eq + Seq::<char>::empty() + s.rm =~= old_text(s.out) + s.eq + s.rm);
                assert(new_text(s.out) + s.eq + Seq::<char>::empty() + s.add.push(op.1) =~= (new_text(s.out) + s.eq + s.add).push(op.1));
            },
        }
    }
}

/// Merged segments spell the same two texts as the script.
pub proof fn lemma_merge_reconstructs(ops: Seq<(DiffKind, char)>)
    ensures
        old_text(merge_ops(ops)) == old_chars(ops),
        new_text(merge_ops(ops)) == new_chars(ops),
{
    lemma_merge_invariant(ops);
    let s = merge_state(ops);
    let o1 = s.out + seg(DiffKind::Remove, s.rm);
    let o2 = o1 + seg(DiffKind::Add, s.add);
    lemma_old_text_append(s.out, seg(DiffKind::Remove, s.rm));
    lemma_old_text_append(o1, seg(DiffKind::Add, s.add));
    lemma_old_text_append(o2, seg(DiffKind::Equal, s.eq));
    lemma_seg_text(DiffKind::Remove, s.rm);
    lemma_seg_text(DiffKind::Add, s.add);
    lemma_seg_text(DiffKind::Equal, s.eq);
    if s.eq.len() > 0 {
        assert(s.rm =~= Seq::<char>::empty());
        assert(s.add =~= Seq::<char>::empty());
    }
    assert(old_text(s.out) + s.rm + Seq::<char>::empty() + s.eq =~= old_text(s.out) + s.eq + s.rm);
    assert(new_text(s.out) + Seq::<char>::empty() + s.add + s.eq =~= new_text(s.out) + s.eq + s.add);
}

/// A diff undoes to both inputs: the kept and removed segments spell the
/// first text, the kept and added segments spell the second.  Unless one
/// text exceeds 5000 characters, the kept characters form a longest common
/// subsequence of the two.
pub proof fn lemma_diff_reconstructs(a: Seq<char>, b: Seq<char>)
    ensures
        old_text(diff_spec(a, b)) == a,
        new_text(diff_spec(a, b)) == b,
        a != b && a.len() <= 5000 && b.len() <= 5000 ==> equal_count(script(a, b, a.len(), b.len()))
            == lcs(a, b, a.len(), b.len()),
{
    let e = Seq::<(DiffKind, Seq<char>)>::empty();
    assert(old_text(e) == Seq::<char>::empty());
    assert(new_text(e) == Seq::<char>::empty());
    if a == b {
        let d = seq![(DiffKind::Equal, a)];
        assert(d.last() == (DiffKind::Equal, a));
        assert(d.drop_last() =~= Seq::<(DiffKind, Seq<char>)>::empty());
        assert(Seq::<char>::empty() + a =~= a);
        assert(old_text(d) == old_text(d.drop_last()) + a);
        assert(new_text(d) == new_text(d.drop_last()) + a);
        assert(diff_spec(a, b) == d);
    } else if a.len() > 5000 || b.len() > 5000 {
        let d = seq![(DiffKind::Remove, a), (DiffKind::Add, b)];
        assert(d.last() == (DiffKind::Add, b));
        assert(d.drop_last().last() == (DiffKind::Remove, a));
        assert(d.drop_last() =~= seq![(DiffKind::Remove, a)]);
        assert(d.drop_last().drop_last() =~= Seq::<(DiffKind, Seq<char>)>::empty());
        assert(Seq::<char>::empty() + a =~= a);
        assert(Seq::<char>::empty() + b =~= b);
        assert(old_text(d.drop_last()) == old_text(d.drop_last().drop_last()) + a);
        assert(old_text(d) == old_text(d.drop_last()));
        assert(new_text(d.drop_last()) == new_text(d.drop_last().drop_last()));
        assert(new_text(d) == new_text(d.drop_last()) + b);
        assert(diff_spec(a, b) == d);
    } else {
        lemma_script_sound(a, b, a.len(), b.len());
        lemma_merge_reconstructs(script(a, b, a.len(), b.len()));
        assert(a.take(a.len() as int) =~= a);
        assert(b.take(b.len() as int) =~= b);
    }
}


// ───────────────────────── computing the diff ─────────────────────────

pub open spec fn ops_view(v: Seq<DiffOp>) -> Seq<(DiffKind, Seq<char>)> {
    v.map_values(|o: DiffOp| op_view(o))
}

/// Rows `0..=m` of the LCS table of `a` and `b`.
fn lcs_table(a: &Vec<char>, b: &Vec<char>) -> (t: Vec<Vec<u32>>)
    requires
        a@.len() <= 5000,
        b@.len() <= 5000,
    ensures
        t@.len() == a@.len() + 1,
        forall|i: int| 0 <= i <= a@.len() ==> (#[trigger] t@[i])@.len() == b@.len() + 1,
        forall|i: int, j: int|
            0 <= i <= a@.len() && 0 <= j <= b@.len() ==> #[trigger] t@[i]@[j] == lcs(
                a@,
                b@,
                i as nat,
                j as nat,
            ),
{
    let m = a.len();
    let n = b.len();
    let mut table: Vec<Vec<u32>> = Vec::new();
    let mut row0: Vec<u32> = Vec::new();
    let mut j: usize = 0;
    while j <= n
        invariant
            j <= n + 1,
            n == b@.len(),
            n <= 5000,
            row0@.len() == j,
            forall|k: int| 0 <= k < j ==> row0@[k] == 0,
        decreases n + 1 - j,
    {
        row0.push(0);
        j += 1;
    }
    table.push(row0);
    let mut i: usize = 1;
    while i <= m
        invariant
            1 <= i <= m + 1,
            m == a@.len(),
            n == b@.len(),
            m <= 5000,
            n <= 5000,
            table@.len() == i,
            forall|r: int| 0 <= r < i ==> (#[trigger] table@[r])@.len() == n + 1,
            forall|r: int, c: int|
                0 <= r < i && 0 <= c <= n ==> #[trigger] table@[r]@[c] == lcs(
                    a@,
                    b@,
                    r as nat,
                    c as nat,
                ),
        decreases m + 1 - i,
    {
        let mut row: Vec<u32> = Vec::new();
        row.push(0);
        let mut j: usize = 1;
        while j <= n
            invariant
                1 <= i <= m,
                1 <= j <= n + 1,
                m == a@.len(),
                n == b@.len(),
                m <= 5000,
                n <= 5000,
                table@.len() == i,
                forall|r: int| 0 <= r < i ==> (#[trigger] table@[r])@.len() == n + 1,
                forall|r: int, c: int|
                    0 <= r < i && 0 <= c <= n ==> #[trigger] table@[r]@[c] == lcs(
                        a@,
                        b@,
                        r as nat,
                        c as nat,
                    ),
                row@.len() == j,
                forall|c: int| 0 <= c < j ==> row@[c] == lcs(a@, b@, i as nat, c as nat),
            decreases n + 1 - j,
        {
            proof {
                lemma_lcs_bounds(a@, b@, (i - 1) as nat, (j - 1) as nat);
            }
            let v: u32 = if a[i - 1] == b[j - 1] {
                table[i - 1][j - 1] + 1
            } else {
                let x = table[i - 1][j];
                let y = row[j - 1];
                if x >= y {
                    x
                } else {
                    y
                }
            };
            row.push(v);
            j += 1;
        }
        table.push(row);
        i += 1;
    }
    table
}

proof fn lemma_push_reverse(s: Seq<(DiffKind, char)>, x: (DiffKind, char), r: Seq<(DiffKind, char)>)
    ensures
        s.push(x) + r.reverse() == s + r.push(x).reverse(),
{
    assert(s.push(x) + r.reverse() =~= s + r.push(x).reverse());
}

/// Appends the pending text `buf` as a segment of kind `k` (if any) and empties it.
fn flush(out: &mut Vec<DiffOp>, k: DiffKind, buf: &mut Vec<char>)
    ensures
        ops_view(final(out)@) == ops_view(old(out)@) + seg(k, old(buf)@),
        final(buf)@ == Seq::<char>::empty(),
{
    if buf.len() > 0 {
        let text = string_of(buf.as_slice());
        let ghost before = out@;
        out.push(DiffOp { kind: k, text });
        assert(ops_view(out@) =~= ops_view(before) + seq![(k, old(buf)@)]);
    } else {
        assert(ops_view(out@) =~= ops_view(out@) + Seq::<(DiffKind, Seq<char>)>::empty());
    }
    *buf = Vec::new();
}

/// Character-level diff of two texts: one kept segment when they are equal;
/// removal of the first and addition of the second when either exceeds
/// 5000 characters; else the LCS edit script with runs merged.
pub fn diff_strings(a: &str, b: &str) -> (r: Vec<DiffOp>)
    ensures
        ops_view(r@) == diff_spec(a@, b@),
{
    let av = chars_of(a);
    let bv = chars_of(b);
    if seq_eq(av.as_slice(), bv.as_slice()) {
        let mut r: Vec<DiffOp> = Vec::new();
        r.push(DiffOp { kind: DiffKind::Equal, text: string_of(av.as_slice()) });
        assert(ops_view(r@) =~= seq![(DiffKind::Equal, a@)]);
        return r;
    }
    let m = av.len();
    let n = bv.len();
    if m > 5000 || n > 5000 {
        let mut r: Vec<DiffOp> = Vec::new();
        r.push(DiffOp { kind: DiffKind::Remove, text: string_of(av.as_slice()) });
        r.push(DiffOp { kind: DiffKind::Add, text: string_of(bv.as_slice()) });
        assert(ops_view(r@) =~= seq![(DiffKind::Remove, a@), (DiffKind::Add, b@)]);
        return r;
    }
    let table = lcs_table(&av, &bv);
    let ghost full = script(av@, bv@, m as nat, n as nat);
    let mut raw: Vec<(DiffKind, char)> = Vec::new();
    let mut i: usize = m;
    let mut j: usize = n;
    assert(raw@.reverse() =~= Seq::<(DiffKind, char)>::empty());
    assert(full =~= full + raw@.reverse());
    while i > 0 || j > 0
        invariant
            i <= m,
            j <= n,
            m == av@.len(),
            n == bv@.len(),
            m <= 5000,
            n <= 5000,
            table@.len() == m + 1,
            forall|r: int| 0 <= r <= m ==> (#[trigger] table@[r])@.len() == n + 1,
            forall|r: int, c: int|
                0 <= r <= m && 0 <= c <= n ==> #[trigger] table@[r]@[c] == lcs(
                    av@,
                    bv@,
                    r as nat,
                    c as nat,
                ),
            full == script(av@, bv@, i as nat, j as nat) + raw@.reverse(),
        decreases i + j,
    {
        let ghost s_before = raw@;
        if i > 0 && j > 0 && av[i - 1] == bv[j - 1] {
            let op = (DiffKind::Equal, av[i - 1]);
            proof {
                lemma_push_reverse(script(av@, bv@, (i - 1) as nat, (j - 1) as nat), op, s_before);
            }
            raw.push(op);
            i -= 1;
            j -= 1;
        } else if j > 0 && (i == 0 || table[i][j - 1] >= table[i - 1][j]) {
            let op = (DiffKind::Add, bv[j - 1]);
            proof {
                lemma_push_reverse(script(av@, bv@, i as nat, (j - 1) as nat), op, s_before);
            }
            raw.push(op);
            j -= 1;
        } else {
            let op = (DiffKind::Remove, av[i - 1]);
            proof {
                lemma_push_reverse(script(av@, bv@, (i - 1) as nat, j as nat), op, s_before);
            }
            raw.push(op);
            i -= 1;
        }
    }
    assert(full =~= raw@.reverse());
    let mut out: Vec<DiffOp> = Vec::new();
    let mut eq: Vec<char> = Vec::new();
    let mut rm: Vec<char> = Vec::new();
    let mut add: Vec<char> = Vec::new();
    let len = raw.len();
    let mut t: usize = 0;
    assert(ops_view(out@) =~= Seq::<(DiffKind, Seq<char>)>::empty());
    assert(eq@ =~= Seq::<char>::empty());
    assert(full.take(0) =~= Seq::<(DiffKind, char)>::empty());
    while t < len
        invariant
            t <= len,
            len == raw@.len(),
            full == raw@.reverse(),
            ({
                let st = merge_state(full.take(t as int));
                &&& ops_view(out@) == st.out
                &&& eq@ == st.eq
                &&& rm@ == st.rm
                &&& add@ == st.add
            }),
        decreases len - t,
    {
        let op = raw[len - 1 - t];
        assert(full[t as int] == op);
        assert(full.take(t + 1).drop_last() =~= full.take(t as int));
        assert(full.take(t + 1).last() == op);
        match op.0 {
            DiffKind::Equal => {
                flush(&mut out, DiffKind::Remove, &mut rm);
                flush(&mut out, DiffKind::Add, &mut add);
                eq.push(op.1);
            },
            DiffKind::Remove => {
                flush(&mut out, DiffKind::Equal, &mut eq);
                rm.push(op.1);
            },
            DiffKind::Add => {
                flush(&mut out, DiffKind::Equal, &mut eq);
                add.push(op.1);
            },
        }
        t += 1;
    }
    assert(full.take(len as int) =~= full);
    flush(&mut out, DiffKind::Remove, &mut rm);
    flush(&mut out, DiffKind::Add, &mut add);
    flush(&mut out, DiffKind::Equal, &mut eq);
    proof {
        assert(av@ != bv@);
    }
    out
}

// ───────────────────────── card changes ─────────────────────────

/// The five descriptive dimensions of a feature card.
#[derive(Debug, Clone)]
pub struct CardFeatures {
    pub technical_problem: String,
    pub core_structure: String,
    pub key_relations: String,
    pub process_steps: String,
    pub application_scenarios: String,
}

/// Diff type, whether the change matters for novelty, and the reason.
pub open spec fn classify_spec(a: CardFeatures, b: CardFeatures) -> (Seq<char>, bool, Seq<char>) {
    let structure = a.core_structure@ != b.core_structure@;
    let method = a.process_steps@ != b.process_steps@;
    let other = a.technical_problem@ != b.technical_problem@ || a.key_relations@
        != b.key_relations@ || a.application_scenarios@ != b.application_scenarios@;
    if structure {
        ("structure"@, true, "核心结构采用了不同的技术方案"@)
    } else if method {
        ("method"@, true, "工艺/实施步骤存在差异"@)
    } else if other {
        ("parameter"@, false, "参数级差异，新颖性意义较低"@)
    } else {
        ("none"@, false, "无显著差异"@)
    }
}

/// Classifies how card `b` differs from card `a`: a different core structure,
/// else different process steps (both significant for novelty), else a
/// parameter-level change, else none.
pub fn classify_diff(a: &CardFeatures, b: &CardFeatures) -> (r: (String, bool, String))
    ensures
        (r.0@, r.1, r.2@) == classify_spec(*a, *b),
{
    let structure = a.core_structure != b.core_structure;
    let method = a.process_steps != b.process_steps;
    let other = a.technical_problem != b.technical_problem || a.key_relations != b.key_relations
        || a.application_scenarios != b.application_scenarios;
    if structure {
        (String::from_str("structure"), true, String::from_str("核心结构采用了不同的技术方案"))
    } else if method {
        (String::from_str("method"), true, String::from_str("工艺/实施步骤存在差异"))
    } else if other {
        (String::from_str("parameter"), false, String::from_str("参数级差异，新颖性意义较低"))
    } else {
        (String::from_str("none"), false, String::from_str("无显著差异"))
    }
}

} // verus!
