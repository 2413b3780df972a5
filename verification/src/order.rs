use vstd::prelude::*;
use crate::entry::Entry;
use crate::text::chars_of;

verus! {

/// `a` sorts strictly before `b`: lexicographic order by code point, a proper
/// prefix first. This is the order of Rust's `String` comparison.
pub open spec fn name_lt(a: Seq<char>, b: Seq<char>) -> bool
    decreases a.len(),
{
    if a.len() == 0 {
        b.len() > 0
    } else if b.len() == 0 {
        false
    } else if a[0] != b[0] {
        a[0] < b[0]
    } else {
        name_lt(a.drop_first(), b.drop_first())
    }
}

/// No name sorts before itself.
pub proof fn lemma_name_lt_irreflexive(a: Seq<char>)
    ensures
        !name_lt(a, a),
    decreases a.len(),
{
    if a.len() > 0 {
        lemma_name_lt_irreflexive(a.drop_first());
    }
}

/// The name order is transitive.
pub proof fn lemma_name_lt_transitive(a: Seq<char>, b: Seq<char>, c: Seq<char>)
    requires
        name_lt(a, b),
        name_lt(b, c),
    ensures
        name_lt(a, c),
    decreases a.len(),
{
    if a.len() > 0 && b.len() > 0 && c.len() > 0 && a[0] == b[0] && b[0] == c[0] {
        lemma_name_lt_transitive(a.drop_first(), b.drop_first(), c.drop_first());
    }
}

/// Of two different names, one sorts before the other.
pub proof fn lemma_name_lt_total(a: Seq<char>, b: Seq<char>)
    requires
        a != b,
    ensures
        name_lt(a, b) || name_lt(b, a),
    decreases a.len(),
{
    if a.len() == 0 && b.len() == 0 {
        assert(a =~= b);
    } else if a.len() > 0 && b.len() > 0 && a[0] == b[0] {
        if a.drop_first() == b.drop_first() {
            assert(a =~= seq![a[0]] + a.drop_first());
            assert(b =~= seq![b[0]] + b.drop_first());
        }
        lemma_name_lt_total(a.drop_first(), b.drop_first());
    }
}

/// `a` is listed before `b`: directories before files, and within each group by
/// sort name.
pub open spec fn entry_before(a: Entry, b: Entry) -> bool {
    (a.is_dir && !b.is_dir) || (a.is_dir == b.is_dir && name_lt(a.sort_name@, b.sort_name@))
}

/// `a` and `b` have the same place in the listing order.
pub open spec fn same_key(a: Entry, b: Entry) -> bool {
    a.is_dir == b.is_dir && a.sort_name@ == b.sort_name@
}

proof fn lemma_before_irreflexive(a: Entry)
    ensures
        !entry_before(a, a),
{
    lemma_name_lt_irreflexive(a.sort_name@);
}

proof fn lemma_before_transitive(a: Entry, b: Entry, c: Entry)
    requires
        entry_before(a, b),
        entry_before(b, c),
    ensures
        entry_before(a, c),
{
    if a.is_dir == b.is_dir && b.is_dir == c.is_dir {
        lemma_name_lt_transitive(a.sort_name@, b.sort_name@, c.sort_name@);
    }
}

/// What precedes `b` precedes every entry that `b` does not follow.
proof fn lemma_before_then_not_before(a: Entry, b: Entry, c: Entry)
    requires
        entry_before(a, b),
        !entry_before(c, b),
    ensures
        entry_before(a, c),
{
    if same_key(b, c) {
    } else {
        if b.is_dir == c.is_dir {
            lemma_name_lt_total(b.sort_name@, c.sort_name@);
        }
        lemma_before_transitive(a, b, c);
    }
}

/// `output` is `input` sorted into listing order, keeping the order of entries
/// with the same key; `perm` says where each output entry came from.
pub open spec fn stable_sort_witness(input: Seq<Entry>, output: Seq<Entry>, perm: Seq<int>) -> bool {
    &&& perm.len() == output.len()
    &&& input.len() == output.len()
    &&& forall|i: int|
        0 <= i < output.len() ==> 0 <= #[trigger] perm[i] < input.len() && output[i] == input[perm[i]]
    &&& forall|i: int, j: int| 0 <= i < j < output.len() ==> #[trigger] perm[i] != #[trigger] perm[j]
    &&& forall|i: int, j: int|
        0 <= i < j < output.len() ==> !entry_before(#[trigger] output[j], #[trigger] output[i])
    &&& forall|i: int, j: int|
        0 <= i < j < output.len() && same_key(#[trigger] output[i], #[trigger] output[j]) ==> perm[i]
            < perm[j]
}

/// `output` is the stable sort of `input` into listing order: a permutation of
/// it, in listing order, with entries of the same key in their input order.
pub open spec fn is_stable_sort(input: Seq<Entry>, output: Seq<Entry>) -> bool {
    exists|perm: Seq<int>| #[trigger] stable_sort_witness(input, output, perm)
}

proof fn lemma_insert_keeps_witness(
    input: Seq<Entry>,
    output: Seq<Entry>,
    perm: Seq<int>,
    e: Entry,
    pos: int,
)
    requires
        stable_sort_witness(input, output, perm),
        0 <= pos <= output.len(),
        forall|i: int| 0 <= i < pos ==> !entry_before(e, #[trigger] output[i]),
        forall|i: int| pos <= i < output.len() ==> entry_before(e, #[trigger] output[i]),
    ensures
        stable_sort_witness(input.push(e), output.insert(pos, e), perm.insert(pos, input.len() as int)),
{
    let inp = input.push(e);
    let out = output.insert(pos, e);
    let p = perm.insert(pos, input.len() as int);
    let n = input.len() as int;
    assert forall|i: int| 0 <= i < out.len() implies 0 <= #[trigger] p[i] < inp.len() && out[i] == inp[p[i]] by {
        if i < pos {
            assert(p[i] == perm[i]);
        } else if i > pos {
            assert(p[i] == perm[i - 1]);
        }
    }
    assert forall|i: int, j: int| 0 <= i < j < out.len() implies #[trigger] p[i] != #[trigger] p[j] by {
        if i < pos && j < pos {
            assert(perm[i] != perm[j]);
        } else if i < pos && j > pos {
            assert(perm[i] != perm[j - 1]);
        } else if i > pos && j > pos {
            assert(perm[i - 1] != perm[j - 1]);
        } else if i == pos {
            assert(perm[j - 1] < n);
        } else {
            assert(perm[i] < n);
        }
    }
    assert forall|i: int, j: int| 0 <= i < j < out.len() implies !entry_before(#[trigger] out[j], #[trigger] out[i]) by {
        if i < pos && j < pos {
            assert(!entry_before(output[j], output[i]));
        } else if i < pos && j == pos {
        } else if i < pos && j > pos {
            assert(!entry_before(output[j - 1], output[i]));
        } else if i == pos {
            if entry_before(output[j - 1], e) {
                lemma_before_transitive(output[j - 1], e, output[pos]);
                if j - 1 == pos {
                    lemma_before_irreflexive(output[pos]);
                } else {
                    assert(!entry_before(output[j - 1], output[pos]));
                }
            }
        } else {
            assert(!entry_before(output[j - 1], output[i - 1]));
        }
    }
    assert forall|i: int, j: int|
        0 <= i < j < out.len() && same_key(#[trigger] out[i], #[trigger] out[j]) implies p[i] < p[j] by {
        if i < pos && j < pos {
            assert(perm[i] < perm[j]);
        } else if i < pos && j == pos {
            assert(perm[i] < n);
        } else if i < pos && j > pos {
            assert(perm[i] < perm[j - 1]);
        } else if i == pos {
            assert(entry_before(e, output[j - 1]));
            assert(entry_before(out[j], output[j - 1]));
            lemma_before_irreflexive(output[j - 1]);
        } else {
            assert(perm[i - 1] < perm[j - 1]);
        }
    }
}

/// Whether `a` sorts strictly before `b` (see [`name_lt`]).
pub fn names_lt(a: &Vec<char>, b: &Vec<char>) -> (r: bool)
    ensures
        r == name_lt(a@, b@),
{
    let mut i: usize = 0;
    assert(a@.skip(0) =~= a@);
    assert(b@.skip(0) =~= b@);
    loop
        invariant
            0 <= i <= a@.len(),
            i <= b@.len(),
            name_lt(a@, b@) == name_lt(a@.skip(i as int), b@.skip(i as int)),
        decreases a@.len() - i,
    {
        if i == a.len() {
            return i < b.len();
        }
        if i == b.len() {
            return false;
        }
        if a[i] != b[i] {
            return a[i] < b[i];
        }
        assert(a@.skip(i as int).drop_first() =~= a@.skip(i + 1));
        assert(b@.skip(i as int).drop_first() =~= b@.skip(i + 1));
        i = i + 1;
    }
}

fn before_exec(a_dir: bool, a_key: &Vec<char>, b: &Entry, b_key: &Vec<char>) -> (r: bool)
    requires
        b_key@ == b.sort_name@,
    ensures
        forall|a: Entry| a.is_dir == a_dir && a.sort_name@ == a_key@ ==> r == entry_before(a, *b),
{
    (a_dir && !b.is_dir) || (a_dir == b.is_dir && names_lt(a_key, b_key))
}

/// The entries to list: all of them, or only the non-directories.
pub open spec fn listed_entries(entries: Seq<Entry>, show_dirs: bool) -> Seq<Entry> {
    if show_dirs {
        entries
    } else {
        entries.filter(|e: Entry| !e.is_dir)
    }
}

/// Orders the entries of a listing: directories first (or left out where
/// `show_dirs` is false), then files, each group by sort name; entries with the
/// same sort name keep their order.
pub fn order_entries(entries: Vec<Entry>, show_dirs: bool) -> (r: Vec<Entry>)
    ensures
        is_stable_sort(listed_entries(entries@, show_dirs), r@),
{
    let ghost input = entries@;
    let ghost pred = |e: Entry| !e.is_dir;
    let mut out: Vec<Entry> = Vec::new();
    let mut keys: Vec<Vec<char>> = Vec::new();
    let ghost mut sel: Seq<Entry> = Seq::empty();
    let ghost mut perm: Seq<int> = Seq::empty();
    assert(input.take(0).filter(pred) =~= Seq::<Entry>::empty()) by {
        reveal(Seq::filter);
    }
    for e in it: entries
        invariant
            it.seq() == input,
            pred == (|e: Entry| !e.is_dir),
            sel == (if show_dirs { input.take(it.index() as int) } else { input.take(it.index() as int).filter(pred) }),
            keys@.len() == out@.len(),
            forall|i: int| 0 <= i < out@.len() ==> (#[trigger] keys@[i])@ == out@[i].sort_name@,
            stable_sort_witness(sel, out@, perm),
    {
        let ghost m = it.index() as int;
        proof {
            reveal(Seq::filter);
            assert(input.take(m + 1).drop_last() =~= input.take(m));
            assert(input[m] == e);
            assert(input.take(m + 1).last() == e);
            assert(input.take(m + 1) =~= input.take(m).push(e));
            if !show_dirs {
                if pred(e) {
                    assert(input.take(m + 1).filter(pred) == input.take(m).filter(pred).push(e));
                } else {
                    assert(input.take(m + 1).filter(pred) == input.take(m).filter(pred));
                }
            }
        }
        if show_dirs || !e.is_dir {
            let key = chars_of(e.sort_name.as_str());
            let mut lo: usize = 0;
            let mut hi: usize = out.len();
            while lo < hi
                invariant
                    0 <= lo <= hi <= out@.len(),
                    keys@.len() == out@.len(),
                    forall|i: int| 0 <= i < out@.len() ==> (#[trigger] keys@[i])@ == out@[i].sort_name@,
                    key@ == e.sort_name@,
                    stable_sort_witness(sel, out@, perm),
                    forall|i: int| 0 <= i < lo ==> !entry_before(e, #[trigger] out@[i]),
                    forall|i: int| hi <= i < out@.len() ==> entry_before(e, #[trigger] out@[i]),
                decreases hi - lo,
            {
                let mid = lo + (hi - lo) / 2;
                assert(keys@[mid as int]@ == out@[mid as int].sort_name@);
                if before_exec(e.is_dir, &key, &out[mid], &keys[mid]) {
                    assert(entry_before(e, out@[mid as int]));
                    assert forall|i: int| mid <= i < out@.len() implies entry_before(e, #[trigger] out@[i]) by {
                        if i > mid {
                            assert(!entry_before(out@[i], out@[mid as int]));
                            lemma_before_then_not_before(e, out@[mid as int], out@[i]);
                        }
                    }
                    hi = mid;
                } else {
                    assert(!entry_before(e, out@[mid as int]));
                    assert forall|i: int| 0 <= i <= mid implies !entry_before(e, #[trigger] out@[i]) by {
                        if i < mid && entry_before(e, out@[i]) {
                            assert(!entry_before(out@[mid as int], out@[i]));
                            lemma_before_then_not_before(e, out@[i], out@[mid as int]);
                        }
                    }
                    lo = mid + 1;
                }
            }
            proof {
                lemma_insert_keeps_witness(sel, out@, perm, e, lo as int);
                perm = perm.insert(lo as int, sel.len() as int);
                sel = sel.push(e);
            }
            let ghost old_keys = keys@;
            let ghost old_out = out@;
            keys.insert(lo, key);
            out.insert(lo, e);
            assert forall|i: int| 0 <= i < out@.len() implies (#[trigger] keys@[i])@ == out@[i].sort_name@ by {
                if i < lo {
                    assert(keys@[i] == old_keys[i]);
                } else if i > lo {
                    assert(keys@[i] == old_keys[i - 1]);
                    assert(out@[i] == old_out[i - 1]);
                }
            }
        }
    }
    proof {
        assert(input.take(input.len() as int) =~= input);
        assert(stable_sort_witness(listed_entries(input, show_dirs), out@, perm));
    }
    out
}


/// Two entries that neither precedes have the same key.
proof fn lemma_before_total(a: Entry, b: Entry)
    requires
        !entry_before(a, b),
        !entry_before(b, a),
    ensures
        same_key(a, b),
{
    if a.is_dir == b.is_dir && a.sort_name@ != b.sort_name@ {
        lemma_name_lt_total(a.sort_name@, b.sort_name@);
    }
}

/// In a listing, every directory comes before every file.
pub proof fn law_directories_before_files(input: Seq<Entry>, output: Seq<Entry>)
    requires
        is_stable_sort(input, output),
    ensures
        forall|i: int, j: int|
            0 <= i < j < output.len() && (#[trigger] output[j]).is_dir ==> (#[trigger] output[i]).is_dir,
{
    let perm = choose|perm: Seq<int>| #[trigger] stable_sort_witness(input, output, perm);
    assert forall|i: int, j: int|
        0 <= i < j < output.len() && (#[trigger] output[j]).is_dir implies (#[trigger] output[i]).is_dir by {
        assert(!entry_before(output[j], output[i]));
    }
}

/// Within the directories, and within the files, a listing is in order of sort name.
pub proof fn law_groups_sorted_by_name(input: Seq<Entry>, output: Seq<Entry>)
    requires
        is_stable_sort(input, output),
    ensures
        forall|i: int, j: int|
            0 <= i < j < output.len() && (#[trigger] output[i]).is_dir == (#[trigger] output[j]).is_dir
                ==> !name_lt(output[j].sort_name@, output[i].sort_name@),
{
    let perm = choose|perm: Seq<int>| #[trigger] stable_sort_witness(input, output, perm);
    assert forall|i: int, j: int|
        0 <= i < j < output.len() && (#[trigger] output[i]).is_dir == (#[trigger] output[j]).is_dir
        implies !name_lt(output[j].sort_name@, output[i].sort_name@) by {
        assert(!entry_before(output[j], output[i]));
    }
}

/// With directories hidden, a listing holds no directory, and every file of the
/// input appears in it.
pub proof fn law_hidden_directories_are_left_out(input: Seq<Entry>, output: Seq<Entry>)
    requires
        is_stable_sort(listed_entries(input, false), output),
    ensures
        forall|i: int| 0 <= i < output.len() ==> !(#[trigger] output[i]).is_dir,
        output.len() == input.filter(|e: Entry| !e.is_dir).len(),
{
    let sel = listed_entries(input, false);
    let perm = choose|perm: Seq<int>| #[trigger] stable_sort_witness(sel, output, perm);
    assert forall|i: int| 0 <= i < output.len() implies !(#[trigger] output[i]).is_dir by {
        let k = perm[i];
        assert(output[i] == sel[k]);
        input.lemma_filter_pred(|e: Entry| !e.is_dir, k);
    }
}

proof fn lemma_increasing_is_identity(perm: Seq<int>, n: int)
    requires
        perm.len() == n,
        forall|i: int| 0 <= i < n ==> 0 <= #[trigger] perm[i] < n,
        forall|i: int, j: int| 0 <= i < j < n ==> #[trigger] perm[i] < #[trigger] perm[j],
    ensures
        forall|i: int| 0 <= i < n ==> #[trigger] perm[i] == i,
{
    assert forall|i: int| 0 <= i < n implies #[trigger] perm[i] >= i by {
        lemma_increasing_lower(perm, n, i);
    }
    assert forall|i: int| 0 <= i < n implies #[trigger] perm[i] <= i by {
        lemma_increasing_upper(perm, n, i);
    }
}

proof fn lemma_increasing_lower(perm: Seq<int>, n: int, i: int)
    requires
        perm.len() == n,
        0 <= i < n,
        forall|i: int| 0 <= i < n ==> 0 <= #[trigger] perm[i] < n,
        forall|i: int, j: int| 0 <= i < j < n ==> #[trigger] perm[i] < #[trigger] perm[j],
    ensures
        perm[i] >= i,
    decreases i,
{
    if i > 0 {
        lemma_increasing_lower(perm, n, i - 1);
        assert(perm[i - 1] < perm[i]);
    }
}

proof fn lemma_increasing_upper(perm: Seq<int>, n: int, i: int)
    requires
        perm.len() == n,
        0 <= i < n,
        forall|i: int| 0 <= i < n ==> 0 <= #[trigger] perm[i] < n,
        forall|i: int, j: int| 0 <= i < j < n ==> #[trigger] perm[i] < #[trigger] perm[j],
    ensures
        perm[i] <= i,
    decreases n - i,
{
    if i < n - 1 {
        lemma_increasing_upper(perm, n, i + 1);
        assert(perm[i] < perm[i + 1]);
    }
}

/// Ordering a listing that is already in order changes nothing.
pub proof fn law_ordering_is_idempotent(input: Seq<Entry>, once: Seq<Entry>, twice: Seq<Entry>)
    requires
        is_stable_sort(input, once),
        is_stable_sort(once, twice),
    ensures
        twice == once,
{
    let p1 = choose|perm: Seq<int>| #[trigger] stable_sort_witness(input, once, perm);
    let p2 = choose|perm: Seq<int>| #[trigger] stable_sort_witness(once, twice, perm);
    let n = once.len() as int;
    assert forall|i: int, j: int| 0 <= i < j < n implies #[trigger] p2[i] < #[trigger] p2[j] by {
        if p2[j] < p2[i] {
            assert(!entry_before(once[p2[i]], once[p2[j]]));
            assert(!entry_before(twice[j], twice[i]));
            lemma_before_total(twice[i], twice[j]);
        } else {
            assert(p2[i] != p2[j]);
        }
    }
    lemma_increasing_is_identity(p2, n);
    assert forall|i: int| 0 <= i < n implies twice[i] == once[i] by {
        assert(p2[i] == i);
    }
    assert(twice =~= once);
}

/// `i` is where `a` and `b` first part: they agree before `i`, and there `a` has
/// ended while `b` goes on, or both go on and `a` has the smaller character.
pub open spec fn first_difference_favours(a: Seq<char>, b: Seq<char>, i: int) -> bool {
    &&& 0 <= i <= a.len()
    &&& i <= b.len()
    &&& a.take(i) == b.take(i)
    &&& (i == a.len() && i < b.len()) || (i < a.len() && i < b.len() && a[i] < b[i])
}

/// The name order is the lexicographic order of Rust's `String` comparison: `a`
/// sorts before `b` exactly when, at the first place where they differ, `a` has
/// ended (it is a proper prefix of `b`) or has the smaller character.
pub proof fn law_name_order_is_lexicographic(a: Seq<char>, b: Seq<char>)
    ensures
        name_lt(a, b) <==> exists|i: int| #[trigger] first_difference_favours(a, b, i),
    decreases a.len(),
{
    if name_lt(a, b) {
        if a.len() == 0 || a[0] != b[0] {
            assert(a.take(0) =~= b.take(0));
            assert(first_difference_favours(a, b, 0));
        } else {
            law_name_order_is_lexicographic(a.drop_first(), b.drop_first());
            let j = choose|j: int| #[trigger] first_difference_favours(a.drop_first(), b.drop_first(), j);
            assert(a.take(j + 1) =~= seq![a[0]] + a.drop_first().take(j));
            assert(b.take(j + 1) =~= seq![b[0]] + b.drop_first().take(j));
            assert(first_difference_favours(a, b, j + 1));
        }
    }
    if exists|i: int| #[trigger] first_difference_favours(a, b, i) {
        let i = choose|i: int| #[trigger] first_difference_favours(a, b, i);
        if i == 0 {
            if a.len() > 0 {
                assert(a[0] != b[0]);
            }
        } else {
            assert(a[0] == a.take(i)[0]);
            assert(b[0] == b.take(i)[0]);
            assert(a.drop_first().take(i - 1) =~= a.take(i).drop_first());
            assert(b.drop_first().take(i - 1) =~= b.take(i).drop_first());
            assert(first_difference_favours(a.drop_first(), b.drop_first(), i - 1));
            law_name_order_is_lexicographic(a.drop_first(), b.drop_first());
        }
    }
}

/// A name sorts before every longer name that it begins: "test" before "test.py".
/// The empty name sorts before every other.
pub proof fn law_prefix_sorts_first(a: Seq<char>, b: Seq<char>)
    requires
        a.len() < b.len(),
        a == b.take(a.len() as int),
    ensures
        name_lt(a, b),
        !name_lt(b, a),
{
    assert(a.take(a.len() as int) =~= a);
    assert(first_difference_favours(a, b, a.len() as int));
    law_name_order_is_lexicographic(a, b);
    law_name_order_is_lexicographic(b, a);
    if exists|i: int| #[trigger] first_difference_favours(b, a, i) {
        let i = choose|i: int| #[trigger] first_difference_favours(b, a, i);
        assert(i < a.len());
        assert(b[i] == b.take(a.len() as int)[i]);
    }
}

/// A name that sorts first at the first character where two names differ sorts
/// first as a whole.
pub proof fn law_first_different_character_decides(a: Seq<char>, b: Seq<char>, i: int)
    requires
        0 <= i < a.len(),
        i < b.len(),
        a.take(i) == b.take(i),
        a[i] < b[i],
    ensures
        name_lt(a, b),
        !name_lt(b, a),
{
    assert(first_difference_favours(a, b, i));
    law_name_order_is_lexicographic(a, b);
    law_name_order_is_lexicographic(b, a);
    if exists|j: int| #[trigger] first_difference_favours(b, a, j) {
        let j = choose|j: int| #[trigger] first_difference_favours(b, a, j);
        if j < i {
            assert(a[j] == a.take(i)[j]);
            assert(b[j] == b.take(i)[j]);
        } else if j > i {
            assert(b[i] == b.take(j)[i]);
            assert(a[i] == a.take(j)[i]);
        }
    }
}

/// In a listing, of two entries of the same kind whose sort names are one a
/// proper prefix of the other, the shorter comes first.
pub proof fn law_prefix_listed_first(input: Seq<Entry>, output: Seq<Entry>)
    requires
        is_stable_sort(input, output),
    ensures
        forall|i: int, j: int|
            0 <= i < j < output.len() && (#[trigger] output[i]).is_dir == (#[trigger] output[j]).is_dir
                ==> !(output[j].sort_name@.len() < output[i].sort_name@.len()
                && output[j].sort_name@ == output[i].sort_name@.take(output[j].sort_name@.len() as int)),
{
    law_groups_sorted_by_name(input, output);
    assert forall|i: int, j: int|
        0 <= i < j < output.len() && (#[trigger] output[i]).is_dir == (#[trigger] output[j]).is_dir
        implies !(output[j].sort_name@.len() < output[i].sort_name@.len()
        && output[j].sort_name@ == output[i].sort_name@.take(output[j].sort_name@.len() as int)) by {
        if output[j].sort_name@.len() < output[i].sort_name@.len()
            && output[j].sort_name@ == output[i].sort_name@.take(output[j].sort_name@.len() as int) {
            law_prefix_sorts_first(output[j].sort_name@, output[i].sort_name@);
        }
    }
}

} // verus!
