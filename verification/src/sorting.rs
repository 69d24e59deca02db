//! Lists in the order of their names.
use vstd::prelude::*;
use crate::text::chars_of;

verus! {

/// A text comes before another or is the same, in the order of their characters.
pub open spec fn text_le(a: Seq<char>, b: Seq<char>) -> bool
    decreases a.len(),
{
    if a.len() == 0 {
        true
    } else if b.len() == 0 {
        false
    } else if a[0] == b[0] {
        text_le(a.drop_first(), b.drop_first())
    } else {
        (a[0] as int) < (b[0] as int)
    }
}

proof fn lemma_text_le_total(a: Seq<char>, b: Seq<char>)
    ensures
        text_le(a, b) || text_le(b, a),
    decreases a.len(),
{
    if a.len() > 0 && b.len() > 0 && a[0] == b[0] {
        lemma_text_le_total(a.drop_first(), b.drop_first());
    }
}

proof fn lemma_text_le_transitive(a: Seq<char>, b: Seq<char>, c: Seq<char>)
    requires
        text_le(a, b),
        text_le(b, c),
    ensures
        text_le(a, c),
    decreases a.len(),
{
    if a.len() > 0 && a[0] == b[0] && b[0] == c[0] {
        lemma_text_le_transitive(a.drop_first(), b.drop_first(), c.drop_first());
    }
}

proof fn lemma_text_le_reflexive(a: Seq<char>)
    ensures
        text_le(a, a),
    decreases a.len(),
{
    if a.len() > 0 {
        lemma_text_le_reflexive(a.drop_first());
    }
}

fn comes_before(a: char, b: char) -> (r: bool)
    ensures
        r == ((a as int) < (b as int)),
{
    let x: u32 = a as u32;
    let y: u32 = b as u32;
    x < y
}

/// Whether a text comes before another or is the same.
pub fn in_order(a: &str, b: &str) -> (r: bool)
    ensures
        r == text_le(a@, b@),
{
    let x = chars_of(a);
    let y = chars_of(b);
    let mut i: usize = 0;
    proof {
        assert(x@.skip(0) =~= x@);
        assert(y@.skip(0) =~= y@);
    }
    while i < x.len()
        invariant
            i <= x@.len(),
            i <= y@.len(),
            text_le(x@.skip(i as int), y@.skip(i as int)) == text_le(a@, b@),
        decreases x@.len() - i,
    {
        if i == y.len() {
            return false;
        }
        let c = x[i];
        let d = y[i];
        if c != d {
            return comes_before(c, d);
        }
        proof {
            assert(x@.skip(i as int).drop_first() =~= x@.skip(i + 1));
            assert(y@.skip(i as int).drop_first() =~= y@.skip(i + 1));
        }
        i = i + 1;
    }
    true
}

/// The entries are in the order of their names.
pub open spec fn is_sorted<T>(v: Seq<(String, T)>) -> bool {
    forall|i: int, j: int| 0 <= i <= j < v.len() ==> text_le(#[trigger] v[i].0@, #[trigger] v[j].0@)
}

/// The entries of a name, in their order.
pub open spec fn entries_of<T>(v: Seq<(String, T)>, name: Seq<char>) -> Seq<(String, T)> {
    v.filter(|e: (String, T)| e.0@ == name)
}

/// The same entries in the order of their names; those of one name keep their order.
pub open spec fn is_stable_sort<T>(from: Seq<(String, T)>, to: Seq<(String, T)>) -> bool {
    &&& is_sorted(to)
    &&& to.len() == from.len()
    &&& forall|name: Seq<char>| #[trigger] entries_of(to, name) == entries_of(from, name)
}

proof fn lemma_entries_add<T>(a: Seq<(String, T)>, b: Seq<(String, T)>, name: Seq<char>)
    ensures
        entries_of(a + b, name) == entries_of(a, name) + entries_of(b, name),
    decreases b.len(),
{
    reveal(Seq::filter);
    if b.len() == 0 {
        assert(a + b =~= a);
    } else {
        assert((a + b).drop_last() =~= a + b.drop_last());
        assert((a + b).last() == b.last());
        lemma_entries_add(a, b.drop_last(), name);
    }
}

proof fn lemma_entries_absent<T>(v: Seq<(String, T)>, name: Seq<char>)
    requires
        forall|i: int| 0 <= i < v.len() ==> (#[trigger] v[i]).0@ != name,
    ensures
        entries_of(v, name) == Seq::<(String, T)>::empty(),
    decreases v.len(),
{
    reveal(Seq::filter);
    if v.len() > 0 {
        let front = v.drop_last();
        assert forall|i: int| 0 <= i < front.len() implies (#[trigger] front[i]).0@ != name by {
            assert(v[i].0@ != name);
        }
        lemma_entries_absent(front, name);
        assert(v[v.len() - 1].0@ != name);
    }
}

proof fn lemma_inserted<T>(v: Seq<(String, T)>, e: (String, T), k: int)
    requires
        is_sorted(v),
        0 <= k <= v.len(),
        k > 0 ==> text_le(v[k - 1].0@, e.0@),
        k < v.len() ==> !text_le(v[k].0@, e.0@),
    ensures
        is_sorted(v.insert(k, e)),
        forall|name: Seq<char>| #[trigger]
            entries_of(v.insert(k, e), name) == entries_of(v.push(e), name),
{
    let out = v.insert(k, e);
    assert forall|i: int| 0 <= i < k implies text_le((#[trigger] v[i]).0@, e.0@) by {
        lemma_text_le_transitive(v[i].0@, v[k - 1].0@, e.0@);
    }
    assert forall|i: int| k <= i < v.len() implies !text_le((#[trigger] v[i]).0@, e.0@) by {
        if text_le(v[i].0@, e.0@) {
            lemma_text_le_transitive(v[k].0@, v[i].0@, e.0@);
        }
    }
    assert forall|i: int, j: int| 0 <= i <= j < out.len() implies text_le(
        #[trigger] out[i].0@,
        #[trigger] out[j].0@,
    ) by {
        lemma_text_le_reflexive(e.0@);
        if i < k && j > k {
            assert(text_le(v[i].0@, v[j - 1].0@));
        } else if i == k && j > k {
            assert(!text_le(v[j - 1].0@, e.0@));
            lemma_text_le_total(v[j - 1].0@, e.0@);
        } else if i > k {
            assert(text_le(v[i - 1].0@, v[j - 1].0@));
        } else if j == k && i < k {
            assert(text_le(v[i].0@, e.0@));
        } else if j < k {
            assert(text_le(v[i].0@, v[j].0@));
        }
    }
    assert forall|name: Seq<char>| #[trigger] entries_of(out, name) == entries_of(
        v.push(e),
        name,
    ) by {
        let head = v.take(k);
        let tail = v.skip(k);
        let one = seq![e];
        assert(out =~= (head + one) + tail);
        assert(v.push(e) =~= (head + tail) + one);
        lemma_entries_add(head + one, tail, name);
        lemma_entries_add(head, one, name);
        lemma_entries_add(head + tail, one, name);
        lemma_entries_add(head, tail, name);
        let none = Seq::<(String, T)>::empty();
        if name == e.0@ {
            assert forall|i: int| 0 <= i < tail.len() implies (#[trigger] tail[i]).0@ != name by {
                assert(!text_le(v[k + i].0@, e.0@));
                lemma_text_le_reflexive(e.0@);
            }
            lemma_entries_absent(tail, name);
        } else {
            lemma_entries_absent(one, name);
        }
        assert(entries_of(out, name) =~= entries_of(v.push(e), name));
    }
}

/// Sort entries by their names. Entries of one name keep their order.
pub fn sort_by_name<T>(v: Vec<(String, T)>) -> (r: Vec<(String, T)>)
    ensures
        is_stable_sort(v@, r@),
{
    let ghost all = v@;
    let mut rest = v;
    let mut out: Vec<(String, T)> = Vec::new();
    let ghost mut done: int = 0;
    proof {
        assert(all.skip(0) =~= all);
        assert(out@ =~= all.take(0));
    }
    while rest.len() > 0
        invariant
            0 <= done <= all.len(),
            done + rest@.len() == all.len(),
            rest@ == all.skip(done),
            out@.len() == done,
            is_sorted(out@),
            forall|name: Seq<char>| #[trigger]
                entries_of(out@, name) == entries_of(all.take(done), name),
        decreases rest@.len(),
    {
        assert(rest@[0] == all[done]);
        let e = rest.remove(0);
        let ghost before = out@;
        let mut k: usize = out.len();
        while k > 0 && !in_order(out[k - 1].0.as_str(), e.0.as_str())
            invariant
                k <= out@.len(),
                out@ == before,
                k < out@.len() ==> !text_le(out@[k as int].0@, e.0@),
            decreases k,
        {
            k = k - 1;
        }
        proof {
            lemma_inserted(before, e, k as int);
            assert(rest@ =~= all.skip(done + 1));
            assert(all.take(done + 1) =~= all.take(done).push(e));
            assert forall|name: Seq<char>| #[trigger]
                entries_of(before.insert(k as int, e), name) == entries_of(
                    all.take(done + 1),
                    name,
                ) by {
                assert(entries_of(before.push(e), name) == entries_of(
                    all.take(done).push(e),
                    name,
                )) by {
                    let one = seq![e];
                    assert(before.push(e) =~= before + one);
                    assert(all.take(done).push(e) =~= all.take(done) + one);
                    lemma_entries_add(before, one, name);
                    lemma_entries_add(all.take(done), one, name);
                    assert(entries_of(before, name) == entries_of(all.take(done), name));
                }
            }
            done = done + 1;
        }
        out.insert(k, e);
    }
    proof {
        assert(all.take(done) =~= all);
    }
    out
}

} // verus!
