use vstd::prelude::*;

use vstd::utf8::is_ascii_chars;

use crate::ascii::{ascii_chars, ascii_string};

verus! {

broadcast use vstd::string::group_string_axioms;

/// A character that may appear in an order key.
pub open spec fn is_key_char(c: char) -> bool {
    'a' <= c && c <= 'z'
}

/// Text made of key characters only (the empty text included).
pub open spec fn is_key_text(s: Seq<char>) -> bool {
    forall|i: int| 0 <= i < s.len() ==> is_key_char(#[trigger] s[i])
}

/// Code of the first character of a lower bound; an exhausted lower bound
/// reads as the code just below `'a'`.
pub open spec fn lower_code(s: Seq<char>) -> int {
    if s.len() == 0 {
        'a' as int - 1
    } else {
        s[0] as int
    }
}

/// Code of the first character of an upper bound; an exhausted upper bound
/// reads as the code just above `'z'`.
pub open spec fn upper_code(s: Seq<char>) -> int {
    if s.len() == 0 {
        'z' as int + 1
    } else {
        s[0] as int
    }
}

/// The character whose code is the average of `p` and `n`, rounded up.
pub open spec fn mid_char(p: int, n: int) -> char {
    ((p + n + 1) / 2) as u32 as char
}

/// The key placed between `prev` and `next`. An empty `prev` stands for the
/// lowest possible key and an empty `next` for the highest.
///
/// A shared first character is copied. Where `prev` is exhausted and `next`
/// starts with `'a'`, that `'a'` is copied too, since nothing fits below it;
/// where `next` starts with `'b'`, the key goes on as `'a'` followed by the
/// middle of the whole alphabet. Where the first characters are neighbours,
/// the key copies `prev`'s character and continues above the rest of `prev`.
/// Otherwise a single middle character ends the key.
pub open spec fn midpoint_key(prev: Seq<char>, next: Seq<char>) -> Seq<char>
    decreases prev.len() + next.len(),
{
    if prev.len() > 0 && next.len() > 0 && prev[0] == next[0] {
        seq![prev[0]] + midpoint_key(prev.drop_first(), next.drop_first())
    } else if prev.len() == 0 && next.len() > 0 && next[0] == 'a' {
        seq!['a'] + midpoint_key(prev, next.drop_first())
    } else if prev.len() == 0 && next.len() > 0 && next[0] == 'b' {
        seq!['a'] + midpoint_key(prev, Seq::empty())
    } else if prev.len() > 0 && prev[0] as int + 1 == upper_code(next) {
        seq![prev[0]] + midpoint_key(prev.drop_first(), Seq::empty())
    } else {
        seq![mid_char(lower_code(prev), upper_code(next))]
    }
}

/// `a` sorts strictly before `b`: they differ first at a position where `a`
/// has the smaller character, or `a` is a proper prefix of `b`.
pub open spec fn key_less(a: Seq<char>, b: Seq<char>) -> bool
    decreases a.len(),
{
    if b.len() == 0 {
        false
    } else if a.len() == 0 {
        true
    } else if a[0] != b[0] {
        a[0] < b[0]
    } else {
        key_less(a.drop_first(), b.drop_first())
    }
}

/// `k` lies below the upper bound `next`, where an empty `next` bounds nothing.
pub open spec fn below_bound(k: Seq<char>, next: Seq<char>) -> bool {
    next.len() == 0 || key_less(k, next)
}

/// `next` is `prev` followed by one or more `'a'`: then no key lies strictly
/// between them.
pub open spec fn no_key_between(prev: Seq<char>, next: Seq<char>) -> bool
    decreases prev.len(),
{
    if prev.len() == 0 {
        next.len() > 0 && forall|j: int| 0 <= j < next.len() ==> next[j] == 'a'
    } else {
        next.len() > 0 && prev[0] == next[0] && no_key_between(prev.drop_first(), next.drop_first())
    }
}

/// A key as the generator hands them out: key text, not empty, not ending in `'a'`.
pub open spec fn is_generated_key(k: Seq<char>) -> bool {
    k.len() > 0 && is_key_text(k) && k.last() != 'a'
}

/// Each key sorts strictly before the one that follows it.
pub open spec fn strictly_ascending(keys: Seq<Seq<char>>) -> bool {
    forall|i: int| 0 <= i < keys.len() - 1 ==> key_less(#[trigger] keys[i], keys[i + 1])
}

proof fn lemma_skip_first(c: char, s: Seq<char>)
    ensures
        (seq![c] + s).drop_first() == s,
        (seq![c] + s)[0] == c,
        (seq![c] + s).len() == s.len() + 1,
        s.len() > 0 ==> (seq![c] + s).last() == s.last(),
        is_key_char(c) && is_key_text(s) ==> is_key_text(seq![c] + s),
{
    assert((seq![c] + s).drop_first() =~= s);
}

/// Whenever `prev` sorts below `next` and some key fits between them, the
/// generated key lies strictly between the two, is key text, and does not end
/// in `'a'`.
pub proof fn lemma_midpoint_between(prev: Seq<char>, next: Seq<char>)
    requires
        is_key_text(prev),
        is_key_text(next),
        below_bound(prev, next),
        !no_key_between(prev, next),
    ensures
        key_less(prev, midpoint_key(prev, next)),
        below_bound(midpoint_key(prev, next), next),
        is_generated_key(midpoint_key(prev, next)),
    decreases prev.len() + next.len(),
{
    let m = midpoint_key(prev, next);
    if prev.len() > 0 && next.len() > 0 && prev[0] == next[0] {
        let pr = prev.drop_first();
        let nr = next.drop_first();
        assert(is_key_text(pr));
        assert(is_key_text(nr));
        lemma_midpoint_between(pr, nr);
        let mr = midpoint_key(pr, nr);
        lemma_skip_first(prev[0], mr);
        assert(m.last() == mr.last());
        assert(below_bound(m, next));
    } else if prev.len() == 0 && next.len() > 0 && next[0] == 'a' {
        let nr = next.drop_first();
        assert(is_key_text(nr));
        if nr.len() == 0 {
            assert(forall|j: int| 0 <= j < next.len() ==> next[j] == 'a');
        }
        if forall|j: int| 0 <= j < nr.len() ==> nr[j] == 'a' {
            assert forall|j: int| 0 <= j < next.len() implies next[j] == 'a' by {
                if j > 0 {
                    assert(next[j] == nr[j - 1]);
                }
            }
        }
        lemma_midpoint_between(prev, nr);
        let mr = midpoint_key(prev, nr);
        lemma_skip_first('a', mr);
        assert(m.last() == mr.last());
        assert(below_bound(m, next));
    } else if prev.len() == 0 && next.len() > 0 && next[0] == 'b' {
        let e = Seq::<char>::empty();
        assert(prev =~= e);
        lemma_midpoint_between(e, e);
        let mr = midpoint_key(e, e);
        assert(m == seq!['a'] + mr);
        lemma_skip_first('a', mr);
        assert(m.last() == mr.last());
        assert(below_bound(m, next));
    } else if prev.len() > 0 && prev[0] as int + 1 == upper_code(next) {
        let pr = prev.drop_first();
        let e = Seq::<char>::empty();
        assert(is_key_text(pr));
        lemma_midpoint_between(pr, e);
        let mr = midpoint_key(pr, e);
        lemma_skip_first(prev[0], mr);
        assert(m.last() == mr.last());
        assert(below_bound(m, next));
    } else {
        let p = lower_code(prev);
        let n = upper_code(next);
        let c = mid_char(p, n);
        assert(m == seq![c]);
        if next.len() > 0 {
            assert(is_key_char(next[0]));
        }
        if prev.len() > 0 {
            assert(is_key_char(prev[0]));
        }
        assert(p + 2 <= n);
        assert(c as int == (p + n + 1) / 2);
        assert(m.last() == c);
    }
}

/// A pair that leaves no room ends its upper key in `'a'`.
proof fn lemma_no_key_between_ends_in_a(prev: Seq<char>, next: Seq<char>)
    requires
        no_key_between(prev, next),
    ensures
        next.len() > 0,
        next.last() == 'a',
    decreases prev.len(),
{
    if prev.len() > 0 {
        lemma_no_key_between_ends_in_a(prev.drop_first(), next.drop_first());
        assert(next.drop_first().last() == next.last());
    }
}

/// The generator's first key, between the two empty bounds, is the single
/// middle character `'n'`.
pub proof fn lemma_first_key()
    ensures
        midpoint_key(Seq::empty(), Seq::empty()) == seq!['n'],
        is_generated_key(seq!['n']),
{
    let e = Seq::<char>::empty();
    assert(midpoint_key(e, e) == seq![mid_char('a' as int - 1, 'z' as int + 1)]);
    assert(mid_char('a' as int - 1, 'z' as int + 1) == 'n');
}

/// Inserting into a strictly ascending list of generated keys the key
/// generated from the neighbours at the insertion point (an empty bound at
/// either end) gives a strictly ascending list of generated keys again.
pub proof fn lemma_insert_keeps_ascending(keys: Seq<Seq<char>>, idx: int)
    requires
        strictly_ascending(keys),
        forall|i: int| 0 <= i < keys.len() ==> is_generated_key(#[trigger] keys[i]),
        0 <= idx <= keys.len(),
    ensures
        ({
            let prev = if idx > 0 { keys[idx - 1] } else { Seq::<char>::empty() };
            let next = if idx < keys.len() { keys[idx] } else { Seq::<char>::empty() };
            let grown = keys.insert(idx, midpoint_key(prev, next));
            &&& strictly_ascending(grown)
            &&& forall|i: int| 0 <= i < grown.len() ==> is_generated_key(#[trigger] grown[i])
        }),
{
    let prev = if idx > 0 { keys[idx - 1] } else { Seq::<char>::empty() };
    let next = if idx < keys.len() { keys[idx] } else { Seq::<char>::empty() };
    let m = midpoint_key(prev, next);
    let grown = keys.insert(idx, m);
    if idx > 0 && idx < keys.len() {
        assert(key_less(keys[idx - 1], keys[idx]));
    }
    if no_key_between(prev, next) {
        lemma_no_key_between_ends_in_a(prev, next);
    }
    lemma_midpoint_between(prev, next);
    assert forall|i: int| 0 <= i < grown.len() - 1 implies key_less(
        #[trigger] grown[i],
        grown[i + 1],
    ) by {
        if i < idx - 1 {
            assert(grown[i] == keys[i] && grown[i + 1] == keys[i + 1]);
        } else if i == idx - 1 {
        } else if i == idx {
        } else {
            assert(grown[i] == keys[i - 1] && grown[i + 1] == keys[i]);
        }
    }
}

/// Returns the key generated between `prev` and `next` (see `midpoint_key`):
/// strictly between them whenever they are key text in order and some key
/// fits between them.
pub fn get_midpoint_string(prev: &str, next: &str) -> (r: String)
    requires
        is_ascii_chars(prev@),
        is_ascii_chars(next@),
    ensures
        r@ == midpoint_key(prev@, next@),
        is_key_text(prev@) && is_key_text(next@) && below_bound(prev@, next@)
            && !no_key_between(prev@, next@) ==> key_less(prev@, r@) && below_bound(r@, next@)
            && is_generated_key(r@),
{
    let pb = prev.as_bytes();
    let nb = next.as_bytes();
    proof {
        assert(vstd::string::is_ascii(prev));
        assert(vstd::string::is_ascii(next));
    }
    let ghost ps = prev@;
    let ghost ns = next@;
    let mut out: Vec<u8> = Vec::new();
    let mut i: usize = 0;
    let mut j: usize = 0;
    proof {
        assert(ps.skip(0) =~= ps);
        assert(ns.skip(0) =~= ns);
        assert(ascii_chars(out@) + midpoint_key(ps, ns) =~= midpoint_key(ps, ns));
    }
    loop
        invariant_except_break
            i <= pb@.len(),
            j <= nb@.len(),
            ascii_chars(out@) + midpoint_key(ps.skip(i as int), ns.skip(j as int))
                == midpoint_key(ps, ns),
        invariant
            pb@.len() == ps.len(),
            nb@.len() == ns.len(),
            forall|k: int| 0 <= k < ps.len() ==> pb@[k] == ps[k] as u8,
            forall|k: int| 0 <= k < ns.len() ==> nb@[k] == ns[k] as u8,
            is_ascii_chars(ps),
            is_ascii_chars(ns),
            forall|k: int| 0 <= k < out@.len() ==> out@[k] < 128,
        ensures
            forall|k: int| 0 <= k < out@.len() ==> out@[k] < 128,
            ascii_chars(out@) == midpoint_key(ps, ns),
        decreases (pb@.len() - i) + (nb@.len() - j),
    {
        let ghost before = out@;
        let ghost rp = ps.skip(i as int);
        let ghost rn = ns.skip(j as int);
        let has_p = i < pb.len();
        let has_n = j < nb.len();
        if has_p && has_n && pb[i] == nb[j] {
            out.push(pb[i]);
            proof {
                assert(rp.drop_first() =~= ps.skip(i + 1));
                assert(rn.drop_first() =~= ns.skip(j + 1));
                assert(ascii_chars(out@) =~= ascii_chars(before) + seq![rp[0]]);
            }
            i = i + 1;
            j = j + 1;
        } else if !has_p && has_n && nb[j] == 97u8 {
            out.push(97u8);
            proof {
                assert(rn.drop_first() =~= ns.skip(j + 1));
                assert(ascii_chars(out@) =~= ascii_chars(before) + seq!['a']);
            }
            j = j + 1;
        } else if !has_p && has_n && nb[j] == 98u8 {
            out.push(97u8);
            proof {
                assert(ns.skip(nb@.len() as int) =~= Seq::<char>::empty());
                assert(ascii_chars(out@) =~= ascii_chars(before) + seq!['a']);
            }
            j = nb.len();
        } else if has_p && pb[i] as u16 + 1 == (if has_n { nb[j] as u16 } else { 123u16 }) {
            out.push(pb[i]);
            proof {
                assert(rp.drop_first() =~= ps.skip(i + 1));
                assert(ns.skip(nb@.len() as int) =~= Seq::<char>::empty());
                assert(ascii_chars(out@) =~= ascii_chars(before) + seq![rp[0]]);
            }
            i = i + 1;
            j = nb.len();
        } else {
            let p: u8 = if has_p { pb[i] } else { 96u8 };
            let n: u8 = if has_n { nb[j] } else { 123u8 };
            let c: u8 = (p + n + 1) / 2;
            out.push(c);
            proof {
                assert(ascii_chars(out@) =~= ascii_chars(before) + seq![
                    mid_char(lower_code(rp), upper_code(rn))
                ]);
            }
            break;
        }
    }
    proof {
        if is_key_text(ps) && is_key_text(ns) && below_bound(ps, ns) && !no_key_between(ps, ns) {
            lemma_midpoint_between(ps, ns);
        }
    }
    ascii_string(out)
}

} // verus!
