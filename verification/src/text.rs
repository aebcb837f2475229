//! Plain string helpers shared by the validator and the renderer: joining a
//! list of strings with a separator, and the lexicographic order used to sort
//! key names deterministically.

use vstd::prelude::*;

verus! {

/// The sequence obtained by writing every part in order, with `sep` between
/// consecutive parts.
pub open spec fn join_sep(parts: Seq<Seq<char>>, sep: Seq<char>) -> Seq<char>
    decreases parts.len(),
{
    if parts.len() == 0 {
        Seq::<char>::empty()
    } else if parts.len() == 1 {
        parts[0]
    } else {
        parts[0] + sep + join_sep(parts.drop_first(), sep)
    }
}

pub proof fn lemma_join_sep_push(parts: Seq<Seq<char>>, sep: Seq<char>, last: Seq<char>)
    requires
        parts.len() > 0,
    ensures
        join_sep(parts.push(last), sep) == join_sep(parts, sep) + sep + last,
    decreases parts.len(),
{
    if parts.len() == 1 {
        assert(parts.push(last).drop_first() =~= seq![last]);
        assert(join_sep(seq![last], sep) == last);
        assert(parts.push(last)[0] == parts[0]);
        assert(join_sep(parts.push(last), sep) == parts[0] + sep + last);
    } else {
        lemma_join_sep_push(parts.drop_first(), sep, last);
        assert(parts.push(last).drop_first() =~= parts.drop_first().push(last));
        assert(join_sep(parts, sep) + sep + last == parts[0] + sep + (join_sep(
            parts.drop_first(),
            sep,
        ) + sep + last));
    }
}

/// Joins the parts with the given separator.
pub fn join_with(parts: &Vec<String>, sep: &str) -> (r: String)
    ensures
        r@ == join_sep(parts.deep_view(), sep@),
{
    let mut out = String::new();
    let mut i: usize = 0;
    while i < parts.len()
        invariant
            i <= parts.len(),
            out@ == join_sep(parts.deep_view().take(i as int), sep@),
        decreases parts.len() - i,
    {
        if i > 0 {
            out.append(sep);
        }
        out.append(parts[i].as_str());
        proof {
            let dv = parts.deep_view();
            assert(dv.take(i + 1) =~= dv.take(i as int).push(dv[i as int]));
            if i > 0 {
                lemma_join_sep_push(dv.take(i as int), sep@, dv[i as int]);
            }
        }
        i = i + 1;
    }
    proof {
        assert(parts.deep_view().take(parts.deep_view().len() as int) =~= parts.deep_view());
    }
    out
}

/// Character-by-character equality of two strings.
pub fn str_eq(a: &str, b: &str) -> (r: bool)
    ensures
        r == (a@ == b@),
{
    let na = a.unicode_len();
    let nb = b.unicode_len();
    if na != nb {
        return false;
    }
    let mut i: usize = 0;
    while i < na
        invariant
            na == a@.len() && na == b@.len(),
            i <= na,
            forall|j: int| 0 <= j < i ==> a@[j] == b@[j],
        decreases na - i,
    {
        if a.get_char(i) != b.get_char(i) {
            return false;
        }
        i = i + 1;
    }
    proof {
        assert(a@ =~= b@);
    }
    true
}

/// Lexicographic order on character sequences, by Unicode scalar value (the
/// order of `str`'s own comparison); the order in which offending key names
/// are listed.
pub open spec fn lex_le(a: Seq<char>, b: Seq<char>) -> bool
    decreases a.len(),
{
    if a.len() == 0 {
        true
    } else if b.len() == 0 {
        false
    } else if a[0] == b[0] {
        lex_le(a.drop_first(), b.drop_first())
    } else {
        a[0] < b[0]
    }
}

pub proof fn lemma_lex_le_total(a: Seq<char>, b: Seq<char>)
    ensures
        lex_le(a, b) || lex_le(b, a),
        lex_le(a, b) && lex_le(b, a) ==> a == b,
    decreases a.len(),
{
    if a.len() == 0 || b.len() == 0 {
        if lex_le(a, b) && lex_le(b, a) {
            assert(a =~= b);
        }
    } else {
        lemma_lex_le_total(a.drop_first(), b.drop_first());
        if lex_le(a, b) && lex_le(b, a) {
            assert(a[0] == b[0]);
            assert(a.drop_first() == b.drop_first());
            assert(a =~= seq![a[0]] + a.drop_first());
            assert(b =~= seq![b[0]] + b.drop_first());
        }
    }
}

pub proof fn lemma_lex_le_trans(a: Seq<char>, b: Seq<char>, c: Seq<char>)
    requires
        lex_le(a, b),
        lex_le(b, c),
    ensures
        lex_le(a, c),
    decreases a.len(),
{
    if a.len() == 0 || b.len() == 0 || c.len() == 0 {
    } else {
        if a[0] == b[0] && b[0] == c[0] {
            lemma_lex_le_trans(a.drop_first(), b.drop_first(), c.drop_first());
        }
    }
}

/// The order used throughout: `lex_le` as a binary relation value.
pub open spec fn lex_leq() -> spec_fn(Seq<char>, Seq<char>) -> bool {
    |a: Seq<char>, b: Seq<char>| lex_le(a, b)
}

pub proof fn lemma_lex_leq_total_ordering()
    ensures
        vstd::relations::total_ordering(lex_leq()),
{
    let leq = lex_leq();
    assert forall|a: Seq<char>| #[trigger] leq(a, a) by {
        lemma_lex_le_total(a, a);
    }
    assert forall|a: Seq<char>, b: Seq<char>|
        #[trigger] leq(a, b) && #[trigger] leq(b, a) implies a == b by {
        lemma_lex_le_total(a, b);
    }
    assert forall|a: Seq<char>, b: Seq<char>, c: Seq<char>|
        #[trigger] leq(a, b) && #[trigger] leq(b, c) implies leq(a, c) by {
        lemma_lex_le_trans(a, b, c);
    }
    assert forall|a: Seq<char>, b: Seq<char>| #[trigger] leq(a, b) || #[trigger] leq(b, a) by {
        lemma_lex_le_total(a, b);
    }
}

/// Whether a string comes no later than another in lexicographic order.
pub fn str_lex_le(a: &str, b: &str) -> (r: bool)
    ensures
        r == lex_le(a@, b@),
{
    let na = a.unicode_len();
    let nb = b.unicode_len();
    let mut i: usize = 0;
    proof {
        assert(a@.skip(0) =~= a@);
        assert(b@.skip(0) =~= b@);
    }
    loop
        invariant
            na == a@.len(),
            nb == b@.len(),
            i <= na,
            i <= nb,
            lex_le(a@, b@) == lex_le(a@.skip(i as int), b@.skip(i as int)),
        decreases na - i,
    {
        if i == na {
            proof {
                assert(a@.skip(i as int).len() == 0);
            }
            return true;
        }
        if i == nb {
            proof {
                assert(b@.skip(i as int).len() == 0);
                assert(a@.skip(i as int).len() > 0);
            }
            return false;
        }
        let ca = a.get_char(i);
        let cb = b.get_char(i);
        proof {
            let sa = a@.skip(i as int);
            let sb = b@.skip(i as int);
            assert(sa[0] == a@[i as int]);
            assert(sb[0] == b@[i as int]);
            assert(sa.drop_first() =~= a@.skip(i + 1));
            assert(sb.drop_first() =~= b@.skip(i + 1));
        }
        if ca == cb {
            i = i + 1;
        } else {
            return ca < cb;
        }
    }
}

/// Whether `needle` occurs contiguously somewhere in `hay`.
pub open spec fn contains_sub(hay: Seq<char>, needle: Seq<char>) -> bool {
    exists|off: int|
        0 <= off && off + needle.len() <= hay.len() && #[trigger] hay.subrange(
            off,
            off + needle.len(),
        ) == needle
}

pub proof fn lemma_contains_sub_extend(
    pre: Seq<char>,
    mid: Seq<char>,
    post: Seq<char>,
    needle: Seq<char>,
)
    requires
        contains_sub(mid, needle),
    ensures
        contains_sub(pre + mid + post, needle),
{
    let off = choose|off: int|
        0 <= off && off + needle.len() <= mid.len() && #[trigger] mid.subrange(
            off,
            off + needle.len(),
        ) == needle;
    let whole = pre + mid + post;
    assert(whole.subrange(pre.len() + off, pre.len() + off + needle.len()) =~= mid.subrange(
        off,
        off + needle.len(),
    ));
}

/// Every part occurs contiguously in the joined string.
pub proof fn lemma_join_contains_part(parts: Seq<Seq<char>>, sep: Seq<char>, j: int)
    requires
        0 <= j < parts.len(),
    ensures
        contains_sub(join_sep(parts, sep), parts[j]),
    decreases parts.len(),
{
    if parts.len() == 1 {
        assert(join_sep(parts, sep).subrange(0, 0 + parts[0].len() as int) =~= parts[0]);
    } else if j == 0 {
        assert(join_sep(parts, sep).subrange(0, 0 + parts[0].len() as int) =~= parts[0]);
    } else {
        lemma_join_contains_part(parts.drop_first(), sep, j - 1);
        lemma_contains_sub_extend(
            parts[0] + sep,
            join_sep(parts.drop_first(), sep),
            Seq::<char>::empty(),
            parts.drop_first()[j - 1],
        );
        assert(parts[0] + sep + join_sep(parts.drop_first(), sep) + Seq::<char>::empty()
            =~= join_sep(parts, sep));
        assert(parts.drop_first()[j - 1] == parts[j]);
    }
}

/// The position at which a string joins an already sorted list without
/// disturbing the order.
fn insert_pos(sorted: &Vec<String>, x: &str) -> (j: usize)
    requires
        vstd::relations::sorted_by(sorted.deep_view(), lex_leq()),
    ensures
        j <= sorted.deep_view().len(),
        forall|k: int| 0 <= k < j ==> lex_le(sorted.deep_view()[k], x@),
        forall|k: int| j <= k < sorted.deep_view().len() ==> lex_le(x@, sorted.deep_view()[k]),
{
    let dv = Ghost(sorted.deep_view());
    let mut j: usize = sorted.len();
    loop
        invariant
            j <= sorted.deep_view().len(),
            dv@ == sorted.deep_view(),
            vstd::relations::sorted_by(dv@, lex_leq()),
            forall|k: int| j <= k < dv@.len() ==> lex_le(x@, dv@[k]),
        ensures
            j <= dv@.len(),
            forall|k: int| 0 <= k < j ==> lex_le(dv@[k], x@),
            forall|k: int| j <= k < dv@.len() ==> lex_le(x@, dv@[k]),
        decreases j,
    {
        if j == 0 {
            break ;
        }
        if str_lex_le(sorted[j - 1].as_str(), x) {
            proof {
                assert forall|k: int| 0 <= k < j implies lex_le(dv@[k], x@) by {
                    if k < j - 1 {
                        assert(lex_leq()(dv@[k], dv@[j - 1]));
                        assert(lex_le(dv@[k], dv@[j - 1]));
                        lemma_lex_le_trans(dv@[k], dv@[j - 1], x@);
                    }
                }
            }
            break ;
        }
        proof {
            lemma_lex_le_total(dv@[j - 1], x@);
        }
        j = j - 1;
    }
    j
}

/// Sorts the strings in lexicographic order; the result is the unique sorted
/// arrangement of the input, as `Seq::sort_by` describes it.
pub fn sort_strings(v: &mut Vec<String>)
    ensures
        final(v).deep_view() == old(v).deep_view().sort_by(lex_leq()),
{
    let ghost orig = old(v).deep_view();
    let mut out: Vec<String> = Vec::new();
    let mut i: usize = 0;
    proof {
        assert(out.deep_view() =~= Seq::<Seq<char>>::empty());
        assert(orig.take(0) =~= Seq::<Seq<char>>::empty());
    }
    while i < v.len()
        invariant
            i <= v.len(),
            v.deep_view() == orig,
            i <= orig.len(),
            out.deep_view().to_multiset() == orig.take(i as int).to_multiset(),
            vstd::relations::sorted_by(out.deep_view(), lex_leq()),
        decreases v.len() - i,
    {
        let ghost out0 = out.deep_view();
        let elem = v[i].clone();
        let j = insert_pos(&out, elem.as_str());
        out.insert(j, elem);
        proof {
            let dv = v.deep_view();
            assert(elem@ == dv[i as int]);
            assert(out.deep_view() =~= out0.insert(j as int, dv[i as int]));
            lemma_sorted_insert(out0, j as int, dv[i as int]);
            vstd::seq_lib::to_multiset_insert(out0, j as int, dv[i as int]);
            assert(orig.take(i + 1) =~= orig.take(i as int).push(dv[i as int]));
            vstd::seq_lib::to_multiset_build(orig.take(i as int), dv[i as int]);
        }
        i = i + 1;
    }
    proof {
        assert(orig.take(orig.len() as int) =~= orig);
        lemma_lex_leq_total_ordering();
        orig.lemma_sort_by_ensures(lex_leq());
        vstd::seq_lib::lemma_sorted_unique(out.deep_view(), orig.sort_by(lex_leq()), lex_leq());
    }
    *v = out;
}

proof fn lemma_sorted_insert(s: Seq<Seq<char>>, j: int, x: Seq<char>)
    requires
        vstd::relations::sorted_by(s, lex_leq()),
        0 <= j <= s.len(),
        forall|k: int| 0 <= k < j ==> lex_le(s[k], x),
        forall|k: int| j <= k < s.len() ==> lex_le(x, s[k]),
    ensures
        vstd::relations::sorted_by(s.insert(j, x), lex_leq()),
{
    let t = s.insert(j, x);
    assert forall|p: int, q: int| 0 <= p < q < t.len() implies lex_leq()(t[p], t[q]) by {
        if p < j && q == j {
        } else if p == j && q > j {
        } else if p < j && q > j {
            assert(t[p] == s[p] && t[q] == s[q - 1]);
        } else if q < j {
            assert(t[p] == s[p] && t[q] == s[q]);
        } else {
            assert(t[p] == s[p - 1] && t[q] == s[q - 1]);
        }
    }
}

} // verus!
