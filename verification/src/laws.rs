//! Cross-cutting guarantees of the validator, stated once and proved from
//! the rule groups' definitions.

use vstd::prelude::*;
use crate::frontmatter::SpecValue;
use crate::models::SkillPropertiesView;
use crate::parser::keys_match;
use crate::parser::props_match_fields;
use crate::text::contains_sub;
use crate::text::join_sep;
use crate::text::lemma_contains_sub_extend;
use crate::text::lemma_join_contains_part;
use crate::text::lemma_lex_leq_total_ordering;
use crate::text::lex_leq;
use crate::unicode::nfkc_of;
use crate::unicode::trim_of;
use crate::paths::dir_segment_of;
use crate::validator::allowed_fields_errors;
use crate::validator::extra_keys;
use crate::validator::is_allowed_key;
use crate::validator::mismatch_message;
use crate::validator::name_errors;

verus! {

/// A raw key outside the fixed allow-list always yields exactly one
/// allowed-fields violation, and that message names the offending key.
pub proof fn lemma_unknown_key_reported(ks: Seq<Seq<char>>, k: Seq<char>)
    requires
        ks.contains(k),
        !is_allowed_key(k),
    ensures
        allowed_fields_errors(ks).len() == 1,
        contains_sub(allowed_fields_errors(ks)[0], k),
{
    let pred = |x: Seq<char>| !is_allowed_key(x);
    let extras = extra_keys(ks);
    ks.filter_lemma(pred);
    let i = choose|i: int| 0 <= i < ks.len() && ks[i] == k;
    assert(extras.contains(k));
    lemma_lex_leq_total_ordering();
    extras.lemma_sort_by_ensures(lex_leq());
    let sorted = extras.sort_by(lex_leq());
    vstd::seq_lib::to_multiset_contains(extras, k);
    vstd::seq_lib::to_multiset_contains(sorted, k);
    assert(sorted.contains(k));
    let j = choose|j: int| 0 <= j < sorted.len() && sorted[j] == k;
    lemma_join_contains_part(sorted, ", "@, j);
    lemma_contains_sub_extend(
        "Unexpected fields in frontmatter: "@,
        join_sep(sorted, ", "@),
        ". Only name, description, license, allowed-tools, metadata, compatibility are allowed."@,
        k,
    );
}

/// Whenever the normalized trimmed name differs from the normalized final
/// directory segment, the name group reports the mismatch, naming the
/// original trimmed name and the directory segment as given.
pub proof fn lemma_name_directory_mismatch(name: Seq<char>, path: Seq<char>)
    requires
        trim_of(name).len() > 0,
        nfkc_of(trim_of(name)) != nfkc_of(dir_segment_of(path)),
    ensures
        name_errors(name, path).contains(
            mismatch_message(trim_of(name), dir_segment_of(path)),
        ),
{
    let errs = name_errors(name, path);
    assert(errs[errs.len() - 1] == mismatch_message(trim_of(name), dir_segment_of(path)));
}

/// Two reads of the same parsed header agree: the typed model is a function
/// of the header's fields, whatever order the fields were walked in.
pub proof fn lemma_reread_consistent(
    v1: SkillPropertiesView,
    v2: SkillPropertiesView,
    m: Map<Seq<char>, SpecValue>,
)
    requires
        props_match_fields(v1, m),
        props_match_fields(v2, m),
    ensures
        v1 == v2,
{
    match (v1.metadata, v2.metadata) {
        (Some(t1), Some(t2)) => {
            assert(SpecValue::Table(t1) == SpecValue::Table(t2));
        },
        _ => {},
    }
}

/// Two raw key lists that reflect the same header yield the same
/// allowed-fields report: the one message is sorted, so the order in which
/// the keys were walked cannot show through.
pub proof fn lemma_key_order_irrelevant(
    ks1: Seq<Seq<char>>,
    ks2: Seq<Seq<char>>,
    m: Map<Seq<char>, SpecValue>,
)
    requires
        keys_match(ks1, m),
        keys_match(ks2, m),
    ensures
        allowed_fields_errors(ks1) == allowed_fields_errors(ks2),
{
    lemma_lex_leq_total_ordering();
    lemma_filter_of_matching(ks1, m);
    lemma_filter_of_matching(ks2, m);
    let e1 = extra_keys(ks1);
    let e2 = extra_keys(ks2);
    e1.lemma_sort_by_ensures(lex_leq());
    e2.lemma_sort_by_ensures(lex_leq());
    lemma_no_duplicates_same_set_multiset(e1, e2);
    vstd::seq_lib::lemma_sorted_unique(
        e1.sort_by(lex_leq()),
        e2.sort_by(lex_leq()),
        lex_leq(),
    );
}

/// The offending keys of a key list are exactly the header's keys outside
/// the allow-list, without duplicates.
proof fn lemma_filter_of_matching(ks: Seq<Seq<char>>, m: Map<Seq<char>, SpecValue>)
    requires
        keys_match(ks, m),
    ensures
        forall|k: Seq<char>|
            #[trigger] extra_keys(ks).contains(k) <==> m.contains_key(k) && !is_allowed_key(k),
        extra_keys(ks).no_duplicates(),
{
    let pred = |x: Seq<char>| !is_allowed_key(x);
    ks.filter_lemma(pred);
    assert forall|k: Seq<char>| #[trigger]
        extra_keys(ks).contains(k) implies m.contains_key(k) && !is_allowed_key(k) by {
        lemma_filter_member_of(ks, pred, k);
        assert(ks.contains(k));
    }
    assert forall|k: Seq<char>|
        m.contains_key(k) && !is_allowed_key(k) implies #[trigger] extra_keys(ks).contains(k) by {
        assert(ks.contains(k));
        let i = choose|i: int| 0 <= i < ks.len() && ks[i] == k;
        assert(ks.filter(pred).contains(ks[i]));
    }
    lemma_filter_no_duplicates(ks, pred);
}

/// A member of a filtered sequence is a member of the original.
proof fn lemma_filter_member_of(s: Seq<Seq<char>>, pred: spec_fn(Seq<char>) -> bool, k: Seq<char>)
    requires
        s.filter(pred).contains(k),
    ensures
        s.contains(k),
    decreases s.len(),
{
    reveal(Seq::filter);
    if s.len() > 0 {
        if s.last() == k {
        } else {
            assert(s.drop_last().filter(pred).contains(k));
            lemma_filter_member_of(s.drop_last(), pred, k);
            let i = choose|i: int| 0 <= i < s.drop_last().len() && s.drop_last()[i] == k;
            assert(s[i] == k);
        }
    }
}

/// Filtering a duplicate-free sequence leaves it duplicate-free.
proof fn lemma_filter_no_duplicates(s: Seq<Seq<char>>, pred: spec_fn(Seq<char>) -> bool)
    requires
        forall|i: int, j: int| 0 <= i < j < s.len() ==> s[i] != s[j],
    ensures
        s.filter(pred).no_duplicates(),
    decreases s.len(),
{
    reveal(Seq::filter);
    if s.len() > 0 {
        lemma_filter_no_duplicates(s.drop_last(), pred);
        if pred(s.last()) {
            if s.drop_last().filter(pred).contains(s.last()) {
                lemma_filter_member_of(s.drop_last(), pred, s.last());
                let i = choose|i: int| 0 <= i < s.drop_last().len() && s.drop_last()[i] == s.last();
                assert(s[i] == s[s.len() - 1]);
                assert(false);
            }
            assert(s.filter(pred) == s.drop_last().filter(pred).push(s.last()));
        }
    }
}

/// Duplicate-free sequences with the same members have the same multiset.
proof fn lemma_no_duplicates_same_set_multiset(a: Seq<Seq<char>>, b: Seq<Seq<char>>)
    requires
        a.no_duplicates(),
        b.no_duplicates(),
        forall|k: Seq<char>| a.contains(k) <==> #[trigger] b.contains(k),
    ensures
        a.to_multiset() == b.to_multiset(),
{
    a.lemma_multiset_has_no_duplicates();
    b.lemma_multiset_has_no_duplicates();
    assert forall|k: Seq<char>| a.to_multiset().count(k) == #[trigger] b.to_multiset().count(
        k,
    ) by {
        vstd::seq_lib::to_multiset_contains(a, k);
        vstd::seq_lib::to_multiset_contains(b, k);
        if a.contains(k) {
        } else {
            assert(a.to_multiset().count(k) == 0);
            assert(b.to_multiset().count(k) == 0);
        }
    }
    assert(a.to_multiset() =~= b.to_multiset());
}

} // verus!
