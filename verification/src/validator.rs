//! The field validator. After the reader has produced a structurally
//! complete value, five independent rule groups run in order — allowed
//! fields, name, description, compatibility, and nothing for the
//! unconstrained fields — each contributing zero or more messages to one
//! pooled list, so a caller sees every problem in one pass. Only a
//! structural failure aborts the pipeline early and is reported alone.

use vstd::prelude::*;
use crate::errors::SkillError;
use crate::fs::FileSystem;
use crate::frontmatter::FrontmatterSpec;
use crate::frontmatter::frontmatter_of;
use crate::models::SkillProperties;
use crate::parser::coercion_ok;
use crate::parser::keys_match;
use crate::parser::props_match_fields;
use crate::parser::text_of;
use crate::paths::dir_segment;
use crate::paths::dir_segment_of;
use crate::text::join_sep;
use crate::text::join_with;
use crate::text::lex_leq;
use crate::text::sort_strings;
use crate::text::str_eq;
use crate::unicode::char_alphanumeric;
use crate::unicode::is_alphanumeric;
use crate::unicode::lower_of;
use crate::unicode::nfkc;
use crate::unicode::nfkc_of;
use crate::unicode::to_lowercase;
use crate::unicode::trim;
use crate::unicode::trim_of;

verus! {

/// Names may hold at most this many codepoints after normalization;
/// exactly the limit passes.
pub const MAX_NAME_LEN: usize = 64;

/// Descriptions may hold at most this many codepoints.
pub const MAX_DESC_LEN: usize = 1024;

/// Compatibility strings may hold at most this many codepoints.
pub const MAX_COMPAT_LEN: usize = 500;

/// The fixed allow-list of frontmatter keys.
pub open spec fn is_allowed_key(k: Seq<char>) -> bool {
    ||| k == "name"@
    ||| k == "description"@
    ||| k == "license"@
    ||| k == "allowed-tools"@
    ||| k == "metadata"@
    ||| k == "compatibility"@
}

/// Zero or one message, depending on whether the rule fired.
pub open spec fn opt_msg(fired: bool, msg: Seq<char>) -> Seq<Seq<char>> {
    if fired {
        seq![msg]
    } else {
        Seq::<Seq<char>>::empty()
    }
}

/// The keys outside the allow-list, in the order given.
pub open spec fn extra_keys(ks: Seq<Seq<char>>) -> Seq<Seq<char>> {
    ks.filter(|k: Seq<char>| !is_allowed_key(k))
}

/// The one pooled message of the allowed-fields group: every offending key,
/// sorted for determinism, with the full allow-list; no message when every
/// key is recognized.
pub open spec fn allowed_fields_errors(ks: Seq<Seq<char>>) -> Seq<Seq<char>> {
    let extras = extra_keys(ks).sort_by(lex_leq());
    opt_msg(
        extras.len() > 0,
        "Unexpected fields in frontmatter: "@ + join_sep(extras, ", "@)
            + ". Only name, description, license, allowed-tools, metadata, compatibility are allowed."@,
    )
}

/// Two `-` in a row somewhere in the name.
pub open spec fn has_consecutive_hyphens(n: Seq<char>) -> bool {
    exists|i: int| 0 <= i < n.len() - 1 && n[i] == '-' && #[trigger] n[i + 1] == '-'
}

/// Some character that is neither alphanumeric nor a hyphen.
pub open spec fn has_invalid_char(n: Seq<char>) -> bool {
    exists|i: int| 0 <= i < n.len() && !(char_alphanumeric(#[trigger] n[i]) || n[i] == '-')
}

/// The name/directory mismatch message, showing the trimmed name and the
/// raw directory segment as given, not their normalizations.
pub open spec fn mismatch_message(trimmed: Seq<char>, segment: Seq<char>) -> Seq<char> {
    "name '"@ + trimmed + "' must match directory name '"@ + segment + "'"@
}

/// Every message of the name rule group, in evaluation order. An empty
/// (after trimming) name short-circuits the group; otherwise the name and
/// the directory's final segment are NFKC-normalized and every applicable
/// rule contributes: the codepoint limit, lowercase-only, hyphen placement,
/// the character set, and the cross-field match with the directory.
pub open spec fn name_errors(name: Seq<char>, path: Seq<char>) -> Seq<Seq<char>> {
    if trim_of(name).len() == 0 {
        seq!["name must be a non-empty string"@]
    } else {
        let n = nfkc_of(trim_of(name));
        let d = nfkc_of(dir_segment_of(path));
        opt_msg(n.len() > MAX_NAME_LEN, "name exceeds 64 character limit"@) + opt_msg(
            n != lower_of(n),
            "name must be lowercase"@,
        ) + opt_msg(
            n.len() > 0 && (n[0] == '-' || n.last() == '-'),
            "name cannot start or end with a hyphen"@,
        ) + opt_msg(has_consecutive_hyphens(n), "name cannot contain consecutive hyphens"@)
            + opt_msg(
            has_invalid_char(n),
            "name contains invalid characters; only letters, digits, and hyphens are allowed"@,
        ) + opt_msg(d != n, mismatch_message(trim_of(name), dir_segment_of(path)))
    }
}

/// The description rule group: empty after trimming short-circuits,
/// otherwise only the codepoint limit applies, to the string as given.
pub open spec fn description_errors(desc: Seq<char>) -> Seq<Seq<char>> {
    if trim_of(desc).len() == 0 {
        seq!["description must be a non-empty string"@]
    } else {
        opt_msg(desc.len() > MAX_DESC_LEN, "description exceeds 1024 character limit"@)
    }
}

/// The compatibility rule group: only the codepoint limit.
pub open spec fn compatibility_errors(compat: Seq<char>) -> Seq<Seq<char>> {
    opt_msg(compat.len() > MAX_COMPAT_LEN, "compatibility exceeds 500 character limit"@)
}

/// Every content message of one validation run, pooled in group order, for
/// a header whose fields are `m` and whose raw keys are `ks`.
pub open spec fn pooled_errors(
    ks: Seq<Seq<char>>,
    m: Map<Seq<char>, crate::frontmatter::SpecValue>,
    path: Seq<char>,
) -> Seq<Seq<char>> {
    allowed_fields_errors(ks) + name_errors(text_of(m, "name"@), path) + description_errors(
        text_of(m, "description"@),
    ) + (if m.contains_key("compatibility"@) {
        compatibility_errors(text_of(m, "compatibility"@))
    } else {
        Seq::<Seq<char>>::empty()
    })
}

/// Some key list that reflects the header's fields; every list that does
/// yields the same pooled report, so the choice cannot show through.
pub open spec fn canonical_keys(m: Map<Seq<char>, crate::frontmatter::SpecValue>) -> Seq<
    Seq<char>,
> {
    choose|ks: Seq<Seq<char>>| keys_match(ks, m)
}

/// Every content message of one validation run, as a function of the
/// header's fields and the skill directory path alone.
pub open spec fn document_errors(
    m: Map<Seq<char>, crate::frontmatter::SpecValue>,
    path: Seq<char>,
) -> Seq<Seq<char>> {
    pooled_errors(canonical_keys(m), m, path)
}

/// Whether a key is on the fixed allow-list.
fn is_allowed_key_exec(k: &str) -> (r: bool)
    ensures
        r == is_allowed_key(k@),
{
    str_eq(k, "name") || str_eq(k, "description") || str_eq(k, "license") || str_eq(
        k,
        "allowed-tools",
    ) || str_eq(k, "metadata") || str_eq(k, "compatibility")
}

/// The allowed-fields check, over the keys literally present in the header.
/// Every offending key is reported in one message, sorted, together with the
/// allow-list; recognized keys pass.
pub fn validate_allowed_fields(keys: &Vec<String>) -> (r: Result<(), SkillError>)
    ensures
        r is Ok <==> allowed_fields_errors(keys.deep_view()).len() == 0,
        r matches Err(e) ==> e matches SkillError::Validation(msgs) && msgs.deep_view()
            == allowed_fields_errors(keys.deep_view()),
{
    let ghost dv = keys.deep_view();
    let ghost pred = |k: Seq<char>| !is_allowed_key(k);
    let mut extras: Vec<String> = Vec::new();
    let mut i: usize = 0;
    proof {
        reveal(Seq::filter);
        assert(dv.take(0) =~= Seq::<Seq<char>>::empty());
        assert(extras.deep_view() =~= dv.take(0).filter(pred));
    }
    while i < keys.len()
        invariant
            i <= keys.len(),
            dv == keys.deep_view(),
            extras.deep_view() == dv.take(i as int).filter(pred),
            pred == (|k: Seq<char>| !is_allowed_key(k)),
        decreases keys.len() - i,
    {
        let ghost before = extras.deep_view();
        if !is_allowed_key_exec(keys[i].as_str()) {
            extras.push(keys[i].clone());
        }
        proof {
            reveal(Seq::filter);
            assert(dv.take(i + 1).drop_last() =~= dv.take(i as int));
            assert(dv.take(i + 1).last() == dv[i as int]);
            if pred(dv[i as int]) {
                assert(extras.deep_view() =~= before.push(dv[i as int]));
                assert(dv.take(i + 1).filter(pred) =~= dv.take(i as int).filter(pred).push(
                    dv[i as int],
                ));
            } else {
                assert(dv.take(i + 1).filter(pred) =~= dv.take(i as int).filter(pred));
            }
        }
        i = i + 1;
    }
    proof {
        assert(dv.take(dv.len() as int) =~= dv);
    }
    if extras.len() == 0 {
        proof {
            crate::text::lemma_lex_leq_total_ordering();
            extra_keys(dv).lemma_sort_by_ensures(lex_leq());
            vstd::seq_lib::to_multiset_len(extra_keys(dv));
            vstd::seq_lib::to_multiset_len(extra_keys(dv).sort_by(lex_leq()));
        }
        return Ok(());
    }
    sort_strings(&mut extras);
    let mut message = String::from_str("Unexpected fields in frontmatter: ");
    let joined = join_with(&extras, ", ");
    message.append(joined.as_str());
    message.append(
        ". Only name, description, license, allowed-tools, metadata, compatibility are allowed.",
    );
    let mut messages: Vec<String> = Vec::new();
    messages.push(message);
    proof {
        crate::text::lemma_lex_leq_total_ordering();
        extra_keys(dv).lemma_sort_by_ensures(lex_leq());
        vstd::seq_lib::to_multiset_len(extra_keys(dv));
        vstd::seq_lib::to_multiset_len(extra_keys(dv).sort_by(lex_leq()));
        assert(messages.deep_view() =~~= allowed_fields_errors(dv));
    }
    Err(SkillError::Validation(messages))
}

/// Whether the string holds two `-` in a row.
fn find_consecutive_hyphens(s: &str) -> (r: bool)
    ensures
        r == has_consecutive_hyphens(s@),
{
    let n = s.unicode_len();
    if n == 0 {
        return false;
    }
    let mut k: usize = 1;
    while k < n
        invariant
            1 <= k,
            n == s@.len(),
            forall|j: int| 0 < j < k ==> !(s@[j - 1] == '-' && #[trigger] s@[j] == '-'),
        decreases n - k,
    {
        if s.get_char(k - 1) == '-' && s.get_char(k) == '-' {
            assert(s@[k - 1] == '-' && s@[k - 1 + 1] == '-');
            return true;
        }
        k = k + 1;
    }
    assert forall|i: int| 0 <= i < s@.len() - 1 implies !(s@[i] == '-' && #[trigger] s@[i + 1]
        == '-') by {
        assert(!(s@[i + 1 - 1] == '-' && s@[i + 1] == '-'));
    }
    false
}

/// Whether the string holds a character that is neither alphanumeric nor a
/// hyphen.
fn find_invalid_char(s: &str) -> (r: bool)
    ensures
        r == has_invalid_char(s@),
{
    let n = s.unicode_len();
    let mut k: usize = 0;
    while k < n
        invariant
            n == s@.len(),
            forall|j: int| 0 <= j < k ==> char_alphanumeric(#[trigger] s@[j]) || s@[j] == '-',
        decreases n - k,
    {
        let c = s.get_char(k);
        if !(is_alphanumeric(c) || c == '-') {
            return true;
        }
        k = k + 1;
    }
    false
}

/// The name rule group. Empty after trimming short-circuits with one
/// message; otherwise the trimmed name is NFKC-normalized and checked
/// against the codepoint limit, lowercase-only, hyphen placement, the
/// character set, and the normalized final segment of the skill directory,
/// pooling every message that applies.
pub fn validate_name(name: &str, skill_path: &str) -> (r: Result<(), SkillError>)
    ensures
        r is Ok <==> name_errors(name@, skill_path@).len() == 0,
        r matches Err(e) ==> e matches SkillError::Validation(msgs) && msgs.deep_view()
            == name_errors(name@, skill_path@) && msgs.deep_view().len() > 0,
{
    let trimmed = trim(name);
    let mut errors: Vec<String> = Vec::new();
    if trimmed.is_empty() {
        errors.push(String::from_str("name must be a non-empty string"));
        proof {
            assert(errors.deep_view() =~= name_errors(name@, skill_path@));
        }
        return Err(SkillError::Validation(errors));
    }
    let normalized = nfkc(trimmed);
    let n_len = normalized.as_str().unicode_len();
    if n_len > MAX_NAME_LEN {
        errors.push(String::from_str("name exceeds 64 character limit"));
    }
    let lowered = to_lowercase(normalized.as_str());
    if !str_eq(normalized.as_str(), lowered.as_str()) {
        errors.push(String::from_str("name must be lowercase"));
    }
    if n_len > 0 && (normalized.as_str().get_char(0) == '-' || normalized.as_str().get_char(
        n_len - 1,
    ) == '-') {
        errors.push(String::from_str("name cannot start or end with a hyphen"));
    }
    if find_consecutive_hyphens(normalized.as_str()) {
        errors.push(String::from_str("name cannot contain consecutive hyphens"));
    }
    if find_invalid_char(normalized.as_str()) {
        errors.push(
            String::from_str(
                "name contains invalid characters; only letters, digits, and hyphens are allowed",
            ),
        );
    }
    let segment = dir_segment(skill_path);
    let normalized_dir = nfkc(segment);
    if !str_eq(normalized_dir.as_str(), normalized.as_str()) {
        let mut msg = String::from_str("name '");
        msg.append(trimmed);
        msg.append("' must match directory name '");
        msg.append(segment);
        msg.append("'");
        errors.push(msg);
    }
    proof {
        assert(errors.deep_view() =~~= name_errors(name@, skill_path@));
    }
    if errors.len() > 0 {
        Err(SkillError::Validation(errors))
    } else {
        Ok(())
    }
}

/// The description rule group: empty after trimming short-circuits with one
/// message; otherwise only the codepoint limit is checked.
pub fn validate_description(desc: &str) -> (r: Result<(), SkillError>)
    ensures
        r is Ok <==> description_errors(desc@).len() == 0,
        r matches Err(e) ==> e matches SkillError::Validation(msgs) && msgs.deep_view()
            == description_errors(desc@) && msgs.deep_view().len() > 0,
{
    let trimmed = trim(desc);
    let mut errors: Vec<String> = Vec::new();
    if trimmed.is_empty() {
        errors.push(String::from_str("description must be a non-empty string"));
        proof {
            assert(errors.deep_view() =~= description_errors(desc@));
        }
        return Err(SkillError::Validation(errors));
    }
    if desc.unicode_len() > MAX_DESC_LEN {
        errors.push(String::from_str("description exceeds 1024 character limit"));
    }
    proof {
        assert(errors.deep_view() =~= description_errors(desc@));
    }
    if errors.len() > 0 {
        Err(SkillError::Validation(errors))
    } else {
        Ok(())
    }
}

/// The compatibility rule group: only the codepoint limit.
pub fn validate_compatibility(compat: &str) -> (r: Result<(), SkillError>)
    ensures
        r is Ok <==> compatibility_errors(compat@).len() == 0,
        r matches Err(e) ==> e matches SkillError::Validation(msgs) && msgs.deep_view()
            == compatibility_errors(compat@) && msgs.deep_view().len() > 0,
{
    let mut errors: Vec<String> = Vec::new();
    if compat.unicode_len() > MAX_COMPAT_LEN {
        errors.push(String::from_str("compatibility exceeds 500 character limit"));
    }
    proof {
        assert(errors.deep_view() =~= compatibility_errors(compat@));
    }
    if errors.len() > 0 {
        Err(SkillError::Validation(errors))
    } else {
        Ok(())
    }
}

/// Pools one group's outcome into the running message list: a content
/// violation merges its messages and validation goes on; any other error is
/// terminal and passed through untouched.
pub fn collect_validation_errors(result: Result<(), SkillError>, errors: &mut Vec<String>) -> (r:
    Result<(), SkillError>)
    ensures
        match result {
            Ok(()) => r is Ok && final(errors).deep_view() == old(errors).deep_view(),
            Err(SkillError::Validation(msgs)) => r is Ok && final(errors).deep_view() == old(
                errors,
            ).deep_view() + msgs.deep_view(),
            Err(e) => (r matches Err(e2) && e2 == e) && final(errors).deep_view() == old(
                errors,
            ).deep_view(),
        },
{
    match result {
        Ok(()) => Ok(()),
        Err(SkillError::Validation(mut msgs)) => {
            let ghost before = errors.deep_view();
            let ghost incoming = msgs.deep_view();
            errors.append(&mut msgs);
            proof {
                assert(errors.deep_view() =~= before + incoming);
            }
            Ok(())
        },
        Err(e) => Err(e),
    }
}

/// Validates one manifest document against its skill directory path: reads
/// the typed properties, then runs every rule group and pools all content
/// messages. A structural failure is terminal and reported alone; a
/// non-empty pool fails with the complete message list; otherwise the
/// properties are returned.
pub fn validate_document(content: &str, skill_path: &str) -> (r: Result<
    SkillProperties,
    SkillError,
>)
    ensures
        match frontmatter_of(content@) {
            FrontmatterSpec::ParseError => r matches Err(e) && e is Yaml,
            FrontmatterSpec::NotMapping => r matches Err(e) && e is Yaml,
            FrontmatterSpec::Missing => r matches Err(e) && e is MissingFrontmatter,
            FrontmatterSpec::Fields(m) => {
                if !coercion_ok(m) {
                    r matches Err(e) && e is Yaml
                } else if text_of(m, "name"@).len() == 0 {
                    r matches Err(e) && e matches SkillError::EmptyField(f) && f@ == "name"@
                } else if text_of(m, "description"@).len() == 0 {
                    r matches Err(e) && e matches SkillError::EmptyField(f) && f@ == "description"@
                } else {
                    match r {
                        Ok(props) => props_match_fields(props@, m) && document_errors(
                            m,
                            skill_path@,
                        ).len() == 0,
                        Err(e) => e matches SkillError::Validation(msgs) && msgs.deep_view().len()
                            > 0 && msgs.deep_view() == document_errors(m, skill_path@),
                    }
                }
            },
        },
{
    let (props, keys) = match crate::parser::read_properties_from(content) {
        Ok(pk) => pk,
        Err(e) => {
            return Err(e);
        },
    };
    let ghost ks = keys.deep_view();
    let mut errors: Vec<String> = Vec::new();
    let allowed_result = validate_allowed_fields(&keys);
    match collect_validation_errors(allowed_result, &mut errors) {
        Ok(()) => (),
        Err(e) => {
            return Err(e);
        },
    }
    let name_result = validate_name(props.name.as_str(), skill_path);
    match collect_validation_errors(name_result, &mut errors) {
        Ok(()) => (),
        Err(e) => {
            return Err(e);
        },
    }
    let description_result = validate_description(props.description.as_str());
    match collect_validation_errors(description_result, &mut errors) {
        Ok(()) => (),
        Err(e) => {
            return Err(e);
        },
    }
    match &props.compatibility {
        Some(compat) => {
            let compat_result = validate_compatibility(compat.as_str());
            match collect_validation_errors(compat_result, &mut errors) {
                Ok(()) => (),
                Err(e) => {
                    return Err(e);
                },
            }
        },
        None => (),
    }
    proof {
        let m = frontmatter_of(content@)->Fields_0;
        assert(errors.deep_view() =~~= pooled_errors(ks, m, skill_path@));
        assert(keys_match(canonical_keys(m), m));
        crate::laws::lemma_key_order_irrelevant(ks, canonical_keys(m), m);
    }
    if errors.len() > 0 {
        Err(SkillError::Validation(errors))
    } else {
        Ok(props)
    }
}

/// Validates the skill in a directory. Whatever the file-access capability
/// answers, a returned value satisfies every content rule against the given
/// path, and a content failure always carries the complete, non-empty
/// message list.
pub fn validate_skill<F: FileSystem>(fs: &F, skill_path: &str) -> (r: Result<
    SkillProperties,
    SkillError,
>)
    ensures
        r matches Ok(props) ==> name_errors(props@.name, skill_path@).len() == 0
            && description_errors(props@.description).len() == 0 && (props@.compatibility matches
        Some(c) ==> compatibility_errors(c).len() == 0),
        match r {
            Err(SkillError::Validation(msgs)) => msgs.deep_view().len() > 0,
            _ => true,
        },
{
    let manifest = match crate::parser::find_skill_md(fs, skill_path) {
        Ok(p) => p,
        Err(e) => {
            return Err(e);
        },
    };
    let content = match fs.read_to_string(manifest.as_str()) {
        Ok(c) => c,
        Err(m) => {
            return Err(SkillError::Io(m));
        },
    };
    validate_document(content.as_str(), skill_path)
}

} // verus!
