//! Manifest discovery and the property reader: find the manifest file in a
//! skill directory, extract its frontmatter, and coerce the untyped fields
//! into the typed model while keeping the raw key set for the allow-list
//! check.

use vstd::prelude::*;
use crate::errors::SkillError;
use crate::frontmatter::FrontmatterSpec;
use crate::frontmatter::RawEntry;
use crate::frontmatter::RawValue;
use crate::frontmatter::SpecValue;
use crate::frontmatter::entries_to_map;
use crate::frontmatter::entries_wf;
use crate::frontmatter::keys_of;
use crate::frontmatter::frontmatter_of;
use crate::frontmatter::parse_frontmatter;
use crate::frontmatter::value_view;
use crate::fs::FileSystem;
use crate::models::SkillProperties;
use crate::models::SkillPropertiesView;
use crate::paths::joined_path;
use crate::text::str_eq;

verus! {

/// The value of a key that is present as a text scalar; `None` when the key
/// is absent or holds another shape.
pub open spec fn opt_text(m: Map<Seq<char>, SpecValue>, k: Seq<char>) -> Option<Seq<char>> {
    if m.contains_key(k) {
        match m[k] {
            SpecValue::Text(s) => Some(s),
            _ => None,
        }
    } else {
        None
    }
}

/// The text of a key known to hold a text scalar.
pub open spec fn text_of(m: Map<Seq<char>, SpecValue>, k: Seq<char>) -> Seq<char> {
    m[k]->Text_0
}

/// Whether the header's fields fit the typed model: `name` and
/// `description` present as text, the optional string fields text when
/// present, and `metadata` a string table when present. Unrecognized keys do
/// not matter here.
pub open spec fn coercion_ok(m: Map<Seq<char>, SpecValue>) -> bool {
    &&& m.contains_key("name"@) && m["name"@] is Text
    &&& m.contains_key("description"@) && m["description"@] is Text
    &&& m.contains_key("compatibility"@) ==> m["compatibility"@] is Text
    &&& m.contains_key("license"@) ==> m["license"@] is Text
    &&& m.contains_key("allowed-tools"@) ==> m["allowed-tools"@] is Text
    &&& m.contains_key("metadata"@) ==> m["metadata"@] is Table
}

/// The typed model holds exactly what the header's fields declared.
pub open spec fn props_match_fields(v: SkillPropertiesView, m: Map<Seq<char>, SpecValue>) -> bool {
    &&& Some(v.name) == opt_text(m, "name"@)
    &&& Some(v.description) == opt_text(m, "description"@)
    &&& v.compatibility == opt_text(m, "compatibility"@)
    &&& v.license == opt_text(m, "license"@)
    &&& v.allowed_tools == opt_text(m, "allowed-tools"@)
    &&& match v.metadata {
        Some(t) => m.contains_key("metadata"@) && m["metadata"@] == SpecValue::Table(t),
        None => !m.contains_key("metadata"@),
    }
}

/// The raw key set reflects exactly the parsed header: same keys, no
/// duplicates.
pub open spec fn keys_match(ks: Seq<Seq<char>>, m: Map<Seq<char>, SpecValue>) -> bool {
    &&& forall|k: Seq<char>| #[trigger] ks.contains(k) <==> m.contains_key(k)
    &&& forall|i: int, j: int| 0 <= i < j < ks.len() ==> ks[i] != ks[j]
}

pub proof fn lemma_entries_map_domain(entries: Seq<RawEntry>)
    ensures
        forall|k: Seq<char>|
            entries_to_map(entries).contains_key(k) <==> #[trigger] keys_of(entries).contains(k),
    decreases entries.len(),
{
    if entries.len() > 0 {
        lemma_entries_map_domain(entries.drop_last());
        assert(keys_of(entries).drop_last() =~= keys_of(entries.drop_last()));
        assert forall|k: Seq<char>|
            entries_to_map(entries).contains_key(k) implies #[trigger] keys_of(
            entries,
        ).contains(k) by {
            if k == entries.last().key@ {
                assert(keys_of(entries)[entries.len() - 1] == k);
            } else {
                assert(entries_to_map(entries.drop_last()).contains_key(k));
                assert(keys_of(entries.drop_last()).contains(k));
                let j = choose|j: int|
                    0 <= j < keys_of(entries.drop_last()).len() && keys_of(entries.drop_last())[j]
                        == k;
                assert(keys_of(entries.drop_last())[j] == entries.drop_last()[j].key@);
                assert(entries.drop_last()[j] == entries[j]);
                assert(keys_of(entries)[j] == entries[j].key@);
                assert(keys_of(entries).contains(k));
            }
        }
        assert forall|k: Seq<char>| #[trigger]
            keys_of(entries).contains(k) implies entries_to_map(entries).contains_key(k) by {
            let j = choose|j: int| 0 <= j < keys_of(entries).len() && keys_of(entries)[j] == k;
            assert(keys_of(entries)[j] == entries[j].key@);
            if j < entries.len() - 1 {
                assert(entries.drop_last()[j] == entries[j]);
                assert(keys_of(entries.drop_last())[j] == k);
                assert(keys_of(entries.drop_last()).contains(k));
            }
        }
    }
}

pub proof fn lemma_entries_map_index(entries: Seq<RawEntry>, i: int)
    requires
        forall|p: int, q: int| 0 <= p < q < entries.len() ==> entries[p].key@ != entries[q].key@,
        0 <= i < entries.len(),
    ensures
        entries_to_map(entries).contains_key(entries[i].key@),
        entries_to_map(entries)[entries[i].key@] == value_view(entries[i].value),
    decreases entries.len(),
{
    if i == entries.len() - 1 {
    } else {
        lemma_entries_map_index(entries.drop_last(), i);
        assert(entries.drop_last()[i] == entries[i]);
        assert(entries.last().key@ != entries[i].key@);
    }
}

/// The six recognized field keys are pairwise different.
proof fn lemma_field_keys_distinct()
    ensures
        "name"@ != "description"@,
        "name"@ != "compatibility"@,
        "name"@ != "license"@,
        "name"@ != "allowed-tools"@,
        "name"@ != "metadata"@,
        "description"@ != "compatibility"@,
        "description"@ != "license"@,
        "description"@ != "allowed-tools"@,
        "description"@ != "metadata"@,
        "compatibility"@ != "license"@,
        "compatibility"@ != "allowed-tools"@,
        "compatibility"@ != "metadata"@,
        "license"@ != "allowed-tools"@,
        "license"@ != "metadata"@,
        "allowed-tools"@ != "metadata"@,
{
    reveal_strlit("name");
    reveal_strlit("description");
    reveal_strlit("compatibility");
    reveal_strlit("license");
    reveal_strlit("allowed-tools");
    reveal_strlit("metadata");
    assert("name"@.len() == 4);
    assert("description"@.len() == 11);
    assert("compatibility"@.len() == 13);
    assert("license"@.len() == 7);
    assert("allowed-tools"@.len() == 13);
    assert("metadata"@.len() == 8);
    assert("compatibility"@[0] == 'c');
    assert("allowed-tools"@[0] == 'a');
}

/// Coerces the parsed header fields into the typed model, keeping the list
/// of keys literally present. Fails, as a structural error, when a required
/// field is absent or any recognized field holds the wrong shape.
pub fn properties_from_entries(entries: &Vec<RawEntry>) -> (r: Result<
    (SkillProperties, Vec<String>),
    SkillError,
>)
    requires
        entries_wf(entries@),
    ensures
        r is Ok <==> coercion_ok(entries_to_map(entries@)),
        r matches Ok(pk) ==> props_match_fields(pk.0@, entries_to_map(entries@))
            && pk.1.deep_view() == keys_of(entries@),
        r matches Err(e) ==> e is Yaml,
{
    let ghost m = entries_to_map(entries@);
    let mut keys: Vec<String> = Vec::new();
    let mut name_acc: Option<String> = None;
    let mut description_acc: Option<String> = None;
    let mut compatibility_acc: Option<String> = None;
    let mut license_acc: Option<String> = None;
    let mut allowed_tools_acc: Option<String> = None;
    let mut metadata_acc: Option<Vec<(String, String)>> = None;
    let mut i: usize = 0;
    proof {
        assert(entries@.take(0) =~= Seq::<RawEntry>::empty());
        assert(keys.deep_view() =~= keys_of(entries@.take(0)));
    }
    while i < entries.len()
        invariant
            i <= entries.len(),
            entries_wf(entries@),
            m == entries_to_map(entries@),
            keys.deep_view() == keys_of(entries@.take(i as int)),
            match name_acc {
                Some(s) => entries_to_map(entries@.take(i as int)).contains_key("name"@)
                    && entries_to_map(entries@.take(i as int))["name"@] == SpecValue::Text(s@),
                None => !entries_to_map(entries@.take(i as int)).contains_key("name"@),
            },
            match description_acc {
                Some(s) => entries_to_map(entries@.take(i as int)).contains_key("description"@)
                    && entries_to_map(entries@.take(i as int))["description"@] == SpecValue::Text(
                    s@,
                ),
                None => !entries_to_map(entries@.take(i as int)).contains_key("description"@),
            },
            match compatibility_acc {
                Some(s) => entries_to_map(entries@.take(i as int)).contains_key("compatibility"@)
                    && entries_to_map(entries@.take(i as int))["compatibility"@] == SpecValue::Text(
                    s@,
                ),
                None => !entries_to_map(entries@.take(i as int)).contains_key("compatibility"@),
            },
            match license_acc {
                Some(s) => entries_to_map(entries@.take(i as int)).contains_key("license"@)
                    && entries_to_map(entries@.take(i as int))["license"@] == SpecValue::Text(s@),
                None => !entries_to_map(entries@.take(i as int)).contains_key("license"@),
            },
            match allowed_tools_acc {
                Some(s) => entries_to_map(entries@.take(i as int)).contains_key("allowed-tools"@)
                    && entries_to_map(entries@.take(i as int))["allowed-tools"@] == SpecValue::Text(
                    s@,
                ),
                None => !entries_to_map(entries@.take(i as int)).contains_key("allowed-tools"@),
            },
            match metadata_acc {
                Some(pairs) => entries_to_map(entries@.take(i as int)).contains_key("metadata"@)
                    && entries_to_map(entries@.take(i as int))["metadata"@] == SpecValue::Table(
                    crate::models::pairs_to_map(pairs.deep_view()),
                ),
                None => !entries_to_map(entries@.take(i as int)).contains_key("metadata"@),
            },
        decreases entries.len() - i,
    {
        proof {
            lemma_field_keys_distinct();
            assert(entries@.take(i + 1) =~= entries@.take(i as int).push(entries@[i as int]));
            assert(entries@.take(i + 1).drop_last() =~= entries@.take(i as int));
            assert(entries@.take(i + 1).last() == entries@[i as int]);
            assert(entries_to_map(entries@.take(i + 1)) == entries_to_map(
                entries@.take(i as int),
            ).insert(entries@[i as int].key@, value_view(entries@[i as int].value)));
            assert(keys_of(entries@.take(i + 1)) =~= keys_of(entries@.take(i as int)).push(
                entries@[i as int].key@,
            ));
            lemma_entries_map_index(entries@, i as int);
        }
        let entry = &entries[i];
        if str_eq(entry.key.as_str(), "name") {
            match &entry.value {
                RawValue::Text(s) => {
                    proof {
                        assert(value_view(entries@[i as int].value) == SpecValue::Text(s@));
                    }
                    name_acc = Some(s.clone());
                },
                _ => {
                    return Err(
                        SkillError::Yaml(String::from_str("invalid type for field `name`")),
                    );
                },
            }
        } else if str_eq(entry.key.as_str(), "description") {
            match &entry.value {
                RawValue::Text(s) => {
                    proof {
                        assert(value_view(entries@[i as int].value) == SpecValue::Text(s@));
                    }
                    description_acc = Some(s.clone());
                },
                _ => {
                    return Err(
                        SkillError::Yaml(String::from_str("invalid type for field `description`")),
                    );
                },
            }
        } else if str_eq(entry.key.as_str(), "compatibility") {
            match &entry.value {
                RawValue::Text(s) => {
                    proof {
                        assert(value_view(entries@[i as int].value) == SpecValue::Text(s@));
                    }
                    compatibility_acc = Some(s.clone());
                },
                _ => {
                    return Err(
                        SkillError::Yaml(
                            String::from_str("invalid type for field `compatibility`"),
                        ),
                    );
                },
            }
        } else if str_eq(entry.key.as_str(), "license") {
            match &entry.value {
                RawValue::Text(s) => {
                    proof {
                        assert(value_view(entries@[i as int].value) == SpecValue::Text(s@));
                    }
                    license_acc = Some(s.clone());
                },
                _ => {
                    return Err(
                        SkillError::Yaml(String::from_str("invalid type for field `license`")),
                    );
                },
            }
        } else if str_eq(entry.key.as_str(), "allowed-tools") {
            match &entry.value {
                RawValue::Text(s) => {
                    proof {
                        assert(value_view(entries@[i as int].value) == SpecValue::Text(s@));
                    }
                    allowed_tools_acc = Some(s.clone());
                },
                _ => {
                    return Err(
                        SkillError::Yaml(
                            String::from_str("invalid type for field `allowed-tools`"),
                        ),
                    );
                },
            }
        } else if str_eq(entry.key.as_str(), "metadata") {
            match &entry.value {
                RawValue::Table(pairs) => {
                    let mut copied: Vec<(String, String)> = Vec::new();
                    let mut p: usize = 0;
                    proof {
                        assert(copied.deep_view() =~= pairs.deep_view().take(0));
                    }
                    while p < pairs.len()
                        invariant
                            p <= pairs.len(),
                            copied.deep_view() == pairs.deep_view().take(p as int),
                        decreases pairs.len() - p,
                    {
                        let pair = (pairs[p].0.clone(), pairs[p].1.clone());
                        copied.push(pair);
                        proof {
                            let dv = pairs.deep_view();
                            assert(pair.deep_view() == dv[p as int]);
                            assert(dv.take(p + 1) =~= dv.take(p as int).push(dv[p as int]));
                            assert(copied.deep_view() =~= dv.take(p + 1));
                        }
                        p = p + 1;
                    }
                    proof {
                        assert(pairs.deep_view().take(pairs@.len() as int) =~= pairs.deep_view());
                    }
                    proof {
                        assert(value_view(entries@[i as int].value) == SpecValue::Table(
                            crate::models::pairs_to_map(pairs.deep_view()),
                        ));
                    }
                    metadata_acc = Some(copied);
                },
                _ => {
                    return Err(
                        SkillError::Yaml(String::from_str("invalid type for field `metadata`")),
                    );
                },
            }
        }
        keys.push(entry.key.clone());
        proof {
            assert(keys.deep_view() =~= keys_of(entries@.take(i + 1)));
        }
        i = i + 1;
    }
    proof {
        assert(entries@.take(entries@.len() as int) =~= entries@);
    }
    let name = match name_acc {
        Some(s) => s,
        None => {
            return Err(SkillError::Yaml(String::from_str("missing field `name`")));
        },
    };
    let description = match description_acc {
        Some(s) => s,
        None => {
            return Err(SkillError::Yaml(String::from_str("missing field `description`")));
        },
    };
    let props = SkillProperties {
        name,
        description,
        compatibility: compatibility_acc,
        license: license_acc,
        allowed_tools: allowed_tools_acc,
        metadata: metadata_acc,
    };
    Ok((props, keys))
}

/// Reads the typed properties and the raw key set out of one document.
/// Structural failures come first: no parsable key-value frontmatter, a
/// field of the wrong shape, then an empty `name` or `description`.
pub fn read_properties_from(content: &str) -> (r: Result<
    (SkillProperties, Vec<String>),
    SkillError,
>)
    ensures
        match frontmatter_of(content@) {
            FrontmatterSpec::ParseError => r matches Err(e) && e is Yaml,
            FrontmatterSpec::NotMapping => r matches Err(e) && e is Yaml,
            FrontmatterSpec::Missing => r matches Err(e) && e is MissingFrontmatter,
            FrontmatterSpec::Fields(m) => {
                if !coercion_ok(m) {
                    r matches Err(e) && e is Yaml
                } else if text_of(m, "name"@).len() == 0 {
                    r matches Err(e) && e matches SkillError::EmptyField(f) && f@ == "name"@
                } else if text_of(m, "description"@).len() == 0 {
                    r matches Err(e) && e matches SkillError::EmptyField(f) && f@ == "description"@
                } else {
                    r matches Ok(pk) && props_match_fields(pk.0@, m) && keys_match(
                        pk.1.deep_view(),
                        m,
                    )
                }
            },
        },
{
    let entries = match parse_frontmatter(content) {
        Ok(entries) => entries,
        Err(e) => {
            return Err(e);
        },
    };
    let (props, keys) = match properties_from_entries(&entries) {
        Ok(pk) => pk,
        Err(e) => {
            return Err(e);
        },
    };
    if props.name.as_str().is_empty() {
        return Err(SkillError::EmptyField("name"));
    }
    if props.description.as_str().is_empty() {
        return Err(SkillError::EmptyField("description"));
    }
    proof {
        lemma_entries_map_domain(entries@);
    }
    Ok((props, keys))
}

/// Joins a directory path and a filename with a `/` separator.
pub fn join_path(dir: &str, file: &str) -> (r: String)
    ensures
        r@ == joined_path(dir@, file@),
{
    let n = dir.unicode_len();
    if n == 0 {
        return file.to_owned();
    }
    let mut out = dir.to_owned();
    if dir.get_char(n - 1) != '/' {
        out.append("/");
    }
    out.append(file);
    out
}

/// The locator's tie-break rule: given whether each canonical filename
/// exists, the uppercase one always wins when both are present, the
/// lowercase one is taken otherwise, and nothing found is
/// `SkillFileNotFound`.
pub fn select_manifest(upper: String, lower: String, upper_there: bool, lower_there: bool) -> (r:
    Result<String, SkillError>)
    ensures
        upper_there ==> (r matches Ok(p) && p == upper),
        !upper_there && lower_there ==> (r matches Ok(p) && p == lower),
        !upper_there && !lower_there ==> (r matches Err(e) && e is SkillFileNotFound),
{
    if upper_there {
        Ok(upper)
    } else if lower_there {
        Ok(lower)
    } else {
        Err(SkillError::SkillFileNotFound)
    }
}

/// Locates the manifest in a skill directory: `SKILL.md` first, then
/// `skill.md`; fails with `SkillFileNotFound` when neither exists.
pub fn find_skill_md<F: FileSystem>(fs: &F, skill_path: &str) -> (r: Result<String, SkillError>)
    ensures
        r matches Ok(p) ==> p@ == joined_path(skill_path@, "SKILL.md"@) || p@ == joined_path(
            skill_path@,
            "skill.md"@,
        ),
        r matches Err(e) ==> e is SkillFileNotFound,
{
    let upper = join_path(skill_path, "SKILL.md");
    let lower = join_path(skill_path, "skill.md");
    let upper_there = fs.path_exists(upper.as_str());
    let lower_there = fs.path_exists(lower.as_str());
    select_manifest(upper, lower, upper_there, lower_there)
}

/// Reads the typed properties and the raw key set of the skill in a
/// directory. Whatever the file-access capability answers, a success holds
/// non-empty `name` and `description`, and a failure is structural, never a
/// pooled content report.
pub fn read_properties<F: FileSystem>(fs: &F, skill_path: &str) -> (r: Result<
    (SkillProperties, Vec<String>),
    SkillError,
>)
    ensures
        r matches Ok(pk) ==> pk.0@.name.len() > 0 && pk.0@.description.len() > 0,
        r matches Ok(pk) ==> forall|i: int, j: int|
            0 <= i < j < pk.1.deep_view().len() ==> pk.1.deep_view()[i] != pk.1.deep_view()[j],
        r matches Err(e) ==> !(e is Validation),
{
    let manifest = match find_skill_md(fs, skill_path) {
        Ok(p) => p,
        Err(e) => {
            return Err(e);
        },
    };
    let content = match fs.read_to_string(manifest.as_str()) {
        Ok(c) => c,
        Err(m) => {
            return Err(SkillError::Io(m));
        },
    };
    read_properties_from(content.as_str())
}

} // verus!
