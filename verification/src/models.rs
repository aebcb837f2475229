//! The typed shape of a valid manifest header. `name` and `description` are
//! always present and non-empty in a value that has passed the read stage;
//! the optional fields are either absent or hold what the header declared.

use vstd::prelude::*;

verus! {

/// The mapping a list of key-value pairs denotes, later entries winning;
/// the pairs the parser hands over carry distinct keys.
pub open spec fn pairs_to_map(pairs: Seq<(Seq<char>, Seq<char>)>) -> Map<Seq<char>, Seq<char>>
    decreases pairs.len(),
{
    if pairs.len() == 0 {
        Map::<Seq<char>, Seq<char>>::empty()
    } else {
        pairs_to_map(pairs.drop_last()).insert(pairs.last().0, pairs.last().1)
    }
}

#[derive(Debug)]
pub struct SkillProperties {
    pub name: String,
    pub description: String,
    pub compatibility: Option<String>,
    pub license: Option<String>,
    /// Renders under the hyphenated external key `allowed-tools`.
    pub allowed_tools: Option<String>,
    /// Key-value pairs with unconstrained content; insertion order irrelevant.
    pub metadata: Option<Vec<(String, String)>>,
}

pub struct SkillPropertiesView {
    pub name: Seq<char>,
    pub description: Seq<char>,
    pub compatibility: Option<Seq<char>>,
    pub license: Option<Seq<char>>,
    pub allowed_tools: Option<Seq<char>>,
    pub metadata: Option<Map<Seq<char>, Seq<char>>>,
}

impl View for SkillProperties {
    type V = SkillPropertiesView;

    open spec fn view(&self) -> SkillPropertiesView {
        SkillPropertiesView {
            name: self.name@,
            description: self.description@,
            compatibility: match self.compatibility {
                Some(s) => Some(s@),
                None => None,
            },
            license: match self.license {
                Some(s) => Some(s@),
                None => None,
            },
            allowed_tools: match self.allowed_tools {
                Some(s) => Some(s@),
                None => None,
            },
            metadata: match self.metadata {
                Some(pairs) => Some(pairs_to_map(pairs.deep_view())),
                None => None,
            },
        }
    }
}

} // verus!
