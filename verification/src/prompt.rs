//! The listing renderer: turns a batch of valid properties into a
//! fixed-tag markup listing of each skill's name and description — both
//! HTML-entity-escaped — and, when present, its source location. The
//! optional fields are never rendered here.

use vstd::prelude::*;
use crate::models::SkillProperties;
use crate::models::SkillPropertiesView;

verus! {

/// What one character renders as: the five HTML entities, or itself.
pub open spec fn escape_char(c: char) -> Seq<char> {
    if c == '&' {
        "&amp;"@
    } else if c == '<' {
        "&lt;"@
    } else if c == '>' {
        "&gt;"@
    } else if c == '"' {
        "&quot;"@
    } else if c == '\'' {
        "&#39;"@
    } else {
        seq![c]
    }
}

/// The string with `&`, `<`, `>`, `"` and `'` replaced by their HTML
/// entities.
pub open spec fn escaped(s: Seq<char>) -> Seq<char> {
    s.flat_map(|c: char| escape_char(c))
}

/// One skill together with where its manifest was found, as the renderer
/// takes it.
pub struct SkillWithLocation {
    pub properties: SkillProperties,
    pub location: Option<String>,
}

pub struct SkillWithLocationView {
    pub properties: SkillPropertiesView,
    pub location: Option<Seq<char>>,
}

impl View for SkillWithLocation {
    type V = SkillWithLocationView;

    open spec fn view(&self) -> SkillWithLocationView {
        SkillWithLocationView {
            properties: self.properties@,
            location: match self.location {
                Some(l) => Some(l@),
                None => None,
            },
        }
    }
}

/// The lines one skill contributes to the listing, with the leading
/// newline that joins it to what comes before.
pub open spec fn skill_block(v: SkillPropertiesView, location: Option<Seq<char>>) -> Seq<char> {
    "\n<skill>\n<name>\n"@ + escaped(v.name) + "\n</name>\n<description>\n"@ + escaped(
        v.description,
    ) + "\n</description>"@ + (match location {
        Some(l) => "\n<location>\n"@ + escaped(l) + "\n</location>"@,
        None => Seq::<char>::empty(),
    }) + "\n</skill>"@
}

/// The blocks of a batch of located skills, in order.
pub open spec fn located_blocks(items: Seq<SkillWithLocation>) -> Seq<char>
    decreases items.len(),
{
    if items.len() == 0 {
        Seq::<char>::empty()
    } else {
        located_blocks(items.drop_last()) + skill_block(
            items.last().properties@,
            items.last()@.location,
        )
    }
}

/// The blocks of a batch of skills without locations, in order.
pub open spec fn plain_blocks(items: Seq<SkillProperties>) -> Seq<char>
    decreases items.len(),
{
    if items.len() == 0 {
        Seq::<char>::empty()
    } else {
        plain_blocks(items.drop_last()) + skill_block(items.last()@, None)
    }
}

/// Replaces `&`, `<`, `>`, `"` and `'` by their HTML entities.
pub fn html_escape(s: &str) -> (r: String)
    ensures
        r@ == escaped(s@),
{
    let n = s.unicode_len();
    let mut out = String::new();
    let mut i: usize = 0;
    proof {
        broadcast use Seq::lemma_flatten_push;

        assert(s@.take(0).map_values(|c: char| escape_char(c)) =~= Seq::<Seq<char>>::empty());
        assert(out@ =~= escaped(s@.take(0)));
    }
    while i < n
        invariant
            n == s@.len(),
            i <= n,
            out@ == escaped(s@.take(i as int)),
        decreases n - i,
    {
        let c = s.get_char(i);
        if c == '&' {
            out.append("&amp;");
        } else if c == '<' {
            out.append("&lt;");
        } else if c == '>' {
            out.append("&gt;");
        } else if c == '"' {
            out.append("&quot;");
        } else if c == '\'' {
            out.append("&#39;");
        } else {
            let piece = s.substring_char(i, i + 1);
            out.append(piece);
        }
        proof {
            broadcast use Seq::lemma_flatten_push;

            let f = |ch: char| escape_char(ch);
            assert(s@.take(i + 1).map_values(f) =~= s@.take(i as int).map_values(f).push(
                escape_char(s@[i as int]),
            ));
            if !(c == '&' || c == '<' || c == '>' || c == '"' || c == '\'') {
                assert(s@.subrange(i as int, i + 1) =~= seq![s@[i as int]]);
            }
            assert(out@ =~= escaped(s@.take(i + 1)));
        }
        i = i + 1;
    }
    proof {
        assert(s@.take(n as int) =~= s@);
    }
    out
}

/// Appends one skill's block to the listing being built.
fn append_skill_block(out: &mut String, properties: &SkillProperties, location: Option<&String>)
    ensures
        final(out)@ == old(out)@ + skill_block(
            properties@,
            match location {
                Some(l) => Some(l@),
                None => None,
            },
        ),
{
    let ghost before = out@;
    out.append("\n<skill>\n<name>\n");
    let escaped_name = html_escape(properties.name.as_str());
    out.append(escaped_name.as_str());
    out.append("\n</name>\n<description>\n");
    let escaped_description = html_escape(properties.description.as_str());
    out.append(escaped_description.as_str());
    out.append("\n</description>");
    match location {
        Some(l) => {
            out.append("\n<location>\n");
            let escaped_location = html_escape(l.as_str());
            out.append(escaped_location.as_str());
            out.append("\n</location>");
        },
        None => (),
    }
    out.append("\n</skill>");
    proof {
        assert(out@ =~= before + skill_block(
            properties@,
            match location {
                Some(l) => Some(l@),
                None => None,
            },
        ));
    }
}

/// Renders the listing for skills whose manifest locations are known: each
/// skill's name and description, escaped, and its location when present.
pub fn to_prompt_with_location(skills: &[SkillWithLocation]) -> (r: String)
    ensures
        r@ == "<available_skills>"@ + located_blocks(skills@) + "\n</available_skills>"@,
{
    let mut out = String::from_str("<available_skills>");
    let mut i: usize = 0;
    proof {
        assert(located_blocks(skills@.take(0)) =~= Seq::<char>::empty());
        assert(out@ =~= "<available_skills>"@ + located_blocks(skills@.take(0)));
    }
    while i < skills.len()
        invariant
            i <= skills@.len(),
            out@ == "<available_skills>"@ + located_blocks(skills@.take(i as int)),
        decreases skills@.len() - i,
    {
        let skill = vstd::slice::slice_index_get(skills, i);
        append_skill_block(&mut out, &skill.properties, skill.location.as_ref());
        proof {
            assert(skills@.take(i + 1).drop_last() =~= skills@.take(i as int));
            assert(skills@.take(i + 1).last() == skills@[i as int]);
            assert(out@ =~= "<available_skills>"@ + located_blocks(skills@.take(i + 1)));
        }
        i = i + 1;
    }
    proof {
        assert(skills@.take(skills@.len() as int) =~= skills@);
    }
    out.append("\n</available_skills>");
    out
}

/// Renders the listing for a batch of skills without location information.
pub fn to_prompt(skills: &[SkillProperties]) -> (r: String)
    ensures
        r@ == "<available_skills>"@ + plain_blocks(skills@) + "\n</available_skills>"@,
{
    let mut out = String::from_str("<available_skills>");
    let mut i: usize = 0;
    proof {
        assert(plain_blocks(skills@.take(0)) =~= Seq::<char>::empty());
        assert(out@ =~= "<available_skills>"@ + plain_blocks(skills@.take(0)));
    }
    while i < skills.len()
        invariant
            i <= skills@.len(),
            out@ == "<available_skills>"@ + plain_blocks(skills@.take(i as int)),
        decreases skills@.len() - i,
    {
        let skill = vstd::slice::slice_index_get(skills, i);
        append_skill_block(&mut out, skill, None);
        proof {
            assert(skills@.take(i + 1).drop_last() =~= skills@.take(i as int));
            assert(skills@.take(i + 1).last() == skills@[i as int]);
            assert(out@ =~= "<available_skills>"@ + plain_blocks(skills@.take(i + 1)));
        }
        i = i + 1;
    }
    proof {
        assert(skills@.take(skills@.len() as int) =~= skills@);
    }
    out.append("\n</available_skills>");
    out
}

} // verus!
