use skillcheck::models::SkillProperties;
use skillcheck::prompt::{html_escape, to_prompt, to_prompt_with_location, SkillWithLocation};

fn props(name: &str, description: &str) -> SkillProperties {
    SkillProperties {
        name: name.to_string(),
        description: description.to_string(),
        compatibility: None,
        license: None,
        allowed_tools: None,
        metadata: None,
    }
}

#[test]
fn test_html_escape() {
    assert_eq!(html_escape("test & demo"), "test &amp; demo");
    assert_eq!(html_escape("<script>"), "&lt;script&gt;");
    assert_eq!(html_escape(r#"quote"test"#), "quote&quot;test");
}

#[test]
fn test_to_prompt_single_skill() {
    let skill = props("test-skill", "Test Description");

    let xml = to_prompt(&[skill]);
    assert_eq!(
        xml,
        "\
<available_skills>
<skill>
<name>
test-skill
</name>
<description>
Test Description
</description>
</skill>
</available_skills>"
    );
}

#[test]
fn test_to_prompt_multiple_skills() {
    let skills = vec![props("skill1", "First skill"), props("skill2", "Second skill")];

    let xml = to_prompt(&skills);
    assert_eq!(
        xml,
        "\
<available_skills>
<skill>
<name>
skill1
</name>
<description>
First skill
</description>
</skill>
<skill>
<name>
skill2
</name>
<description>
Second skill
</description>
</skill>
</available_skills>"
    );
}

#[test]
fn test_to_prompt_with_location() {
    let skill = SkillWithLocation {
        properties: props("test-skill", "Test Description"),
        location: Some("/path/to/SKILL.md".to_string()),
    };

    let xml = to_prompt_with_location(&[skill]);
    assert_eq!(
        xml,
        "\
<available_skills>
<skill>
<name>
test-skill
</name>
<description>
Test Description
</description>
<location>
/path/to/SKILL.md
</location>
</skill>
</available_skills>"
    );
}

#[test]
fn test_to_prompt_optional_fields_not_in_prompt() {
    let skill = SkillProperties {
        name: "test-skill".to_string(),
        description: "Test Description".to_string(),
        compatibility: Some("v1.0".to_string()),
        license: Some("MIT".to_string()),
        allowed_tools: Some("bash python".to_string()),
        metadata: None,
    };

    let xml = to_prompt(&[skill]);
    assert_eq!(
        xml,
        "\
<available_skills>
<skill>
<name>
test-skill
</name>
<description>
Test Description
</description>
</skill>
</available_skills>"
    );
}

#[test]
fn test_to_prompt_html_escaping() {
    let skill = props("test<skill>", "Test & Description");

    let xml = to_prompt(&[skill]);
    assert_eq!(
        xml,
        "\
<available_skills>
<skill>
<name>
test&lt;skill&gt;
</name>
<description>
Test &amp; Description
</description>
</skill>
</available_skills>"
    );
}

#[test]
fn test_to_prompt_empty_batch() {
    let xml = to_prompt(&[]);
    assert_eq!(xml, "<available_skills>\n</available_skills>");
}

#[test]
fn test_html_escape_apostrophe() {
    assert_eq!(html_escape("it's"), "it&#39;s");
    assert_eq!(html_escape("a>b"), "a&gt;b");
    assert_eq!(html_escape("plain"), "plain");
}
