use flow_writer::xml_parser::parse_xml;

#[test]
fn test_parse_simple_meta() {
    let xml = r#"
        <context version="1.0">
            <meta>
                <title>Test Doc</title>
                <author>Test Author</author>
                <created>2025-10-09</created>
                <app name="CEC" version="0.1.0"/>
                <tags>test, doc</tags>
                <description>A test</description>
            </meta>
            <variables></variables>
            <sections></sections>
        </context>
        "#;

    let doc = parse_xml(xml).unwrap();
    assert_eq!(doc.meta.title, "Test Doc");
    assert_eq!(doc.meta.author, "Test Author");
    assert_eq!(doc.meta.app_info.name, "CEC");
    assert_eq!(doc.meta.tags.len(), 2);
}

#[test]
fn test_parse_variables() {
    let xml = r#"
        <context version="1.0">
            <meta>
                <title>Test</title>
                <author>Author</author>
                <created>2025-10-09</created>
                <app name="CEC" version="0.1.0"/>
                <tags>test</tags>
                <description>Test</description>
            </meta>
            <variables>
                <var name="userName">Jeremy</var>
                <var name="goal">Ship v1</var>
            </variables>
            <sections></sections>
        </context>
        "#;

    let doc = parse_xml(xml).unwrap();
    assert_eq!(doc.variables.len(), 2);
    assert_eq!(doc.variables[0].name, "userName");
    assert_eq!(doc.variables[0].value, "Jeremy");
}

#[test]
fn test_parse_section_with_cdata() {
    let xml = r#"
        <context version="1.0">
            <meta>
                <title>Test</title>
                <author>Author</author>
                <created>2025-10-09</created>
                <app name="CEC" version="0.1.0"/>
                <tags>test</tags>
                <description>Test</description>
            </meta>
            <variables></variables>
            <sections>
                <section id="test-1" type="intent">
                    <content><![CDATA[
# Intent
This is test content
                    ]]></content>
                </section>
            </sections>
        </context>
        "#;

    let doc = parse_xml(xml).unwrap();
    assert_eq!(doc.sections.len(), 1);
    assert_eq!(doc.sections[0].id, "test-1");
    assert_eq!(doc.sections[0].section_type, "intent");
    assert!(doc.sections[0].content.contains("Intent"));
}

#[test]
fn test_parse_nested_sections() {
    let xml = r#"
        <context version="1.0">
            <meta>
                <title>Test</title>
                <author>Author</author>
                <created>2025-10-09</created>
                <app name="CEC" version="0.1.0"/>
                <tags>test</tags>
                <description>Test</description>
            </meta>
            <variables></variables>
            <sections>
                <section id="parent-1" type="process">
                    <content><![CDATA[Parent content]]></content>
                    <section id="child-1" type="alternatives">
                        <content><![CDATA[Child content]]></content>
                    </section>
                </section>
            </sections>
        </context>
        "#;

    let doc = parse_xml(xml).unwrap();
    assert_eq!(doc.sections.len(), 1);
    assert_eq!(doc.sections[0].children.len(), 1);
    assert_eq!(doc.sections[0].children[0].id, "child-1");
}

#[test]
fn test_parse_flow() {
    let xml = r#"
        <context version="1.0">
            <meta>
                <title>Test</title>
                <author>Author</author>
                <created>2025-10-09</created>
                <app name="CEC" version="0.1.0"/>
                <tags>test</tags>
                <description>Test</description>
            </meta>
            <variables></variables>
            <sections></sections>
            <flow id="flow-1" version="1.0">
                <title>Document Flow</title>
                <diagram><![CDATA[
```mermaid
flowchart TD
  A[Intent] --> B[Evaluation]
```
                ]]></diagram>
            </flow>
        </context>
        "#;

    let doc = parse_xml(xml).unwrap();
    assert!(doc.flow_graph.is_some());
    let flow = doc.flow_graph.unwrap();
    assert_eq!(flow.id, "flow-1");
    assert_eq!(flow.version, "1.0");
    assert_eq!(flow.title, Some("Document Flow".to_string()));
    assert!(flow.mermaid_code.contains("mermaid"));
}

#[test]
fn test_parse_without_meta_is_missing_required_field() {
    let xml = "<context version=\"1.0\"><variables></variables><sections></sections></context>";
    let err = parse_xml(xml).unwrap_err();
    assert_eq!(err.message(), "Missing required field: meta");
}

#[test]
fn test_parse_meta_without_app_is_missing_required_field() {
    let xml = "<context version=\"1.0\"><meta><title>T</title></meta></context>";
    let err = parse_xml(xml).unwrap_err();
    assert_eq!(err.message(), "Missing required field: app");
}

#[test]
fn test_parse_unescapes_entities_in_text() {
    let xml = r#"
        <context version="1.0">
            <meta>
                <title>Fish &amp; Chips &lt;fresh&gt;</title>
                <author>A</author>
                <created>now</created>
                <app name="CEC" version="0.1.0"/>
                <tags>t</tags>
                <description>d</description>
            </meta>
        </context>
        "#;

    let doc = parse_xml(xml).unwrap();
    assert_eq!(doc.meta.title, "Fish & Chips <fresh>");
}

#[test]
fn test_parse_unterminated_markup_is_invalid_xml() {
    let xml = "<context version=\"1.0";
    let err = parse_xml(xml).unwrap_err();
    assert!(err.message().starts_with("Invalid XML structure: "));
}

#[test]
fn test_parse_resolves_numeric_character_references() {
    let xml = "<context><meta><title>a &#8212; b &#x2014; c &#65;</title><app name=\"n\" version=\"v\"/></meta></context>";
    let doc = parse_xml(xml).unwrap();
    assert_eq!(doc.meta.title, "a \u{2014} b \u{2014} c A");
}

#[test]
fn test_parse_bad_numeric_reference_is_invalid_xml() {
    let xml = "<context><meta><title>a &#xZZ; b</title></meta></context>";
    let err = parse_xml(xml).unwrap_err();
    assert_eq!(err.message(), "Invalid XML structure: unknown entity reference");
}

#[test]
fn test_parse_surrogate_reference_is_invalid_xml() {
    let xml = "<context><meta><title>a &#xD800; b</title></meta></context>";
    let err = parse_xml(xml).unwrap_err();
    assert_eq!(err.message(), "Invalid XML structure: unknown entity reference");
}

#[test]
fn test_parse_unknown_entity_is_invalid_xml() {
    let xml = "<context><meta><title>a &broken; b</title></meta></context>";
    let err = parse_xml(xml).unwrap_err();
    assert_eq!(err.message(), "Invalid XML structure: unknown entity reference");
}

#[test]
fn test_parse_self_closing_var_has_empty_value() {
    let xml = r#"
        <context version="1.0">
            <meta>
                <title>T</title>
                <author>A</author>
                <created>c</created>
                <app name="CEC" version="0.1.0"/>
                <tags>t</tags>
                <description>d</description>
            </meta>
            <variables>
                <var name="empty"/>
            </variables>
            <sections></sections>
        </context>
        "#;

    let doc = parse_xml(xml).unwrap();
    assert_eq!(doc.variables.len(), 1);
    assert_eq!(doc.variables[0].name, "empty");
    assert_eq!(doc.variables[0].value, "");
}
