use flow_writer::schema_validator::validate_schema;

#[test]
fn test_valid_document() {
    let xml = r#"
        <context version="1.0">
            <meta>
                <title>Test</title>
                <author>Author</author>
                <created>2025-10-09T20:20:32+00:00</created>
                <app name="CEC" version="0.1.0"/>
                <tags>test</tags>
                <description>Test doc</description>
            </meta>
            <variables></variables>
            <sections>
                <section id="intent-1" type="intent">
                    <content>Intent content</content>
                </section>
            </sections>
        </context>
        "#;

    assert!(validate_schema(xml).is_ok());
}

#[test]
fn test_missing_required_element() {
    let xml = r#"
        <context version="1.0">
            <variables></variables>
            <sections></sections>
        </context>
        "#;

    let result = validate_schema(xml);
    assert!(result.is_err());
    assert!(result
        .unwrap_err()
        .message()
        .contains("Required element 'meta' is missing"));
}

#[test]
fn test_invalid_section_type() {
    let xml = r#"
        <context version="1.0">
            <meta>
                <title>Test</title>
                <author>Author</author>
                <created>2025-10-09T20:20:32+00:00</created>
                <app name="CEC" version="0.1.0"/>
                <tags>test</tags>
                <description>Test</description>
            </meta>
            <variables></variables>
            <sections>
                <section id="test-1" type="invalid-type">
                    <content>Content</content>
                </section>
            </sections>
        </context>
        "#;

    let result = validate_schema(xml);
    assert!(result.is_err());
    let err_msg = result.unwrap_err().message();
    assert!(err_msg.contains("invalid type 'invalid-type'"));
    assert!(err_msg.contains("intent, evaluation, process, alternatives"));
}

#[test]
fn test_duplicate_section_ids() {
    let xml = r#"
        <context version="1.0">
            <meta>
                <title>Test</title>
                <author>Author</author>
                <created>2025-10-09T20:20:32+00:00</created>
                <app name="CEC" version="0.1.0"/>
                <tags>test</tags>
                <description>Test</description>
            </meta>
            <variables></variables>
            <sections>
                <section id="test-1" type="intent">
                    <content>Content 1</content>
                </section>
                <section id="test-1" type="evaluation">
                    <content>Content 2</content>
                </section>
            </sections>
        </context>
        "#;

    let result = validate_schema(xml);
    assert!(result.is_err());
    assert!(result
        .unwrap_err()
        .message()
        .contains("Duplicate section ID 'test-1'"));
}

#[test]
fn test_nested_section_rejected() {
    let xml = r#"
        <context version="1.0">
            <meta>
                <title>Test</title>
                <author>Author</author>
                <created>2025-10-09T20:20:32+00:00</created>
                <app name="CEC" version="0.1.0"/>
                <tags>test</tags>
                <description>Test</description>
            </meta>
            <variables></variables>
            <sections>
                <section id="parent-1" type="intent">
                    <content>Parent content</content>
                    <section id="child-1" type="evaluation">
                        <content>Child content</content>
                    </section>
                </section>
            </sections>
        </context>
        "#;

    let result = validate_schema(xml);
    assert!(result.is_err());
    let err_msg = result.unwrap_err().message();
    assert!(err_msg.contains("contains nested sections"));
    assert!(err_msg.contains("Section nesting is not allowed"));
}

#[test]
fn test_section_missing_content() {
    let xml = r#"
        <context version="1.0">
            <meta>
                <title>Test</title>
                <author>Author</author>
                <created>2025-10-09T20:20:32+00:00</created>
                <app name="CEC" version="0.1.0"/>
                <tags>test</tags>
                <description>Test</description>
            </meta>
            <variables></variables>
            <sections>
                <section id="test-1" type="intent">
                </section>
            </sections>
        </context>
        "#;

    let result = validate_schema(xml);
    assert!(result.is_err());
    assert!(result
        .unwrap_err()
        .message()
        .contains("must have a 'content' element"));
}

#[test]
fn test_section_missing_id() {
    let xml = r#"
        <context version="1.0">
            <meta>
                <title>Test</title>
                <author>Author</author>
                <created>2025-10-09T20:20:32+00:00</created>
                <app name="CEC" version="0.1.0"/>
                <tags>test</tags>
                <description>Test</description>
            </meta>
            <variables></variables>
            <sections>
                <section type="intent">
                    <content>Content</content>
                </section>
            </sections>
        </context>
        "#;

    let result = validate_schema(xml);
    assert!(result.is_err());
    assert!(result
        .unwrap_err()
        .message()
        .contains("Section must have 'id' attribute"));
}

#[test]
fn test_all_valid_section_types() {
    for section_type in ["intent", "evaluation", "process", "alternatives"] {
        let xml = format!(
            r#"
                <context version="1.0">
                    <meta>
                        <title>Test</title>
                        <author>Author</author>
                        <created>2025-10-09T20:20:32+00:00</created>
                        <app name="CEC" version="0.1.0"/>
                        <tags>test</tags>
                        <description>Test</description>
                    </meta>
                    <variables></variables>
                    <sections>
                        <section id="test-1" type="{}">
                            <content>Content</content>
                        </section>
                    </sections>
                </context>
                "#,
            section_type
        );

        assert!(
            validate_schema(&xml).is_ok(),
            "Section type '{}' should be valid",
            section_type
        );
    }
}

#[test]
fn test_bad_root_element_rejected() {
    let xml = "<wrapper><meta/><variables/><sections/></wrapper>";
    let err = validate_schema(xml).unwrap_err();
    assert!(err.message().contains("Root element must be 'context'"));
}

#[test]
fn test_malformed_markup_is_a_parsing_failure() {
    let xml = "\n<context version=\"1.0\">\n    <meta>\n        <title>Invalid Document\n    ";
    let err = validate_schema(xml).unwrap_err();
    assert!(err.message().contains("XML parsing failed"));
}

#[test]
fn test_section_missing_type_attribute() {
    let xml = r#"
        <context version="1.0">
            <meta>
                <title>Test</title>
                <author>Author</author>
                <created>now</created>
                <app name="CEC" version="0.1.0"/>
                <tags>test</tags>
                <description>Test</description>
            </meta>
            <variables></variables>
            <sections>
                <section id="test-1">
                    <content>Content</content>
                </section>
            </sections>
        </context>
        "#;

    let err = validate_schema(xml).unwrap_err();
    assert!(err.message().contains("Section 'test-1' must have 'type' attribute"));
}

#[test]
fn test_app_element_missing_version_attribute() {
    let xml = r#"
        <context version="1.0">
            <meta>
                <title>Test</title>
                <author>Author</author>
                <created>now</created>
                <app name="CEC"/>
                <tags>test</tags>
                <description>Test</description>
            </meta>
            <variables></variables>
            <sections></sections>
        </context>
        "#;

    let err = validate_schema(xml).unwrap_err();
    assert!(err.message().contains("App element must have 'version' attribute"));
}
