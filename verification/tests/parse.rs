use skyrim_cell_dump::model::Plugin;
use skyrim_cell_dump::native::{NativeCell, NativeHeader, NativePlugin, NativeWorld};
use skyrim_cell_dump::parse::{parse_plugin, project_outcome, ParseError};

/// A stand-in for a plugin parser: the input is the author's name, and an
/// empty input is malformed.
fn author_only(input: &[u8]) -> Result<NativePlugin<'_>, String> {
    if input.is_empty() {
        return Err("truncated header".to_string());
    }
    let author = std::str::from_utf8(input).map_err(|e| e.to_string())?;
    Ok(NativePlugin {
        header: NativeHeader {
            version_bits: 1.0f32.to_bits(),
            num_records_and_groups: 2,
            next_object_id: 1,
            author: Some(author),
            description: None,
            masters: vec!["Skyrim.esm"],
        },
        worlds: vec![NativeWorld { form_id: 0x3C, editor_id: "Tamriel".to_string() }],
        cells: vec![NativeCell {
            form_id: 0x1A2B,
            editor_id: Some("TestCell".to_string()),
            x: Some(5),
            y: Some(-3),
            world_form_id: Some(0x3C),
            is_persistent: false,
        }],
    })
}

#[test]
fn hands_on_what_the_parser_found() {
    let input = b"Bethesda".to_vec();
    let plugin = parse_plugin(author_only, &input).unwrap();
    assert_eq!(plugin.header.author, Some("Bethesda".to_string()));
    assert_eq!(plugin.header.num_records_and_groups, 2);
    assert_eq!(plugin.header.masters, vec!["Skyrim.esm"]);
    assert_eq!(plugin.worlds[0].editor_id, "Tamriel");
    assert_eq!(plugin.cells[0].world_form_id, Some(0x3C));
}

#[test]
fn the_plugin_outlives_the_input() {
    let plugin = {
        let input = b"Bethesda".to_vec();
        parse_plugin(author_only, &input).unwrap()
    };
    assert_eq!(plugin.header.author, Some("Bethesda".to_string()));
}

#[test]
fn hands_on_the_failure_of_the_parser() {
    let result = parse_plugin(author_only, b"");
    assert_eq!(result, Err(ParseError { diagnostic: "truncated header".to_string() }));
}

#[test]
fn gives_the_parser_the_whole_input() {
    let result = parse_plugin(|bytes: &[u8]| Err::<NativePlugin, Vec<u8>>(bytes.to_vec()), b"TES4\x00\x01");
    assert_eq!(result, Err(ParseError { diagnostic: b"TES4\x00\x01".to_vec() }));
}

#[test]
fn keeps_a_diagnostic_of_any_type() {
    let result: Result<Plugin, ParseError<(u32, &str)>> =
        parse_plugin(|_bytes: &[u8]| Err((7, "unsupported version")), b"x");
    assert_eq!(result.unwrap_err().diagnostic, (7, "unsupported version"));
}

#[test]
fn projects_the_outcome_of_a_parse() {
    let found: Result<NativePlugin, String> = author_only(b"A");
    let plugin = project_outcome(found).unwrap();
    assert_eq!(plugin.header.author, Some("A".to_string()));
    let failed: Result<NativePlugin, String> = Err("malformed header".to_string());
    assert_eq!(
        project_outcome(failed),
        Err(ParseError { diagnostic: "malformed header".to_string() })
    );
}
