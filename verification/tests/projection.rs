use skyrim_cell_dump::model::{Cell, Plugin, PluginHeader, World};
use skyrim_cell_dump::native::{NativeCell, NativeHeader, NativePlugin, NativeWorld};

fn minimal_header<'a>() -> NativeHeader<'a> {
    NativeHeader {
        version_bits: 1.0f32.to_bits(),
        num_records_and_groups: 0,
        next_object_id: 1,
        author: None,
        description: None,
        masters: vec![],
    }
}

#[test]
fn projects_a_minimal_graph() {
    let native = NativePlugin {
        header: minimal_header(),
        worlds: vec![NativeWorld { form_id: 0x3C, editor_id: "Tamriel".to_string() }],
        cells: vec![NativeCell {
            form_id: 0x1A2B,
            editor_id: Some("TestCell".to_string()),
            x: Some(5),
            y: Some(-3),
            world_form_id: Some(0x3C),
            is_persistent: false,
        }],
    };
    let plugin = Plugin::from(native);
    assert_eq!(plugin.worlds[0].editor_id, "Tamriel");
    assert_eq!(plugin.cells[0].world_form_id, Some(0x3C));
    assert_eq!(
        plugin,
        Plugin {
            header: PluginHeader {
                version_bits: 0x3f80_0000,
                num_records_and_groups: 0,
                next_object_id: 1,
                author: None,
                description: None,
                masters: vec![],
            },
            worlds: vec![World { form_id: 0x3C, editor_id: "Tamriel".to_string() }],
            cells: vec![Cell {
                form_id: 0x1A2B,
                editor_id: Some("TestCell".to_string()),
                x: Some(5),
                y: Some(-3),
                world_form_id: Some(0x3C),
                is_persistent: false,
            }],
        }
    );
    assert_eq!(f32::from_bits(plugin.header.version_bits), 1.0);
}

#[test]
fn keeps_every_header_field() {
    let header = NativeHeader {
        version_bits: 1.7f32.to_bits(),
        num_records_and_groups: -12,
        next_object_id: 0xFFFF_FFFF,
        author: Some("mcarofano"),
        description: Some("An example.\nSecond line."),
        masters: vec!["Skyrim.esm", "Update.esm", "Dawnguard.esm"],
    };
    let projected = PluginHeader::from(header);
    assert_eq!(f32::from_bits(projected.version_bits), 1.7);
    assert_eq!(projected.num_records_and_groups, -12);
    assert_eq!(projected.next_object_id, 0xFFFF_FFFF);
    assert_eq!(projected.author, Some("mcarofano".to_string()));
    assert_eq!(projected.description, Some("An example.\nSecond line.".to_string()));
    assert_eq!(projected.masters, vec!["Skyrim.esm", "Update.esm", "Dawnguard.esm"]);
}

#[test]
fn keeps_the_count_and_the_order_of_every_sequence() {
    let worlds: Vec<NativeWorld> = (0..5u32)
        .map(|i| NativeWorld { form_id: 100 - i, editor_id: format!("World{}", i) })
        .collect();
    let cells: Vec<NativeCell> = (0..7u32)
        .map(|i| NativeCell {
            form_id: 7 * i % 5,
            editor_id: None,
            x: None,
            y: None,
            world_form_id: None,
            is_persistent: i % 2 == 0,
        })
        .collect();
    let mut header = minimal_header();
    header.masters = vec!["b.esm", "a.esm", "b.esm"];
    let native = NativePlugin { header, worlds: worlds.clone(), cells: cells.clone() };
    let plugin = Plugin::from(native);
    assert_eq!(plugin.header.masters.len(), 3);
    assert_eq!(plugin.header.masters, vec!["b.esm", "a.esm", "b.esm"]);
    assert_eq!(plugin.worlds.len(), 5);
    assert_eq!(plugin.cells.len(), 7);
    for (projected, native) in plugin.worlds.iter().zip(worlds.iter()) {
        assert_eq!(projected.form_id, native.form_id);
        assert_eq!(projected.editor_id, native.editor_id);
    }
    for (projected, native) in plugin.cells.iter().zip(cells.iter()) {
        assert_eq!(projected.form_id, native.form_id);
        assert_eq!(projected.is_persistent, native.is_persistent);
    }
}

#[test]
fn projects_an_empty_graph() {
    let native = NativePlugin { header: minimal_header(), worlds: vec![], cells: vec![] };
    let plugin = Plugin::from(native);
    assert!(plugin.header.masters.is_empty());
    assert!(plugin.worlds.is_empty());
    assert!(plugin.cells.is_empty());
}

#[test]
fn an_absent_text_stays_absent() {
    let plugin = Plugin::from(NativePlugin {
        header: minimal_header(),
        worlds: vec![],
        cells: vec![],
    });
    assert_eq!(plugin.header.author, None);
    assert_eq!(plugin.header.description, None);
    assert_ne!(plugin.header.author, Some(String::new()));
}

#[test]
fn an_empty_text_stays_present() {
    let mut header = minimal_header();
    header.author = Some("");
    header.description = Some("");
    let projected = PluginHeader::from(header);
    assert_eq!(projected.author, Some(String::new()));
    assert_eq!(projected.description, Some(String::new()));
}

#[test]
fn author_and_description_are_independent() {
    let mut header = minimal_header();
    header.description = Some("only this");
    let projected = PluginHeader::from(header);
    assert_eq!(projected.author, None);
    assert_eq!(projected.description, Some("only this".to_string()));
}

#[test]
fn projects_a_world() {
    let world = World::from(NativeWorld { form_id: 0x3C, editor_id: "Tamriel".to_string() });
    assert_eq!(world, World { form_id: 0x3C, editor_id: "Tamriel".to_string() });
}

#[test]
fn projects_an_interior_cell() {
    let cell = Cell::from(NativeCell {
        form_id: 9,
        editor_id: None,
        x: None,
        y: None,
        world_form_id: None,
        is_persistent: true,
    });
    assert_eq!(
        cell,
        Cell {
            form_id: 9,
            editor_id: None,
            x: None,
            y: None,
            world_form_id: None,
            is_persistent: true,
        }
    );
}

#[test]
fn passes_on_a_cell_with_one_coordinate() {
    let cell = Cell::from(NativeCell {
        form_id: 1,
        editor_id: Some(String::new()),
        x: Some(i32::MIN),
        y: None,
        world_form_id: Some(0),
        is_persistent: false,
    });
    assert_eq!(cell.x, Some(i32::MIN));
    assert_eq!(cell.y, None);
    assert_eq!(cell.world_form_id, Some(0));
    assert_eq!(cell.editor_id, Some(String::new()));
}

#[test]
fn does_not_check_that_the_world_of_a_cell_exists() {
    let native = NativePlugin {
        header: minimal_header(),
        worlds: vec![],
        cells: vec![NativeCell {
            form_id: 2,
            editor_id: None,
            x: Some(0),
            y: Some(0),
            world_form_id: Some(0xDEAD),
            is_persistent: false,
        }],
    };
    let plugin = Plugin::from(native);
    assert_eq!(plugin.cells[0].world_form_id, Some(0xDEAD));
}

#[test]
fn keeps_duplicate_records() {
    let world = NativeWorld { form_id: 1, editor_id: "Twice".to_string() };
    let native = NativePlugin {
        header: minimal_header(),
        worlds: vec![world.clone(), world],
        cells: vec![],
    };
    let plugin = Plugin::from(native);
    assert_eq!(plugin.worlds.len(), 2);
    assert_eq!(plugin.worlds[0], plugin.worlds[1]);
}

#[test]
fn converts_with_into() {
    let plugin: Plugin = NativePlugin {
        header: minimal_header(),
        worlds: vec![NativeWorld { form_id: 3, editor_id: "W".to_string() }],
        cells: vec![],
    }
    .into();
    assert_eq!(plugin.worlds[0].form_id, 3);
}
