//! The entities handed to the host, and the mathematical content of each.
//!
//! Every entity has a view: a value made of integers, booleans, options and
//! sequences of characters that says what the entity holds, apart from where
//! its text lives in memory. Two entities with one view hold the same data.

use vstd::prelude::*;

verus! {

/// What a worldspace record holds.
pub struct WorldView {
    pub form_id: u32,
    pub editor_id: Seq<char>,
}

/// What a cell record holds.
pub struct CellView {
    pub form_id: u32,
    pub editor_id: Option<Seq<char>>,
    pub x: Option<i32>,
    pub y: Option<i32>,
    pub world_form_id: Option<u32>,
    pub is_persistent: bool,
}

/// What a plugin header holds.
pub struct HeaderView {
    pub version_bits: u32,
    pub num_records_and_groups: i32,
    pub next_object_id: u32,
    pub author: Option<Seq<char>>,
    pub description: Option<Seq<char>>,
    pub masters: Seq<Seq<char>>,
}

/// What a plugin holds: its header, then its worlds and its cells in order.
pub struct PluginView {
    pub header: HeaderView,
    pub worlds: Seq<WorldView>,
    pub cells: Seq<CellView>,
}

/// The characters of an optional owned text; an absent text stays absent.
pub open spec fn owned_text(text: Option<String>) -> Option<Seq<char>> {
    match text {
        Some(s) => Some(s@),
        None => None,
    }
}

/// A top-level exterior map, which exterior cells refer to by its form id.
#[derive(Clone, Debug, PartialEq, Eq)]
pub struct World {
    /// Identifier of the record, unique within the plugin's namespace.
    pub form_id: u32,
    /// Human-readable label of the record.
    pub editor_id: String,
}

/// A spatial unit of the game world, exterior or interior.
#[derive(Clone, Debug, PartialEq, Eq)]
pub struct Cell {
    /// Identifier of the record.
    pub form_id: u32,
    /// Human-readable label; a cell may have none.
    pub editor_id: Option<String>,
    /// Grid column of an exterior cell.
    pub x: Option<i32>,
    /// Grid row of an exterior cell.
    pub y: Option<i32>,
    /// Form id of the worldspace that an exterior cell belongs to.
    pub world_form_id: Option<u32>,
    /// Whether the cell is always loaded.
    pub is_persistent: bool,
}

/// The header of a plugin file.
#[derive(Clone, Debug, PartialEq, Eq)]
pub struct PluginHeader {
    /// File format version: the bit pattern of a 32-bit IEEE 754 number.
    pub version_bits: u32,
    /// Count of records and groups as the file states it.
    pub num_records_and_groups: i32,
    /// Low bits of the next free form id.
    pub next_object_id: u32,
    /// Author of the plugin, if the file names one.
    pub author: Option<String>,
    /// Description of the plugin, if the file has one.
    pub description: Option<String>,
    /// File names of the plugins this one depends on, in load order.
    pub masters: Vec<String>,
}

/// A plugin: its header, its worlds and its cells.
#[derive(Clone, Debug, PartialEq, Eq)]
pub struct Plugin {
    pub header: PluginHeader,
    pub worlds: Vec<World>,
    pub cells: Vec<Cell>,
}

impl View for World {
    type V = WorldView;

    open spec fn view(&self) -> WorldView {
        WorldView { form_id: self.form_id, editor_id: self.editor_id@ }
    }
}

impl View for Cell {
    type V = CellView;

    open spec fn view(&self) -> CellView {
        CellView {
            form_id: self.form_id,
            editor_id: owned_text(self.editor_id),
            x: self.x,
            y: self.y,
            world_form_id: self.world_form_id,
            is_persistent: self.is_persistent,
        }
    }
}

impl View for PluginHeader {
    type V = HeaderView;

    open spec fn view(&self) -> HeaderView {
        HeaderView {
            version_bits: self.version_bits,
            num_records_and_groups: self.num_records_and_groups,
            next_object_id: self.next_object_id,
            author: owned_text(self.author),
            description: owned_text(self.description),
            masters: Seq::new(self.masters@.len(), |i: int| self.masters@[i]@),
        }
    }
}

impl View for Plugin {
    type V = PluginView;

    open spec fn view(&self) -> PluginView {
        PluginView {
            header: self.header@,
            worlds: Seq::new(self.worlds@.len(), |i: int| self.worlds@[i]@),
            cells: Seq::new(self.cells@.len(), |i: int| self.cells@[i]@),
        }
    }
}

} // verus!
