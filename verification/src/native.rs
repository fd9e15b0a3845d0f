//! The result graph of a plugin parser, before it is handed to the host.
//!
//! A parser borrows the header's text from the bytes it read; the records
//! own theirs. The views are those of the host entities, so that a graph and
//! a plugin can be compared field by field.

use vstd::prelude::*;
use crate::model::{owned_text, CellView, HeaderView, PluginView, WorldView};

verus! {

/// The characters of an optional borrowed text; an absent text stays absent.
pub open spec fn borrowed_text(text: Option<&str>) -> Option<Seq<char>> {
    match text {
        Some(s) => Some(s@),
        None => None,
    }
}

/// A worldspace record as the parser gives it.
#[derive(Clone, Debug, PartialEq, Eq)]
pub struct NativeWorld {
    pub form_id: u32,
    pub editor_id: String,
}

/// A cell record as the parser gives it.
#[derive(Clone, Debug, PartialEq, Eq)]
pub struct NativeCell {
    pub form_id: u32,
    pub editor_id: Option<String>,
    pub x: Option<i32>,
    pub y: Option<i32>,
    pub world_form_id: Option<u32>,
    pub is_persistent: bool,
}

/// A plugin header as the parser gives it, with text borrowed from the input.
#[derive(Clone, Debug, PartialEq, Eq)]
pub struct NativeHeader<'a> {
    /// File format version: the bit pattern of a 32-bit IEEE 754 number.
    pub version_bits: u32,
    pub num_records_and_groups: i32,
    pub next_object_id: u32,
    pub author: Option<&'a str>,
    pub description: Option<&'a str>,
    pub masters: Vec<&'a str>,
}

/// Everything a parser read from one plugin file.
#[derive(Clone, Debug, PartialEq, Eq)]
pub struct NativePlugin<'a> {
    pub header: NativeHeader<'a>,
    pub worlds: Vec<NativeWorld>,
    pub cells: Vec<NativeCell>,
}

impl View for NativeWorld {
    type V = WorldView;

    open spec fn view(&self) -> WorldView {
        WorldView { form_id: self.form_id, editor_id: self.editor_id@ }
    }
}

impl View for NativeCell {
    type V = CellView;

    open spec fn view(&self) -> CellView {
        CellView {
            form_id: self.form_id,
            editor_id: owned_text(self.editor_id),
            x: self.x,
            y: self.y,
            world_form_id: self.world_form_id,
            is_persistent: self.is_persistent,
        }
    }
}

impl<'a> View for NativeHeader<'a> {
    type V = HeaderView;

    open spec fn view(&self) -> HeaderView {
        HeaderView {
            version_bits: self.version_bits,
            num_records_and_groups: self.num_records_and_groups,
            next_object_id: self.next_object_id,
            author: borrowed_text(self.author),
            description: borrowed_text(self.description),
            masters: Seq::new(self.masters@.len(), |i: int| self.masters@[i]@),
        }
    }
}

impl<'a> View for NativePlugin<'a> {
    type V = PluginView;

    open spec fn view(&self) -> PluginView {
        PluginView {
            header: self.header@,
            worlds: Seq::new(self.worlds@.len(), |i: int| self.worlds@[i]@),
            cells: Seq::new(self.cells@.len(), |i: int| self.cells@[i]@),
        }
    }
}

} // verus!
