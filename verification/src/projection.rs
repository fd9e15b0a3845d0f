//! From a parser's result graph to the entities handed to the host.
//!
//! The projection copies every field and infers nothing: the plugin it
//! returns has the view of the graph it was given. Text that the graph
//! borrows becomes text that the plugin owns, an absent field stays absent,
//! and every sequence keeps its length and its order.

use vstd::prelude::*;
use vstd::std_specs::convert::FromSpecImpl;
use crate::model::{owned_text, Cell, Plugin, PluginHeader, World};
use crate::native::{borrowed_text, NativeCell, NativeHeader, NativePlugin, NativeWorld};

verus! {

broadcast use vstd::string::group_string_axioms;

/// What it means for a plugin to have the view of a graph: the same numbers
/// in the header, an author and a description exactly where the graph has
/// one, and as many masters, worlds and cells, each with the view of the one
/// in its place.
pub proof fn lemma_same_view(plugin: Plugin, native: NativePlugin)
    requires
        plugin@ == native@,
    ensures
        plugin.header.version_bits == native.header.version_bits,
        plugin.header.num_records_and_groups == native.header.num_records_and_groups,
        plugin.header.next_object_id == native.header.next_object_id,
        plugin.header.author is None <==> native.header.author is None,
        plugin.header.author matches Some(a) ==> a@ == native.header.author.unwrap()@,
        plugin.header.description is None <==> native.header.description is None,
        plugin.header.description matches Some(d) ==> d@ == native.header.description.unwrap()@,
        plugin.header.masters@.len() == native.header.masters@.len(),
        forall|i: int|
            0 <= i < native.header.masters@.len() ==> (#[trigger] plugin.header.masters@[i])@
                == native.header.masters@[i]@,
        plugin.worlds@.len() == native.worlds@.len(),
        forall|i: int|
            0 <= i < native.worlds@.len() ==> (#[trigger] plugin.worlds@[i])@
                == native.worlds@[i]@,
        plugin.cells@.len() == native.cells@.len(),
        forall|i: int|
            0 <= i < native.cells@.len() ==> (#[trigger] plugin.cells@[i])@ == native.cells@[i]@,
{
    assert(plugin@.header.masters.len() == plugin.header.masters@.len());
    assert(native@.header.masters.len() == native.header.masters@.len());
    assert(plugin@.worlds.len() == plugin.worlds@.len());
    assert(native@.worlds.len() == native.worlds@.len());
    assert(plugin@.cells.len() == plugin.cells@.len());
    assert(native@.cells.len() == native.cells@.len());
    assert forall|i: int| 0 <= i < native.header.masters@.len() implies (
    #[trigger] plugin.header.masters@[i])@ == native.header.masters@[i]@ by {
        assert(plugin@.header.masters[i] == plugin.header.masters@[i]@);
        assert(native@.header.masters[i] == native.header.masters@[i]@);
    }
    assert forall|i: int| 0 <= i < native.worlds@.len() implies (#[trigger] plugin.worlds@[i])@
        == native.worlds@[i]@ by {
        assert(plugin@.worlds[i] == plugin.worlds@[i]@);
        assert(native@.worlds[i] == native.worlds@[i]@);
    }
    assert forall|i: int| 0 <= i < native.cells@.len() implies (#[trigger] plugin.cells@[i])@
        == native.cells@[i]@ by {
        assert(plugin@.cells[i] == plugin.cells@[i]@);
        assert(native@.cells[i] == native.cells@[i]@);
    }
}

/// An owned copy of an optional borrowed text. An absent text is not
/// replaced by an empty one.
pub fn own_text(text: Option<&str>) -> (owned: Option<String>)
    ensures
        owned_text(owned) == borrowed_text(text),
        owned is None <==> text is None,
        owned matches Some(s) ==> s@ == text.unwrap()@,
{
    match text {
        Some(s) => Some(s.to_string()),
        None => None,
    }
}

/// Owned copies of borrowed texts, as many and in the same order.
pub fn own_texts(texts: Vec<&str>) -> (owned: Vec<String>)
    ensures
        owned@.len() == texts@.len(),
        forall|i: int| 0 <= i < texts@.len() ==> (#[trigger] owned@[i])@ == texts@[i]@,
{
    let mut owned: Vec<String> = Vec::new();
    for text in it: texts.into_iter()
        invariant
            owned@.len() == it.index(),
            forall|i: int| 0 <= i < it.index() ==> (#[trigger] owned@[i])@ == it.seq()[i]@,
    {
        owned.push(text.to_string());
    }
    owned
}

impl From<NativeWorld> for World {
    /// The host's world record: the parser's, field for field.
    fn from(world: NativeWorld) -> (projected: World)
        ensures
            projected@ == world@,
            projected.form_id == world.form_id,
            projected.editor_id == world.editor_id,
    {
        World { form_id: world.form_id, editor_id: world.editor_id }
    }
}

impl FromSpecImpl<NativeWorld> for World {
    open spec fn obeys_from_spec() -> bool {
        true
    }

    open spec fn from_spec(world: NativeWorld) -> World {
        World { form_id: world.form_id, editor_id: world.editor_id }
    }
}

impl From<NativeCell> for Cell {
    /// The host's cell record: the parser's, field for field. Coordinates
    /// and the worldspace are passed on as they are, present or absent.
    fn from(cell: NativeCell) -> (projected: Cell)
        ensures
            projected@ == cell@,
            projected.form_id == cell.form_id,
            projected.editor_id == cell.editor_id,
            projected.x == cell.x,
            projected.y == cell.y,
            projected.world_form_id == cell.world_form_id,
            projected.is_persistent == cell.is_persistent,
    {
        Cell {
            form_id: cell.form_id,
            editor_id: cell.editor_id,
            x: cell.x,
            y: cell.y,
            world_form_id: cell.world_form_id,
            is_persistent: cell.is_persistent,
        }
    }
}

impl FromSpecImpl<NativeCell> for Cell {
    open spec fn obeys_from_spec() -> bool {
        true
    }

    open spec fn from_spec(cell: NativeCell) -> Cell {
        Cell {
            form_id: cell.form_id,
            editor_id: cell.editor_id,
            x: cell.x,
            y: cell.y,
            world_form_id: cell.world_form_id,
            is_persistent: cell.is_persistent,
        }
    }
}

impl<'a> From<NativeHeader<'a>> for PluginHeader {
    /// The host's header: the numbers as they are, the text as owned copies,
    /// the masters in load order.
    fn from(header: NativeHeader<'a>) -> (projected: PluginHeader)
        ensures
            projected@ == header@,
            projected.version_bits == header.version_bits,
            projected.num_records_and_groups == header.num_records_and_groups,
            projected.next_object_id == header.next_object_id,
            projected.author is None <==> header.author is None,
            projected.author matches Some(a) ==> a@ == header.author.unwrap()@,
            projected.description is None <==> header.description is None,
            projected.description matches Some(d) ==> d@ == header.description.unwrap()@,
            projected.masters@.len() == header.masters@.len(),
            forall|i: int|
                0 <= i < header.masters@.len() ==> (#[trigger] projected.masters@[i])@
                    == header.masters@[i]@,
    {
        let projected = PluginHeader {
            version_bits: header.version_bits,
            num_records_and_groups: header.num_records_and_groups,
            next_object_id: header.next_object_id,
            author: own_text(header.author),
            description: own_text(header.description),
            masters: own_texts(header.masters),
        };
        assert(projected@.masters =~= header@.masters);
        projected
    }
}

impl<'a> FromSpecImpl<NativeHeader<'a>> for PluginHeader {
    open spec fn obeys_from_spec() -> bool {
        false
    }

    /// Some header with the content of the parser's. Which one `from`
    /// returns is not said: its text is newly owned.
    open spec fn from_spec(header: NativeHeader<'a>) -> PluginHeader {
        choose|projected: PluginHeader| projected@ == header@
    }
}

impl<'a> From<NativePlugin<'a>> for Plugin {
    /// The host's plugin: the header, every world and every cell of the
    /// parser's graph, as many and in the same order.
    fn from(plugin: NativePlugin<'a>) -> (projected: Plugin)
        ensures
            projected@ == plugin@,
            projected.header@ == plugin.header@,
            projected.header.author is None <==> plugin.header.author is None,
            projected.header.author matches Some(a) ==> a@ == plugin.header.author.unwrap()@,
            projected.header.description is None <==> plugin.header.description is None,
            projected.header.description matches Some(d) ==> d@
                == plugin.header.description.unwrap()@,
            projected.header.masters@.len() == plugin.header.masters@.len(),
            forall|i: int|
                0 <= i < plugin.header.masters@.len() ==> (
                #[trigger] projected.header.masters@[i])@ == plugin.header.masters@[i]@,
            projected.worlds@.len() == plugin.worlds@.len(),
            forall|i: int|
                0 <= i < plugin.worlds@.len() ==> (#[trigger] projected.worlds@[i])@
                    == plugin.worlds@[i]@,
            projected.cells@.len() == plugin.cells@.len(),
            forall|i: int|
                0 <= i < plugin.cells@.len() ==> (#[trigger] projected.cells@[i])@
                    == plugin.cells@[i]@,
    {
        let header = PluginHeader::from(plugin.header);
        let mut worlds: Vec<World> = Vec::new();
        for world in it: plugin.worlds.into_iter()
            invariant
                worlds@.len() == it.index(),
                forall|i: int| 0 <= i < it.index() ==> (#[trigger] worlds@[i])@ == it.seq()[i]@,
        {
            worlds.push(World::from(world));
        }
        let mut cells: Vec<Cell> = Vec::new();
        for cell in it: plugin.cells.into_iter()
            invariant
                cells@.len() == it.index(),
                forall|i: int| 0 <= i < it.index() ==> (#[trigger] cells@[i])@ == it.seq()[i]@,
        {
            cells.push(Cell::from(cell));
        }
        let projected = Plugin { header, worlds, cells };
        assert(projected@.worlds =~= plugin@.worlds);
        assert(projected@.cells =~= plugin@.cells);
        projected
    }
}

impl<'a> FromSpecImpl<NativePlugin<'a>> for Plugin {
    open spec fn obeys_from_spec() -> bool {
        false
    }

    /// Some plugin with the content of the parser's graph. Which one `from`
    /// returns is not said: its sequences and its text are newly owned.
    open spec fn from_spec(plugin: NativePlugin<'a>) -> Plugin {
        choose|projected: Plugin| projected@ == plugin@
    }
}

} // verus!
