//! The XKB compiler of the `kbvm` crate, as far as the keymap module uses it.
//!
//! Everything here is believed, not proved: each function makes one call into
//! `kbvm`, and its contract is what that crate's source shows of the call.

use vstd::prelude::*;

verus! {

/// A compiled keymap, `kbvm::xkb::Keymap`.
#[verifier::external_type_specification]
#[verifier::external_body]
pub struct ExKeymap(kbvm::xkb::Keymap);

/// A keysym lookup table, `kbvm::lookup::LookupTable`.
#[verifier::external_type_specification]
#[verifier::external_body]
pub struct ExLookupTable(kbvm::lookup::LookupTable);

/// The reason why a keymap was rejected, `kbvm::xkb::diagnostic::Diagnostic`.
#[verifier::external_type_specification]
#[verifier::external_body]
pub struct ExDiagnostic(kbvm::xkb::diagnostic::Diagnostic);

/// What the keymaps produce that a text can be compiled to: for each of them, the
/// first keysym of every (group, modifiers, keycode) that produces one.
///
/// A text without include statements says everything itself. One with include
/// statements can be compiled to a different keymap for each state of the files
/// on the include path. A text that is no keymap can be compiled to nothing.
pub uninterp spec fn compilations(text: Seq<u8>) -> Set<Map<(u32, u32, u32), u32>>;

/// Whether a text is a keymap, that is, can be compiled to anything.
pub open spec fn keymap_text_accepted(text: Seq<u8>) -> bool {
    exists|keysyms: Map<(u32, u32, u32), u32>| #[trigger] compilations(text).contains(keysyms)
}

/// The first keysym of every (group, modifiers, keycode) that produces one
/// under a compiled keymap.
pub uninterp spec fn keymap_keysyms(keymap: kbvm::xkb::Keymap) -> Map<(u32, u32, u32), u32>;

/// The first keysym of every (group, modifiers, keycode) that produces one
/// under a lookup table.
pub uninterp spec fn table_keysyms(table: kbvm::lookup::LookupTable) -> Map<(u32, u32, u32), u32>;

/// Calls `kbvm::xkb::Context::keymap_from_bytes` on a context with the default
/// settings.
///
/// It is believed that the text alone decides whether the call succeeds, as lexing
/// and parsing come before any include statement is followed, and that the keymap is
/// one that the text can be compiled to. Which one of those it is
/// depends, where the text has include statements, on the files on the include
/// path, and is left open.
#[verifier::external_body]
pub(crate) fn compile_keymap(text: &[u8]) -> (result: Result<
    kbvm::xkb::Keymap,
    kbvm::xkb::diagnostic::Diagnostic,
>)
    ensures
        result is Ok <==> keymap_text_accepted(text@),
        result matches Ok(keymap) ==> compilations(text@).contains(keymap_keysyms(keymap)),
{
    kbvm::xkb::Context::builder().build().keymap_from_bytes(
        kbvm::xkb::diagnostic::WriteToLog,
        None,
        text,
    )
}

/// Calls `kbvm::xkb::Keymap::to_builder` and, on what it returns,
/// `kbvm::builder::Builder::build_lookup_table`.
///
/// It is believed that the table produces what the keymap produces.
#[verifier::external_body]
pub(crate) fn build_lookup_table(keymap: &kbvm::xkb::Keymap) -> (table: kbvm::lookup::LookupTable)
    ensures
        table_keysyms(table) == keymap_keysyms(*keymap),
{
    keymap.to_builder().build_lookup_table()
}

/// Calls `kbvm::lookup::LookupTable::lookup` and takes the first item of what it
/// returns.
///
/// It is believed that this is the keysym that the table holds for the arguments,
/// and that there is none where the table holds none.
#[verifier::external_body]
pub(crate) fn first_keysym(
    table: &kbvm::lookup::LookupTable,
    group: u32,
    modifiers: u32,
    keycode: u32,
) -> (keysym: Option<u32>)
    ensures
        keysym == table_keysyms(*table).get((group, modifiers, keycode)),
{
    let lookup = table.lookup(
        kbvm::GroupIndex(group),
        kbvm::ModifierMask(modifiers),
        kbvm::Keycode::from_x11(keycode),
    );
    match lookup.into_iter().next() {
        Some(props) => Some(props.keysym().0),
        None => None,
    }
}

} // verus!
