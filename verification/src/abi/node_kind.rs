//! Workspace-canonical node-kind ids for NAM nodes. Ids are stable and
//! append-only.

use vstd::prelude::*;

verus! {

/// Catch-all for any kind not represented in the table.
pub const UNKNOWN: usize = 0;
/// The crate / file root node.
pub const SOURCE_FILE: usize = 1;
pub const FUNCTION_ITEM: usize = 2;
pub const STRUCT_ITEM: usize = 3;
pub const ENUM_ITEM: usize = 4;
pub const UNION_ITEM: usize = 5;
pub const TRAIT_ITEM: usize = 6;
pub const IMPL_ITEM: usize = 7;
pub const MOD_ITEM: usize = 8;
/// A `type` alias item.
pub const TYPE_ITEM: usize = 9;
pub const CONST_ITEM: usize = 10;
pub const STATIC_ITEM: usize = 11;
pub const USE_DECLARATION: usize = 12;
pub const MACRO_DEFINITION: usize = 13;
pub const MACRO_INVOCATION: usize = 14;
/// A `pub` / `pub(...)` visibility modifier.
pub const VISIBILITY_MODIFIER: usize = 15;
pub const LINE_COMMENT: usize = 16;
pub const BLOCK_COMMENT: usize = 17;
/// An `#[...]` attribute item.
pub const ATTRIBUTE_ITEM: usize = 18;
/// An `extern "..." { ... }` block.
pub const FOREIGN_MOD_ITEM: usize = 19;
pub const CALL_EXPRESSION: usize = 20;
pub const FIELD_EXPRESSION: usize = 21;
pub const FIELD_DECLARATION: usize = 22;
pub const PARAMETER: usize = 23;
pub const ENUM_VARIANT: usize = 24;
pub const TYPE_IDENTIFIER: usize = 25;
pub const PRIMITIVE_TYPE: usize = 26;
pub const ASSOCIATED_TYPE: usize = 27;
pub const IDENTIFIER: usize = 28;

} // verus!
