use viola::abi::node_kind::{
    ASSOCIATED_TYPE, ATTRIBUTE_ITEM, BLOCK_COMMENT, CALL_EXPRESSION, CONST_ITEM, ENUM_ITEM,
    ENUM_VARIANT, FIELD_DECLARATION, FIELD_EXPRESSION, FOREIGN_MOD_ITEM, FUNCTION_ITEM,
    IDENTIFIER, IMPL_ITEM, LINE_COMMENT, MACRO_DEFINITION, MACRO_INVOCATION, MOD_ITEM,
    PARAMETER, PRIMITIVE_TYPE, SOURCE_FILE, STATIC_ITEM, STRUCT_ITEM, TRAIT_ITEM,
    TYPE_IDENTIFIER, TYPE_ITEM, UNION_ITEM, UNKNOWN, USE_DECLARATION, VISIBILITY_MODIFIER,
};
use viola::abi::{
    nam_file_entries, nam_file_nodes, DiagnosticSeverity, NamFileEntry, NamNode, NamPayload,
    NamVersion, PluginError, ProviderId, RunSurface, PROVIDER_GRAMMAR_EXTRACT,
    PROVIDER_LINT_EVALUATE, PROVIDER_LINT_EVALUATE_PROJECT, PROVIDER_RUNNER_EXECUTE_SCOPE,
};
use core::mem::{align_of, size_of};

#[test]
fn well_known_providers_distinct() {
    assert_ne!(PROVIDER_RUNNER_EXECUTE_SCOPE().0, PROVIDER_GRAMMAR_EXTRACT().0);
    assert_ne!(PROVIDER_GRAMMAR_EXTRACT().0, PROVIDER_LINT_EVALUATE().0);
    assert_ne!(PROVIDER_RUNNER_EXECUTE_SCOPE().0, PROVIDER_LINT_EVALUATE().0);
    assert_ne!(PROVIDER_LINT_EVALUATE().0, PROVIDER_LINT_EVALUATE_PROJECT().0);
    assert_ne!(PROVIDER_RUNNER_EXECUTE_SCOPE().0, PROVIDER_LINT_EVALUATE_PROJECT().0);
    assert_ne!(PROVIDER_GRAMMAR_EXTRACT().0, PROVIDER_LINT_EVALUATE_PROJECT().0);
}

#[test]
fn provider_id_is_transparent_u64() {
    assert_eq!(size_of::<ProviderId>(), size_of::<u64>());
    assert_eq!(align_of::<ProviderId>(), align_of::<u64>());
}

#[test]
fn run_surface_is_repr_u32() {
    assert_eq!(size_of::<RunSurface>(), 4);
    assert_eq!(RunSurface::Cli().as_u32(), 0);
    assert_eq!(RunSurface::Other().as_u32(), 0xFFFF);
}

#[test]
fn nam_v1_0_0_is_one_zero_zero() {
    assert_eq!(NamVersion::V1_0_0().major, 1);
    assert_eq!(NamVersion::V1_0_0().minor, 0);
    assert_eq!(NamVersion::V1_0_0().patch, 0);
    assert_eq!(NamVersion::V1_0_0()._reserved, 0);
}

#[test]
fn nam_v1_1_0_is_one_one_zero() {
    assert_eq!(NamVersion::V1_1_0().major, 1);
    assert_eq!(NamVersion::V1_1_0().minor, 1);
    assert_eq!(NamVersion::V1_1_0().patch, 0);
    assert_eq!(NamVersion::V1_1_0()._reserved, 0);
}

#[test]
fn node_kind_ids_are_contiguous_and_distinct() {
    let ids = [
        UNKNOWN,
        SOURCE_FILE,
        FUNCTION_ITEM,
        STRUCT_ITEM,
        ENUM_ITEM,
        UNION_ITEM,
        TRAIT_ITEM,
        IMPL_ITEM,
        MOD_ITEM,
        TYPE_ITEM,
        CONST_ITEM,
        STATIC_ITEM,
        USE_DECLARATION,
        MACRO_DEFINITION,
        MACRO_INVOCATION,
        VISIBILITY_MODIFIER,
        LINE_COMMENT,
        BLOCK_COMMENT,
        ATTRIBUTE_ITEM,
        FOREIGN_MOD_ITEM,
        CALL_EXPRESSION,
        FIELD_EXPRESSION,
        FIELD_DECLARATION,
        PARAMETER,
        ENUM_VARIANT,
        TYPE_IDENTIFIER,
        PRIMITIVE_TYPE,
        ASSOCIATED_TYPE,
        IDENTIFIER,
    ];
    for (i, &id) in ids.iter().enumerate() {
        assert_eq!(id, i, "node_kind id at position {i} must equal {i}");
    }
    assert_eq!(CALL_EXPRESSION, 20);
    assert_eq!(ASSOCIATED_TYPE, 27);
    assert_eq!(IDENTIFIER, 28);
}

#[test]
fn nam_version_v1_2_0() {
    assert_eq!(NamVersion::V1_2_0().major, 1);
    assert_eq!(NamVersion::V1_2_0().minor, 2);
    assert_eq!(NamVersion::V1_2_0().patch, 0);
}

#[test]
fn nam_version_v1_3_0() {
    assert_eq!(NamVersion::V1_3_0().major, 1);
    assert_eq!(NamVersion::V1_3_0().minor, 3);
    assert_eq!(NamVersion::V1_3_0().patch, 0);
}

#[test]
fn nam_version_new_zeroes_reserved() {
    let v = NamVersion::new(2, 5, 7);
    assert_eq!((v.major, v.minor, v.patch, v._reserved), (2, 5, 7, 0));
}

#[test]
fn provider_id_is_fnv1a_of_name() {
    // FNV-1a 64 of the empty string is the offset basis; of "a" a known value.
    assert_eq!(ProviderId::from_name("").0, 0xcbf29ce484222325);
    assert_eq!(ProviderId::from_name("a").0, 0xaf63dc4c8601ec8c);
    assert_eq!(PROVIDER_LINT_EVALUATE(), ProviderId::from_name("viola.lint.evaluate.v2"));
}

#[test]
fn run_surface_wire_values() {
    assert_eq!(RunSurface::Hook().as_u32(), 1);
    assert_eq!(RunSurface::Ci().as_u32(), 2);
    assert_eq!(RunSurface::Lsp().as_u32(), 3);
    assert_eq!(RunSurface::Test().as_u32(), 4);
}

#[test]
fn severity_and_plugin_error_wire_values() {
    assert_eq!(DiagnosticSeverity::Info.as_u32(), 0);
    assert_eq!(DiagnosticSeverity::Warn.as_u32(), 1);
    assert_eq!(DiagnosticSeverity::Error.as_u32(), 2);
    assert_eq!(PluginError::RoleProviderMissing.as_u32(), 1);
    assert_eq!(PluginError::ModelVersionMismatch.as_u32(), 2);
    assert_eq!(PluginError::InvocationFailed.as_u32(), 3);
    assert_eq!(PluginError::ConfigInvalid.as_u32(), 4);
}

fn file(language: usize, nodes: Option<Vec<NamNode>>) -> NamFileEntry {
    NamFileEntry { path: Vec::new(), language, source: Vec::new(), nodes }
}

#[test]
fn nam_file_entries_returns_none_on_version_mismatch() {
    let payload = NamPayload { version: NamVersion::new(2, 0, 0), entries: None };
    assert!(nam_file_entries(&payload).is_none());
}

#[test]
fn nam_file_entries_returns_empty_on_null_data_v1() {
    let payload = NamPayload { version: NamVersion::V1_0_0(), entries: None };
    let entries = nam_file_entries(&payload).expect("v1 with null data yields Some(&[])");
    assert_eq!(entries.len(), 0);
}

#[test]
fn nam_file_entries_walks_v1_slice() {
    let payload = NamPayload {
        version: NamVersion::V1_0_0(),
        entries: Some(vec![file(0, None), file(1, None)]),
    };
    let entries = nam_file_entries(&payload).expect("v1 with valid data yields slice");
    assert_eq!(entries.len(), 2);
    assert_eq!(entries[0].language, 0);
    assert_eq!(entries[1].language, 1);
}

#[test]
fn nam_file_entries_walks_v1_1_0_slice() {
    let payload = NamPayload { version: NamVersion::V1_1_0(), entries: Some(vec![file(7, None)]) };
    let walked = nam_file_entries(&payload).expect("v1.1.0 payload walks the entry slice");
    assert_eq!(walked.len(), 1);
    assert_eq!(walked[0].language, 7);
}

#[test]
fn nam_file_nodes_returns_none_when_no_tree() {
    assert!(nam_file_nodes(&file(0, None)).is_none());
}

#[test]
fn nam_file_nodes_walks_node_slice() {
    let nodes = vec![
        NamNode { kind: SOURCE_FILE, parent: 1, first_child: 1, start_byte: 0, end_byte: 20, start_row: 0, end_row: 2 },
        NamNode { kind: FUNCTION_ITEM, parent: 0, first_child: 2, start_byte: 0, end_byte: 20, start_row: 0, end_row: 2 },
    ];
    let entry = file(0, Some(nodes));
    let walked = nam_file_nodes(&entry).expect("populated nodes carrier yields a slice");
    assert_eq!(walked.len(), 2);
    assert_eq!(walked[0].kind, SOURCE_FILE);
    assert_eq!(walked[1].kind, FUNCTION_ITEM);
    assert_eq!(walked[1].parent, 0);
}
