use syster_lsp::diagram::{
    convert_symbol_to_diagram, default_view_type, extract_parent, node_type, GetDiagramRequest,
};
use syster_lsp::host::AnalysisHost;
use syster_lsp::builder::FileBuilder;
use syster_lsp::model::{Position, Span, Symbol, SymbolKind};

fn span(end_col: u32) -> Span {
    Span {
        start: Position { line: 0, column: 0 },
        end: Position { line: 0, column: end_col },
    }
}

fn symbol(name: &str, qualified_name: &str, kind: SymbolKind, supertypes: Vec<String>) -> Symbol {
    Symbol {
        name: name.to_string(),
        qualified_name: qualified_name.to_string(),
        kind,
        scope: 0,
        body: None,
        span: span(10),
        documentation: None,
        typed_by: None,
        supertypes,
        alias_target: None,
        type_refs: Vec::new(),
    }
}

#[test]
fn test_node_type_format_for_definitions() {
    assert_eq!(format!("{}Def", "Part"), "PartDef");
    assert_eq!(format!("{}Def", "Port"), "PortDef");
    assert_eq!(format!("{}Def", "Action"), "ActionDef");
    assert_eq!(format!("{}Def", "Item"), "ItemDef");
    assert_eq!(node_type(SymbolKind::PartDef), Some("PartDef"));
    assert_eq!(node_type(SymbolKind::PortDef), Some("PortDef"));
    assert_eq!(node_type(SymbolKind::ActionDef), Some("ActionDef"));
    assert_eq!(node_type(SymbolKind::ItemDef), Some("ItemDef"));
}

#[test]
fn test_node_type_format_for_usages() {
    assert_eq!(format!("{}Usage", "Part"), "PartUsage");
    assert_eq!(format!("{}Usage", "Port"), "PortUsage");
    assert_eq!(format!("{}Usage", "Action"), "ActionUsage");
    assert_eq!(format!("{}Usage", "Item"), "ItemUsage");
    assert_eq!(node_type(SymbolKind::PartUsage), Some("PartUsage"));
    assert_eq!(node_type(SymbolKind::PortUsage), Some("PortUsage"));
    assert_eq!(node_type(SymbolKind::ActionUsage), Some("ActionUsage"));
    assert_eq!(node_type(SymbolKind::ItemUsage), Some("ItemUsage"));
}

#[test]
fn test_extract_parent() {
    assert_eq!(
        extract_parent("Package::SubPkg::Element"),
        Some("Package::SubPkg".to_string())
    );
    assert_eq!(extract_parent("Package::Element"), Some("Package".to_string()));
    assert_eq!(extract_parent("TopLevel"), None);
    assert_eq!(extract_parent(""), None);
}

#[test]
fn extract_parent_takes_the_last_separator() {
    assert_eq!(extract_parent("a:::b"), Some("a:".to_string()));
    assert_eq!(extract_parent("::x"), Some("".to_string()));
    assert_eq!(extract_parent("a:b"), None);
}

#[test]
fn test_convert_definition_symbol() {
    let s = symbol("Vehicle", "Pkg::Vehicle", SymbolKind::PartDef, Vec::new());
    let d = convert_symbol_to_diagram(&s).unwrap();
    assert_eq!(d.name, "Vehicle");
    assert_eq!(d.qualified_name, "Pkg::Vehicle");
    assert_eq!(d.node_type, "PartDef");
    assert_eq!(d.parent, Some("Pkg".to_string()));
    assert!(d.typed_by.is_none());
}

#[test]
fn test_convert_usage_symbol() {
    let s = symbol(
        "engine",
        "Pkg::Vehicle::engine",
        SymbolKind::PartUsage,
        vec!["Engine".to_string()],
    );
    let d = convert_symbol_to_diagram(&s).unwrap();
    assert_eq!(d.name, "engine");
    assert_eq!(d.qualified_name, "Pkg::Vehicle::engine");
    assert_eq!(d.node_type, "PartUsage");
    assert_eq!(d.parent, Some("Pkg::Vehicle".to_string()));
    assert_eq!(d.typed_by, Some("Engine".to_string()));
}

#[test]
fn test_convert_package_symbol() {
    let s = symbol("MyPackage", "Root::MyPackage", SymbolKind::Package, Vec::new());
    let d = convert_symbol_to_diagram(&s).unwrap();
    assert_eq!(d.name, "MyPackage");
    assert_eq!(d.qualified_name, "Root::MyPackage");
    assert_eq!(d.node_type, "Package");
    assert_eq!(d.parent, Some("Root".to_string()));
}

#[test]
fn test_convert_alias_symbol_returns_none() {
    let s = symbol("MyAlias", "Pkg::MyAlias", SymbolKind::Alias, Vec::new());
    assert!(convert_symbol_to_diagram(&s).is_none());
}

#[test]
fn test_convert_import_symbol_returns_none() {
    let s = symbol("_import", "Pkg::_import_Other::Thing", SymbolKind::Import, Vec::new());
    assert!(convert_symbol_to_diagram(&s).is_none());
}

#[test]
fn typed_by_wins_over_first_supertype() {
    let mut s = symbol("e", "P::e", SymbolKind::PartUsage, vec!["Base".to_string()]);
    s.typed_by = Some("Engine".to_string());
    let d = convert_symbol_to_diagram(&s).unwrap();
    assert_eq!(d.typed_by, Some("Engine".to_string()));
}

#[test]
fn default_view_is_general_view() {
    assert_eq!(default_view_type(), "GeneralView");
    assert_eq!(GetDiagramRequest::METHOD, "syster/getDiagram");
}

#[test]
fn diagram_of_workspace_and_of_one_file() {
    let mut b = FileBuilder::new();
    let pkg = b.declare(0, SymbolKind::Package, "Pkg", span(3), true);
    let body = 1;
    assert_eq!(pkg, 0);
    b.declare(body, SymbolKind::PartDef, "Engine", span(6), false);
    let e = b.declare(body, SymbolKind::PartUsage, "engine", span(6), false);
    b.set_typed_by(e, "Engine");
    let al = b.declare(body, SymbolKind::Alias, "E", span(1), false);
    b.set_alias_target(al, "Engine");
    let (scopes, symbols) = b.finish();
    let mut other = FileBuilder::new();
    other.declare(0, SymbolKind::PartDef, "Lone", span(4), false);
    let (scopes2, symbols2) = other.finish();

    let mut host = AnalysisHost::new();
    host.set_file(1, "a.sysml".to_string(), scopes, symbols).unwrap();
    host.set_file(2, "b.sysml".to_string(), scopes2, symbols2).unwrap();
    let a = host.analysis();

    let all = a.get_diagram(None, "GeneralView");
    let names: Vec<&str> = all.symbols.iter().map(|d| d.qualified_name.as_str()).collect();
    assert_eq!(names, vec!["Pkg", "Pkg::Engine", "Pkg::engine", "Lone"]);
    assert_eq!(all.relationships.len(), 1);
    assert_eq!(all.relationships[0].rel_type, "typing");
    assert_eq!(all.relationships[0].source, "Pkg::engine");
    assert_eq!(all.relationships[0].target, "Engine");
    assert_eq!(all.view_type, "GeneralView");
    assert_eq!(all.symbols[1].parent, Some("Pkg".to_string()));
    assert_eq!(all.symbols[0].parent, None);

    let one = a.get_diagram(Some(2), "InterconnectionView");
    assert_eq!(one.symbols.len(), 1);
    assert_eq!(one.symbols[0].name, "Lone");
    assert!(one.relationships.is_empty());
    assert_eq!(one.view_type, "InterconnectionView");

    let none = a.get_diagram(Some(9), "GeneralView");
    assert!(none.symbols.is_empty());
}
