use syster_lsp::builder::FileBuilder;
use syster_lsp::host::AnalysisHost;
use syster_lsp::model::{Position, RefKind, Span, SymbolKind, TypeRef};
use syster_lsp::queries::{DocumentLink, Location};
use syster_lsp::type_info::{kind_display, TypeInfoRequest, TypeRefSnapshot};

fn span(line: u32, c0: u32, c1: u32) -> Span {
    Span {
        start: Position { line, column: c0 },
        end: Position { line, column: c1 },
    }
}

fn at(line: u32, column: u32) -> Position {
    Position { line, column }
}

/// ```text
/// package Auto {                       // line 0
///     part def Vehicle;                // line 1, name at 13..20
///     part car : Vehicle;              // line 2, name 9..12, ref 15..22
///     part truck : Vehicle;            // line 3, name 9..14, ref 17..24
/// }
/// ```
fn workspace() -> AnalysisHost {
    let mut b = FileBuilder::new();
    b.declare(0, SymbolKind::Package, "Auto", span(0, 8, 12), true);
    let v = b.declare(1, SymbolKind::PartDef, "Vehicle", span(1, 13, 20), false);
    b.set_documentation(v, "A thing that moves.");
    let car = b.declare(1, SymbolKind::PartUsage, "car", span(2, 9, 12), false);
    b.set_typed_by(car, "Vehicle");
    b.add_reference(
        car,
        TypeRef { target: "Vehicle".to_string(), span: span(2, 15, 22), kind: RefKind::Typed, chain: None },
    );
    let truck = b.declare(1, SymbolKind::PartUsage, "truck", span(3, 9, 14), false);
    b.set_typed_by(truck, "Vehicle");
    b.add_reference(
        truck,
        TypeRef { target: "Vehicle".to_string(), span: span(3, 17, 24), kind: RefKind::Typed, chain: None },
    );
    let u = b.declare(1, SymbolKind::PartUsage, "ghost", span(4, 9, 14), false);
    b.add_reference(
        u,
        TypeRef { target: "Missing".to_string(), span: span(4, 17, 24), kind: RefKind::Typed, chain: None },
    );
    let (s, y) = b.finish();
    let mut host = AnalysisHost::new();
    host.set_file(1, "auto.sysml".to_string(), s, y).unwrap();
    host
}

#[test]
fn goto_definition_from_reference_and_declaration() {
    let mut host = workspace();
    let a = host.analysis();
    let vehicle = a.resolve("Auto::Vehicle");
    assert!(vehicle.is_some());
    assert_eq!(a.get_definition(1, at(2, 18)), vehicle);
    assert_eq!(a.get_definition(1, at(1, 15)), vehicle);
    assert_eq!(a.get_definition(1, at(2, 10)), a.resolve("Auto::car"));
    assert_eq!(a.get_definition(1, at(4, 18)), None);
    assert_eq!(a.get_definition(1, at(9, 0)), None);
    assert_eq!(a.get_definition(2, at(2, 18)), None);
    assert_eq!(a.symbol_at(1, at(3, 9)), a.resolve("Auto::truck"));
}

#[test]
fn find_references_with_and_without_declaration() {
    let mut host = workspace();
    let a = host.analysis();
    let refs = a.find_references(1, at(1, 14), false);
    assert_eq!(
        refs,
        vec![
            Location { file: 1, span: span(2, 15, 22) },
            Location { file: 1, span: span(3, 17, 24) }
        ]
    );
    let with_decl = a.find_references(1, at(3, 20), true);
    assert_eq!(with_decl.len(), 3);
    assert_eq!(with_decl[0], Location { file: 1, span: span(1, 13, 20) });
    assert!(a.find_references(1, at(7, 0), true).is_empty());
}

#[test]
fn rename_touches_declaration_and_references() {
    let mut host = workspace();
    let a = host.analysis();
    let edits = a.get_rename_edits(1, at(2, 16), "Car").unwrap();
    assert_eq!(edits.len(), 3);
    assert!(edits.iter().all(|e| e.new_text == "Car" && e.file == 1));
    assert_eq!(edits[0].span, span(1, 13, 20));
    assert_eq!(edits[2].span, span(3, 17, 24));
    assert!(a.get_rename_edits(1, at(8, 0), "X").is_none());
}

#[test]
fn workspace_symbol_search() {
    let mut host = workspace();
    let a = host.analysis();
    let names = |q: &str| -> Vec<String> {
        a.get_workspace_symbols(q)
            .iter()
            .map(|id| a.symbol(*id).name.clone())
            .collect()
    };
    assert_eq!(names("ruc"), vec!["truck".to_string()]);
    assert_eq!(names("").len(), 5);
    assert_eq!(names("Vehicle"), vec!["Vehicle".to_string()]);
    assert!(names("vehicle").is_empty());
    assert!(names("zzz").is_empty());
}

#[test]
fn type_info_at_a_type_reference() {
    let mut host = workspace();
    let a = host.analysis();
    let info = a.get_type_info(1, at(2, 15)).unwrap();
    assert_eq!(info.target_name, "Vehicle");
    assert_eq!(info.resolved_name, Some("Auto::Vehicle".to_string()));
    assert_eq!(info.target_kind, Some("part def".to_string()));
    assert_eq!(info.target_doc, Some("A thing that moves.".to_string()));
    assert_eq!(info.container, Some("Auto::car".to_string()));
    assert_eq!(info.ref_kind, "typed_by");
    assert_eq!((info.start_line, info.start_col, info.end_line, info.end_col), (2, 15, 2, 22));

    let unresolved = a.get_type_info(1, at(4, 20)).unwrap();
    assert_eq!(unresolved.target_name, "Missing");
    assert_eq!(unresolved.resolved_name, None);
    assert_eq!(unresolved.target_kind, None);
    assert!(a.get_type_info(1, at(0, 0)).is_none());
    assert_eq!(TypeInfoRequest::METHOD, "syster/typeInfo");
}

#[test]
fn kinds_are_displayed_as_written() {
    assert_eq!(kind_display(SymbolKind::PartDef), "part def");
    assert_eq!(kind_display(SymbolKind::PortUsage), "port");
    assert_eq!(kind_display(SymbolKind::Package), "package");
}

#[test]
fn type_ref_snapshot_copies_text_and_span() {
    let tr = TypeRef { target: "Engine".to_string(), span: span(3, 4, 10), kind: RefKind::Typed, chain: None };
    let snap = TypeRefSnapshot::from(&tr);
    assert_eq!(snap.target, "Engine");
    assert_eq!((snap.start_line, snap.start_col, snap.end_line, snap.end_col), (3, 4, 3, 10));
    assert!(snap.source_symbol.is_none());
    assert!(snap.file_path.is_none());
}

#[test]
fn symbol_at_position_resolves_references() {
    let mut host = workspace();
    let a = host.analysis();
    assert_eq!(
        a.find_symbol_at_position(1, at(2, 16)),
        Some(("Auto::Vehicle".to_string(), span(1, 13, 20)))
    );
    assert_eq!(
        a.find_symbol_at_position(1, at(3, 10)),
        Some(("Auto::truck".to_string(), span(3, 9, 14)))
    );
    assert_eq!(
        a.find_symbol_at_position(1, at(4, 19)),
        Some(("Missing".to_string(), span(4, 19, 20)))
    );
    assert_eq!(a.find_symbol_at_position(1, at(6, 0)), None);
}

#[test]
fn lenses_count_references_to_definitions() {
    let mut host = workspace();
    let a = host.analysis();
    let lenses = a.get_code_lenses(1);
    assert_eq!(lenses.len(), 1);
    assert_eq!(Some(lenses[0].symbol), a.resolve("Auto::Vehicle"));
    assert_eq!(lenses[0].count, 2);
    assert_eq!(lenses[0].span, span(1, 13, 20));
    assert!(a.get_code_lenses(2).is_empty());
}

#[test]
fn outline_nests_by_qualified_name() {
    let mut host = workspace();
    let a = host.analysis();
    let outline = a.get_document_symbols(1);
    let names: Vec<String> = outline
        .iter()
        .map(|e| a.symbol(e.symbol).qualified_name.clone())
        .collect();
    assert_eq!(
        names,
        vec!["Auto", "Auto::Vehicle", "Auto::car", "Auto::truck", "Auto::ghost"]
    );
    assert_eq!(outline[0].parent, None);
    assert!(outline[1..].iter().all(|e| e.parent == Some(0)));
    assert!(a.get_document_symbols(3).is_empty());
}

#[test]
fn document_links_lead_to_declarations() {
    let mut host = workspace();
    let a = host.analysis();
    let links = a.get_document_links(1);
    let decl = Location { file: 1, span: span(1, 13, 20) };
    assert_eq!(
        links,
        vec![
            DocumentLink { span: span(2, 15, 22), target: decl },
            DocumentLink { span: span(3, 17, 24), target: decl }
        ]
    );
    assert!(a.get_document_links(2).is_empty());
}

#[test]
fn references_to_a_symbol() {
    let mut host = workspace();
    let a = host.analysis();
    let v = a.resolve("Auto::Vehicle").unwrap();
    assert_eq!(a.references_to(v).len(), 2);
    let car = a.resolve("Auto::car").unwrap();
    assert!(a.references_to(car).is_empty());
}

#[test]
fn type_definition_of_a_usage() {
    let mut host = workspace();
    let a = host.analysis();
    let vehicle = a.resolve("Auto::Vehicle");
    assert_eq!(a.get_type_definition(1, at(2, 10)), vehicle);
    assert_eq!(a.get_type_definition(1, at(3, 12)), vehicle);
    assert_eq!(a.get_type_definition(1, at(1, 15)), None);
    assert_eq!(a.get_type_definition(1, at(4, 10)), None);
}

#[test]
fn prepare_rename_offers_the_declaration() {
    let mut host = workspace();
    let a = host.analysis();
    assert_eq!(a.prepare_rename(1, at(3, 20)), Some((span(1, 13, 20), "Vehicle".to_string())));
    assert_eq!(a.prepare_rename(1, at(4, 20)), None);
}
