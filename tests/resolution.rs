use syster_lsp::analysis::SymbolId;
use syster_lsp::builder::FileBuilder;
use syster_lsp::host::{AnalysisHost, ContributionError};
use syster_lsp::model::{
    ChainContext, Import, Position, RefKind, Scope, Span, Symbol, SymbolKind, TypeRef,
};

fn span(line: u32, c0: u32, c1: u32) -> Span {
    Span {
        start: Position { line, column: c0 },
        end: Position { line, column: c1 },
    }
}

fn reference(target: &str, line: u32, c0: u32, c1: u32, kind: RefKind) -> TypeRef {
    TypeRef {
        target: target.to_string(),
        span: span(line, c0, c1),
        kind,
        chain: None,
    }
}

fn import(path: &str, is_public: bool, is_wildcard: bool) -> Import {
    Import {
        path: path.to_string(),
        is_public,
        is_wildcard,
        is_recursive: false,
    }
}

fn qn(host: &mut AnalysisHost, id: Option<SymbolId>) -> Option<String> {
    let a = host.analysis();
    id.map(|l| a.symbol(l).qualified_name.clone())
}

/// File A: `package A { part def Vehicle; }`
fn file_a() -> (Vec<Scope>, Vec<Symbol>) {
    let mut b = FileBuilder::new();
    b.declare(0, SymbolKind::Package, "A", span(0, 8, 9), true);
    b.declare(1, SymbolKind::PartDef, "Vehicle", span(0, 21, 28), false);
    b.finish()
}

/// File B: `package B { import A::Vehicle; part x: Vehicle; }`, with or
/// without the import.
fn file_b(with_import: bool) -> (Vec<Scope>, Vec<Symbol>) {
    let mut b = FileBuilder::new();
    b.declare(0, SymbolKind::Package, "B", span(0, 8, 9), true);
    if with_import {
        b.add_import(1, import("A::Vehicle", false, false));
    }
    let x = b.declare(1, SymbolKind::PartUsage, "x", span(2, 9, 10), false);
    b.set_typed_by(x, "Vehicle");
    b.add_reference(x, reference("Vehicle", 2, 12, 19, RefKind::Typed));
    b.finish()
}

#[test]
fn builder_gives_qualified_names_and_body_scopes() {
    let (scopes, symbols) = file_a();
    assert_eq!(scopes.len(), 2);
    assert_eq!(scopes[1].parent, Some(0));
    assert_eq!(symbols[0].qualified_name, "A");
    assert_eq!(symbols[0].body, Some(1));
    assert_eq!(symbols[1].qualified_name, "A::Vehicle");
    assert_eq!(symbols[1].scope, 1);
    assert_eq!(symbols[1].body, None);
}

#[test]
fn qualified_round_trip_for_every_symbol() {
    let mut host = AnalysisHost::new();
    let (s, y) = file_a();
    host.set_file(1, "a.sysml".to_string(), s, y).unwrap();
    let (s, y) = file_b(true);
    host.set_file(2, "b.sysml".to_string(), s, y).unwrap();
    let a = host.analysis();
    assert_eq!(a.all_symbols().len(), 4);
    for id in a.all_symbols().iter() {
        let q = a.symbol(*id).qualified_name.clone();
        assert_eq!(a.resolve(&q), Some(*id));
    }
    assert_eq!(a.resolve("A::Nothing"), None);
    assert_eq!(a.resolve("Vehicle"), None);
}

#[test]
fn reindexing_the_same_content_changes_nothing() {
    let mut host = AnalysisHost::new();
    let (s, y) = file_a();
    host.set_file(1, "a.sysml".to_string(), s, y).unwrap();
    let (s, y) = file_b(true);
    host.set_file(2, "b.sysml".to_string(), s, y).unwrap();
    let a = host.analysis();
    let symbols_once: Vec<String> = a
        .all_symbols()
        .iter()
        .map(|id| a.symbol(*id).qualified_name.clone())
        .collect();
    let refs_once = a.get_references_in_file(2).len();
    let sources_once = a.get_sources("A::Vehicle").len();
    assert_eq!(refs_once, 1);
    assert_eq!(sources_once, 1);

    let (s, y) = file_b(true);
    host.set_file(2, "b.sysml".to_string(), s, y).unwrap();
    let (s, y) = file_b(true);
    host.set_file(2, "b.sysml".to_string(), s, y).unwrap();
    let a = host.analysis();
    let symbols_twice: Vec<String> = a
        .all_symbols()
        .iter()
        .map(|id| a.symbol(*id).qualified_name.clone())
        .collect();
    assert_eq!(symbols_once, symbols_twice);
    assert_eq!(a.get_references_in_file(2).len(), refs_once);
    assert_eq!(a.get_sources("A::Vehicle").len(), sources_once);
    assert_eq!(a.get_references("Vehicle").len(), 1);
}

#[test]
fn import_removal_clears_visibility() {
    let mut host = AnalysisHost::new();
    let (s, y) = file_a();
    host.set_file(1, "a.sysml".to_string(), s, y).unwrap();
    let (s, y) = file_b(true);
    host.set_file(2, "b.sysml".to_string(), s, y).unwrap();
    let a = host.analysis();
    let b_pkg = a.resolve("B").unwrap();
    let b_scope = a.body_scope(b_pkg).unwrap();
    let found = a.resolve_in_scope("Vehicle", b_scope);
    assert_eq!(found, a.resolve("A::Vehicle"));
    assert!(found.is_some());
    assert_eq!(a.get_sources("A::Vehicle"), vec!["B::x".to_string()]);

    let (s, y) = file_b(false);
    host.set_file(2, "b.sysml".to_string(), s, y).unwrap();
    let a = host.analysis();
    let b_pkg = a.resolve("B").unwrap();
    let b_scope = a.body_scope(b_pkg).unwrap();
    assert_eq!(a.resolve_in_scope("Vehicle", b_scope), None);
    assert!(a.get_sources("A::Vehicle").is_empty());
    assert_eq!(a.get_sources("Vehicle"), vec!["B::x".to_string()]);
}

#[test]
fn public_imports_are_transitive() {
    // package R { attribute def Real; }
    // package Q { public import R::*; }
    // package P { public import Q::*; part def Inner { } }
    let mut b = FileBuilder::new();
    b.declare(0, SymbolKind::Package, "R", span(0, 0, 1), true);
    b.declare(1, SymbolKind::AttributeDef, "Real", span(0, 2, 6), false);
    b.declare(0, SymbolKind::Package, "Q", span(1, 0, 1), true);
    b.add_import(2, import("R", true, true));
    b.declare(0, SymbolKind::Package, "P", span(2, 0, 1), true);
    b.add_import(3, import("Q", true, true));
    b.declare(3, SymbolKind::PartDef, "Inner", span(3, 0, 5), true);
    let (s, y) = b.finish();
    let mut host = AnalysisHost::new();
    host.set_file(7, "p.sysml".to_string(), s, y).unwrap();
    let a = host.analysis();
    let inner = a.resolve("P::Inner").unwrap();
    let scope = a.body_scope(inner).unwrap();
    assert_eq!(a.resolve_in_scope("Real", scope), a.resolve("R::Real"));
    assert!(a.resolve("R::Real").is_some());
}

#[test]
fn private_imports_are_not_re_exported() {
    // package R { attribute def Real; } package Q { import R::*; }
    // package P { import Q::*; }
    let mut b = FileBuilder::new();
    b.declare(0, SymbolKind::Package, "R", span(0, 0, 1), true);
    b.declare(1, SymbolKind::AttributeDef, "Real", span(0, 2, 6), false);
    b.declare(0, SymbolKind::Package, "Q", span(1, 0, 1), true);
    b.add_import(2, import("R", false, true));
    b.declare(0, SymbolKind::Package, "P", span(2, 0, 1), true);
    b.add_import(3, import("Q", false, true));
    let (s, y) = b.finish();
    let mut host = AnalysisHost::new();
    host.set_file(1, "p.sysml".to_string(), s, y).unwrap();
    let a = host.analysis();
    let p = a.resolve("P").unwrap();
    let q = a.resolve("Q").unwrap();
    assert_eq!(a.resolve_in_scope("Real", a.body_scope(p).unwrap()), None);
    assert_eq!(
        a.resolve_in_scope("Real", a.body_scope(q).unwrap()),
        a.resolve("R::Real")
    );
}

#[test]
fn inherited_member_lookup() {
    // part def Base { attribute mass; } part def Derived :> Base;
    let mut b = FileBuilder::new();
    b.declare(0, SymbolKind::PartDef, "Base", span(0, 9, 13), true);
    b.declare(1, SymbolKind::AttributeUsage, "mass", span(0, 26, 30), false);
    let d = b.declare(0, SymbolKind::PartDef, "Derived", span(1, 9, 16), true);
    b.add_supertype(d, "Base");
    let (s, y) = b.finish();
    let mut host = AnalysisHost::new();
    host.set_file(1, "m.sysml".to_string(), s, y).unwrap();
    let a = host.analysis();
    let derived = a.resolve("Derived").unwrap();
    let found = a.resolve_member("mass", derived);
    assert_eq!(found, a.resolve("Base::mass"));
    assert_eq!(a.symbol(found.unwrap()).qualified_name, "Base::mass");
    assert_eq!(a.resolve_member("volume", derived), None);
}

#[test]
fn feature_chain_through_usage_type() {
    // package Pkg { part def Engine { port p1; } part driver: Engine; }
    let mut b = FileBuilder::new();
    b.declare(0, SymbolKind::Package, "Pkg", span(0, 8, 11), true);
    b.declare(1, SymbolKind::PartDef, "Engine", span(1, 9, 15), true);
    b.declare(2, SymbolKind::PortUsage, "p1", span(1, 23, 25), false);
    let driver = b.declare(1, SymbolKind::PartUsage, "driver", span(2, 5, 11), false);
    b.set_typed_by(driver, "Engine");
    let user = b.declare(1, SymbolKind::PartUsage, "probe", span(3, 5, 10), false);
    let parts = vec!["driver".to_string(), "p1".to_string()];
    b.add_reference(
        user,
        TypeRef {
            target: "p1".to_string(),
            span: span(3, 20, 22),
            kind: RefKind::FeatureChainPart,
            chain: Some(ChainContext { chain_parts: parts.clone(), chain_index: 1 }),
        },
    );
    let (s, y) = b.finish();
    let mut host = AnalysisHost::new();
    host.set_file(3, "chain.sysml".to_string(), s, y).unwrap();
    let a = host.analysis();
    let pkg = a.resolve("Pkg").unwrap();
    let scope = a.body_scope(pkg).unwrap();
    let p1 = a.resolve("Pkg::Engine::p1");
    assert!(p1.is_some());
    assert_eq!(a.resolve_feature_chain(&parts, 1, scope), p1);
    assert_eq!(a.resolve_feature_chain(&parts, 0, scope), a.resolve("Pkg::driver"));
    assert_eq!(a.resolve_feature_chain(&parts, 2, scope), None);
    let bad = vec!["driver".to_string(), "p9".to_string()];
    assert_eq!(a.resolve_feature_chain(&bad, 1, scope), None);

    let at = a.get_reference_at_position(3, Position { line: 3, column: 21 }).unwrap();
    assert_eq!(a.reference(at).target, "p1");
    assert_eq!(a.resolve_reference(at), p1);
    let (full, sc) = a
        .get_full_reference_at_position(3, Position { line: 3, column: 20 })
        .unwrap();
    assert_eq!(full, at);
    assert_eq!(sc, scope);
    assert_eq!(a.get_reference_at_position(3, Position { line: 3, column: 23 }), None);
    assert_eq!(a.get_sources("Pkg::Engine::p1"), vec!["Pkg::probe".to_string()]);
}

#[test]
fn alias_via_import() {
    // package A { attribute def duration; }
    // package B { public import A::*; alias time for duration; }
    // package C { import B::*; }
    let mut b = FileBuilder::new();
    b.declare(0, SymbolKind::Package, "A", span(0, 0, 1), true);
    b.declare(1, SymbolKind::AttributeDef, "duration", span(0, 2, 10), false);
    b.declare(0, SymbolKind::Package, "B", span(1, 0, 1), true);
    b.add_import(2, import("A", true, true));
    let t = b.declare(2, SymbolKind::Alias, "time", span(1, 5, 9), false);
    b.set_alias_target(t, "duration");
    b.declare(0, SymbolKind::Package, "C", span(2, 0, 1), true);
    b.add_import(3, import("B", false, true));
    let (s, y) = b.finish();
    let mut host = AnalysisHost::new();
    host.set_file(1, "alias.sysml".to_string(), s, y).unwrap();
    let a = host.analysis();
    let c = a.resolve("C").unwrap();
    let found = a.resolve_in_scope("time", a.body_scope(c).unwrap());
    assert_eq!(found, a.resolve("A::duration"));
    assert_eq!(a.symbol(found.unwrap()).qualified_name, "A::duration");
    assert_eq!(a.symbol(a.resolve("B::time").unwrap()).kind, SymbolKind::Alias);
}

#[test]
fn cyclic_specialization_terminates() {
    // part def X :> Y; part def Y :> X;
    let mut b = FileBuilder::new();
    let x = b.declare(0, SymbolKind::PartDef, "X", span(0, 9, 10), true);
    b.add_supertype(x, "Y");
    let y = b.declare(0, SymbolKind::PartDef, "Y", span(1, 9, 10), true);
    b.add_supertype(y, "X");
    let (s, yy) = b.finish();
    let mut host = AnalysisHost::new();
    host.set_file(1, "cycle.sysml".to_string(), s, yy).unwrap();
    let a = host.analysis();
    let xs = a.resolve("X").unwrap();
    assert_eq!(a.resolve_member("anything", xs), None);
}

#[test]
fn alias_cycle_resolves_to_nothing() {
    let mut b = FileBuilder::new();
    let p = b.declare(0, SymbolKind::Alias, "p", span(0, 0, 1), false);
    b.set_alias_target(p, "q");
    let q = b.declare(0, SymbolKind::Alias, "q", span(1, 0, 1), false);
    b.set_alias_target(q, "p");
    let (s, y) = b.finish();
    let mut host = AnalysisHost::new();
    host.set_file(1, "c.sysml".to_string(), s, y).unwrap();
    let a = host.analysis();
    let root = a.file_root(1).unwrap();
    assert_eq!(a.resolve_in_scope("p", root), None);
}

#[test]
fn later_file_wins_a_qualified_name_collision() {
    let mut host = AnalysisHost::new();
    let (s, y) = file_a();
    host.set_file(1, "a.sysml".to_string(), s, y).unwrap();
    let (s, y) = file_a();
    host.set_file(2, "a2.sysml".to_string(), s, y).unwrap();
    let a = host.analysis();
    assert_eq!(a.all_symbols().len(), 2);
    assert_eq!(a.diagnostics().len(), 2);
    let v = a.resolve("A::Vehicle").unwrap();
    assert_eq!(a.files[v.file].id, 2);
    let d = a.diagnostics()[1];
    assert_eq!(a.symbol(d.shadowed).qualified_name, "A::Vehicle");
    assert_eq!(a.files[d.by.file].id, 2);
}

#[test]
fn removing_a_file_drops_its_symbols_and_references() {
    let mut host = AnalysisHost::new();
    let (s, y) = file_a();
    host.set_file(1, "a.sysml".to_string(), s, y).unwrap();
    let (s, y) = file_b(true);
    host.set_file(2, "b.sysml".to_string(), s, y).unwrap();
    assert!(host.remove_file(2));
    assert!(!host.remove_file(2));
    let a = host.analysis();
    assert_eq!(a.all_symbols().len(), 2);
    assert!(a.get_references_in_file(2).is_empty());
    assert_eq!(a.resolve("B"), None);
    assert_eq!(a.file_root(2), None);
}

#[test]
fn malformed_contribution_is_refused() {
    let mut host = AnalysisHost::new();
    assert_eq!(
        host.set_file(1, "x.sysml".to_string(), Vec::new(), Vec::new()),
        Err(ContributionError::Malformed)
    );
    let scopes = vec![Scope { parent: None, imports: Vec::new() }];
    let (_, mut symbols) = file_a();
    symbols.truncate(1);
    assert_eq!(
        host.set_file(1, "x.sysml".to_string(), scopes, symbols),
        Err(ContributionError::Malformed)
    );
    assert_eq!(host.analysis().all_symbols().len(), 0);
}

#[test]
fn empty_file_is_present_but_contributes_nothing() {
    let mut host = AnalysisHost::new();
    let (s, y) = FileBuilder::new().finish();
    host.set_file(5, "empty.sysml".to_string(), s, y).unwrap();
    let a = host.analysis();
    assert!(a.file_root(5).is_some());
    assert!(a.all_symbols().is_empty());
    assert_eq!(a.resolve_in_scope("Anything", a.file_root(5).unwrap()), None);
}

#[test]
fn recursive_import_reaches_descendants() {
    // package Lib { package Units { attribute def Meter; } }
    // package Use { import Lib::**; }
    let mut b = FileBuilder::new();
    b.declare(0, SymbolKind::Package, "Lib", span(0, 0, 3), true);
    b.declare(1, SymbolKind::Package, "Units", span(0, 4, 9), true);
    b.declare(2, SymbolKind::AttributeDef, "Meter", span(0, 10, 15), false);
    b.declare(0, SymbolKind::Package, "Use", span(1, 0, 3), true);
    b.add_import(
        3,
        Import { path: "Lib".to_string(), is_public: false, is_wildcard: true, is_recursive: true },
    );
    let (s, y) = b.finish();
    let mut host = AnalysisHost::new();
    host.set_file(1, "r.sysml".to_string(), s, y).unwrap();
    let a = host.analysis();
    let u = a.resolve("Use").unwrap();
    assert_eq!(
        a.resolve_in_scope("Meter", a.body_scope(u).unwrap()),
        a.resolve("Lib::Units::Meter")
    );
}

#[test]
fn lookup_walks_up_to_the_shared_root() {
    let mut host = AnalysisHost::new();
    let (s, y) = file_a();
    host.set_file(1, "a.sysml".to_string(), s, y).unwrap();
    let (s, y) = file_b(false);
    host.set_file(2, "b.sysml".to_string(), s, y).unwrap();
    let a = host.analysis();
    let b_pkg = a.resolve("B").unwrap();
    let scope = a.body_scope(b_pkg).unwrap();
    assert_eq!(a.resolve_in_scope("A", scope), a.resolve("A"));
    assert_eq!(a.resolve_in_scope("A::Vehicle", scope), a.resolve("A::Vehicle"));
    assert_eq!(a.declaring_scope(b_pkg).index, 0);
}

#[test]
fn member_alias_is_followed() {
    // part def E { attribute mass; alias m for mass; }
    let mut b = FileBuilder::new();
    b.declare(0, SymbolKind::PartDef, "E", span(0, 9, 10), true);
    b.declare(1, SymbolKind::AttributeUsage, "mass", span(0, 23, 27), false);
    let m = b.declare(1, SymbolKind::Alias, "m", span(0, 35, 36), false);
    b.set_alias_target(m, "mass");
    let (s, y) = b.finish();
    let mut host = AnalysisHost::new();
    host.set_file(1, "e.sysml".to_string(), s, y).unwrap();
    let a = host.analysis();
    let e = a.resolve("E").unwrap();
    assert_eq!(a.resolve_member("m", e), a.resolve("E::mass"));
}
