use cppdoc::index::{IndexEntry, SymbolIndex, SymbolKind};

#[test]
fn kinds_have_their_tags() {
    assert_eq!(SymbolKind::Namespace.as_str(), "namespace");
    assert_eq!(SymbolKind::Record.as_str(), "record");
    assert_eq!(SymbolKind::Enum.as_str(), "enum");
    assert_eq!(SymbolKind::Function.as_str(), "function");
    assert_eq!(SymbolKind::Alias.as_str(), "alias");
}

#[test]
fn empty_index_holds_nothing() {
    let index = SymbolIndex::new();
    assert_eq!(index.get("a"), None);
    assert!(!index.contains("a"));
    assert!(index.entries().is_empty());
}

#[test]
fn insert_then_get() {
    let mut index = SymbolIndex::new();
    index.insert("a::b".to_string(), SymbolKind::Record);
    index.insert("a".to_string(), SymbolKind::Namespace);
    assert_eq!(index.get("a::b"), Some(SymbolKind::Record));
    assert_eq!(index.get("a"), Some(SymbolKind::Namespace));
    assert_eq!(index.get("b"), None);
    assert!(index.contains("a::b"));
    assert!(!index.contains("a::"));
}

#[test]
fn insert_again_keeps_the_place_and_takes_the_kind() {
    let mut index = SymbolIndex::new();
    index.insert("x".to_string(), SymbolKind::Enum);
    index.insert("y".to_string(), SymbolKind::Function);
    index.insert("x".to_string(), SymbolKind::Alias);
    assert_eq!(index.get("x"), Some(SymbolKind::Alias));
    assert_eq!(
        index.entries(),
        vec![
            IndexEntry { name: "x".to_string(), kind: SymbolKind::Alias },
            IndexEntry { name: "y".to_string(), kind: SymbolKind::Function },
        ]
    );
}
