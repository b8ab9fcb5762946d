use script_parser::string_name::{Interner, StringName};

#[test]
fn interning_twice_gives_the_same_name() {
    let mut table = Interner::new();
    let first = table.intern("alpha");
    let again = table.intern("alpha");
    assert_eq!(first, again);
    assert_eq!(table.len(), 1);
}

#[test]
fn different_texts_get_different_names() {
    let mut table = Interner::new();
    let alpha = table.intern("alpha");
    let beta = table.intern("beta");
    let empty = table.intern("");
    assert_ne!(alpha, beta);
    assert_ne!(alpha, empty);
    assert_ne!(beta, empty);
    assert_eq!((alpha, beta, empty), (StringName(0), StringName(1), StringName(2)));
    assert_eq!(table.intern("beta"), beta);
    assert_eq!(table.len(), 3);
}

#[test]
fn names_resolve_to_their_text() {
    let mut table = Interner::new();
    let alpha = table.intern("alpha");
    let beta = table.intern("beta");
    assert_eq!(table.text_of(alpha), Some("alpha"));
    assert_eq!(table.text_of(beta), Some("beta"));
    assert_eq!(table.text_of(StringName(2)), None);
    assert_eq!(alpha.as_str(&table), "alpha");
    assert_eq!(beta.as_str(&table), "beta");
}

#[test]
fn lookup_only_reads() {
    let mut table = Interner::new();
    assert_eq!(table.lookup("alpha"), None);
    assert_eq!(table.len(), 0);
    let alpha = table.intern("alpha");
    assert_eq!(table.lookup("alpha"), Some(alpha));
    assert_eq!(table.lookup("alph"), None);
    assert_eq!(table.len(), 1);
}
