use scm_core::{get_interned_string, set_interned_string, Allocation, StringInterner, Symbol, SymbolTable};

#[test]
fn intern_same_static_str() {
    let mut table = SymbolTable::new();
    let a = "foo".interned(&mut table);
    let b = "foo".interned(&mut table);
    assert_eq!(a, b);
}

#[test]
fn intern_different_static_str() {
    let mut table = SymbolTable::new();
    let a = "boo".interned(&mut table);
    let b = "bar".interned(&mut table);
    assert_ne!(a, b);
}

#[test]
fn intern_same_str_different_addr() {
    let mut table = SymbolTable::new();
    let a = "baz".to_owned().interned(&mut table);
    let b = "baz".to_owned().interned(&mut table);
    assert_eq!(a, b);
}

#[test]
fn interned_symbols() {
    let mut table = SymbolTable::new();
    let a = Symbol::new(&mut table, "a");
    let b1 = Symbol::new(&mut table, "b".to_owned());
    let b2 = Symbol::new(&mut table, &"b".to_owned());
    assert_ne!(a, b1);
    assert_ne!(a, b2);
    assert_eq!(b1, b2);
}

#[test]
fn uninterned_symbols() {
    let mut table = SymbolTable::new();
    let a = Symbol::new(&mut table, "c");
    let b1 = Symbol::new_uninterned(&mut table, "c".to_owned());
    let b2 = Symbol::new_uninterned(&mut table, "c".to_owned());
    assert_ne!(a, b1);
    assert_ne!(a, b2);
    assert_ne!(b1, b2);
}

#[test]
fn intern_borrowed_owned_and_referenced_agree() {
    let mut table = SymbolTable::new();
    let owned = "quux".to_owned();
    let a = "quux".interned(&mut table);
    let b = (&owned).interned(&mut table);
    let c = owned.interned(&mut table);
    assert_eq!(a, b);
    assert_eq!(b, c);
}

#[test]
fn interned_after_uninterned_is_another_allocation() {
    let mut table = SymbolTable::new();
    let u = Symbol::new_uninterned(&mut table, "d");
    let i = Symbol::new(&mut table, "d");
    assert_ne!(u, i);
    assert_eq!(u.name(&table), Some("d"));
    assert_eq!(i.name(&table), Some("d"));
}

#[test]
fn symbol_names_are_kept() {
    let mut table = SymbolTable::new();
    let a = Symbol::new(&mut table, "lambda");
    let b = Symbol::new(&mut table, "define".to_owned());
    assert_eq!(a.name(&table), Some("lambda"));
    assert_eq!(b.name(&table), Some("define"));
    assert_eq!(Symbol::new(&mut SymbolTable::new(), "x").name(&SymbolTable::new()), None);
}

#[test]
fn get_misses_then_hits() {
    let mut table = SymbolTable::new();
    assert_eq!(get_interned_string(&table, "car"), None);
    let id = "car".interned(&mut table);
    assert_eq!(get_interned_string(&table, "car"), Some(id));
    assert_eq!(get_interned_string(&table, "cdr"), None);
    assert_eq!(table.text(id), "car");
}

#[test]
fn statify_does_not_intern() {
    let mut table = SymbolTable::new();
    let id = "cons".statify(&mut table);
    assert_eq!(table.text(id), "cons");
    assert_eq!(get_interned_string(&table, "cons"), None);
}

#[test]
fn racing_interners_share_one_canonical_allocation() {
    let mut table = SymbolTable::new();
    // Both callers miss before either records its allocation.
    assert_eq!(get_interned_string(&table, "race"), None);
    assert_eq!(get_interned_string(&table, "race"), None);
    let first = "race".to_owned().statify(&mut table);
    let second = "race".to_owned().statify(&mut table);
    // Each made its own allocation: handing these back would split the symbol.
    assert_ne!(first, second);
    let r1 = set_interned_string(&mut table, first);
    let r2 = set_interned_string(&mut table, second);
    assert_eq!(r1, first);
    assert_eq!(r2, first);
    assert_eq!(get_interned_string(&table, "race"), Some(first));
    assert_eq!("race".interned(&mut table), first);
}

#[test]
fn many_callers_share_one_canonical_allocation() {
    let mut table = SymbolTable::new();
    let mut candidates = Vec::new();
    for _ in 0..8 {
        assert_eq!(get_interned_string(&table, "stress"), None);
        candidates.push("stress".statify(&mut table));
    }
    let results: Vec<usize> = candidates.iter().map(|c| set_interned_string(&mut table, *c)).collect();
    for r in &results {
        assert_eq!(*r, candidates[0]);
    }
}

#[test]
fn lookup_finds_only_interned_names() {
    let mut table = SymbolTable::new();
    assert_eq!(Symbol::lookup(&table, "if"), None);
    let sym = Symbol::new(&mut table, "if");
    Symbol::new_uninterned(&mut table, "else");
    assert_eq!(Symbol::lookup(&table, "if"), Some(sym));
    assert_eq!(Symbol::lookup(&table, "else"), None);
}

#[test]
fn uninterned_symbols_from_one_allocation_are_equal() {
    let mut table = SymbolTable::new();
    let id = "e".to_owned().statify(&mut table);
    let b1 = Symbol::new_uninterned(&mut table, Allocation { id });
    let b2 = Symbol::new_uninterned(&mut table, Allocation { id });
    assert_eq!(b1, b2);
    let other = Symbol::new_uninterned(&mut table, "e");
    assert_ne!(b1, other);
    assert_ne!(b1, Symbol::new(&mut table, "e"));
}

#[test]
fn statify_of_an_allocation_returns_it() {
    let mut table = SymbolTable::new();
    let id = "f".statify(&mut table);
    assert_eq!(Allocation { id }.statify(&mut table), id);
    assert_eq!(get_interned_string(&table, "f"), None);
}

#[test]
fn interning_an_allocation_records_it_once() {
    let mut table = SymbolTable::new();
    let id = "g".statify(&mut table);
    assert_eq!(Allocation { id }.interned(&mut table), id);
    assert_eq!("g".interned(&mut table), id);
    let later = "g".to_owned().statify(&mut table);
    assert_eq!(Allocation { id: later }.interned(&mut table), id);
}
