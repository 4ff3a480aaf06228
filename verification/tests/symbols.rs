use soft65c02::SymbolTable;

#[test]
fn test_parse_vice_label() {
    let table = SymbolTable::new();

    let line = "al 0803 .start";
    assert_eq!(table.parse_vice_label_line(line), Some((0x0803, "start".to_string())));

    let line = "al 002000 .main";
    assert_eq!(table.parse_vice_label_line(line), Some((0x2000, "main".to_string())));

    assert_eq!(table.parse_vice_label_line("invalid"), None);
    assert_eq!(table.parse_vice_label_line("al invalid .name"), None);
    assert_eq!(table.parse_vice_label_line("al 0803 name"), None);
    assert_eq!(table.parse_vice_label_line("al 123 .short"), None); // Too few digits
}

#[test]
fn test_symbol_reassignment() {
    let mut table = SymbolTable::new();

    table.add_symbol(0x1234, "test".to_string());
    assert_eq!(table.get_address("test"), Some(0x1234));
    assert!(table.get_symbols_at(0x1234).unwrap().contains(&"test".to_string()));

    table.add_symbol(0x5678, "test".to_string());

    assert_eq!(table.get_address("test"), Some(0x5678));
    assert!(table.get_symbols_at(0x5678).unwrap().contains(&"test".to_string()));

    assert!(
        table.get_symbols_at(0x1234).is_none() || !table.get_symbols_at(0x1234).unwrap().contains(&"test".to_string())
    );
}

#[test]
fn test_load_vice_labels() {
    let text = "al 0803 .start\nal 0804 .loop\nal 0803 .entry\ninvalid line\nal 0805 name\n";
    let mut table = SymbolTable::new();
    table.load_vice_labels(text);

    assert_eq!(table.get_address("start"), Some(0x0803));
    assert_eq!(table.get_address("loop"), Some(0x0804));
    assert_eq!(table.get_address("entry"), Some(0x0803));

    let symbols_at_803 = table.get_symbols_at(0x0803).unwrap();
    assert!(symbols_at_803.contains(&"start".to_string()));
    assert!(symbols_at_803.contains(&"entry".to_string()));
}

#[test]
fn added_symbol_is_found_and_counted_once() {
    let mut table = SymbolTable::new();
    table.add_symbol(0x10, "a".to_string());
    table.add_symbol(0x20, "b".to_string());
    assert_eq!(2, table.len());
    table.add_symbol(0x30, "a".to_string());
    assert_eq!(2, table.len());
    assert_eq!(Some(0x30), table.get_address("a"));
    assert_eq!(Some(0x20), table.get_address("b"));
    assert!(table.get_symbols_at(0x10).is_none());
    table.remove_symbol("a");
    assert_eq!(None, table.get_address("a"));
    assert_eq!(1, table.len());
}

#[test]
fn names_for_an_address_are_sorted() {
    let mut table = SymbolTable::new();
    table.add_symbol(0x10, "zeta".to_string());
    table.add_symbol(0x10, "alpha".to_string());
    table.add_symbol(0x10, "mid".to_string());
    assert_eq!(vec!["alpha", "mid", "zeta"], table.get_symbols_for_address(0x10));
    assert_eq!(vec!["zeta", "alpha", "mid"], table.get_symbols_at(0x10).unwrap());
}

#[test]
fn lookups_stay_consistent_after_additions() {
    let mut t = SymbolTable::new();
    t.add_symbol(0x1000, "start".to_string());
    t.add_symbol(0x1000, "entry".to_string());
    t.add_symbol(0x2000, "start".to_string());
    assert_eq!(Some(0x2000), t.get_address("start"));
    assert_eq!(Some(0x1000), t.get_address("entry"));
    assert_eq!(Some(vec!["entry".to_string()]), t.get_symbols_at(0x1000));
    assert_eq!(Some(vec!["start".to_string()]), t.get_symbols_at(0x2000));
    assert_eq!(None, t.get_symbols_at(0x3000));
}
