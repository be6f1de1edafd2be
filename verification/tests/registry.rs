use extendr_api::{register_call_methods, CallMethod, CallMethodDef, ErrorKind};

fn method(symbol: &str, func_ptr: usize, num_args: i32) -> CallMethod {
    CallMethod { call_symbol: symbol.as_bytes().to_vec(), func_ptr, num_args }
}

fn sentinel() -> CallMethodDef {
    CallMethodDef { name: None, fun: None, num_args: 0 }
}

#[test]
fn table_ends_with_sentinel() {
    let methods = vec![method("wrap__fred", 0x1000, 1), method("wrap__barney", 0x2000, -1)];
    let table = register_call_methods(&methods).unwrap();
    assert_eq!(table.len(), 3);
    assert_eq!(
        table[0],
        CallMethodDef { name: Some(b"wrap__fred\0".to_vec()), fun: Some(0x1000), num_args: 1 }
    );
    assert_eq!(
        table[1],
        CallMethodDef { name: Some(b"wrap__barney\0".to_vec()), fun: Some(0x2000), num_args: -1 }
    );
    assert_eq!(table[2], sentinel());
}

#[test]
fn empty_table_is_the_sentinel_alone() {
    let table = register_call_methods(&[]).unwrap();
    assert_eq!(table, vec![sentinel()]);
}

#[test]
fn table_has_one_entry_more_than_methods() {
    for n in 0..20usize {
        let methods: Vec<CallMethod> =
            (0..n).map(|i| method(&format!("wrap__f{}", i), 0x4000 + i, i as i32)).collect();
        let table = register_call_methods(&methods).unwrap();
        assert_eq!(table.len(), n + 1);
        assert_eq!(table[n], sentinel());
        for i in 0..n {
            assert_eq!(table[i].num_args, i as i32);
            assert_eq!(table[i].fun, Some(0x4000 + i));
            let name = table[i].name.as_ref().unwrap();
            assert_eq!(name.last(), Some(&0u8));
            assert_eq!(&name[..name.len() - 1], format!("wrap__f{}", i).as_bytes());
        }
    }
}

#[test]
fn same_name_twice_keeps_both_entries_in_order() {
    let methods = vec![method("wrap__fred", 0x1000, 1), method("wrap__fred", 0x2000, 2)];
    let table = register_call_methods(&methods).unwrap();
    assert_eq!(table.len(), 3);
    assert_eq!(table[0].name, table[1].name);
    assert_eq!(table[0].fun, Some(0x1000));
    assert_eq!(table[1].fun, Some(0x2000));
    assert_eq!(table[0].num_args, 1);
    assert_eq!(table[1].num_args, 2);
    assert_eq!(table[2], sentinel());
}

#[test]
fn building_the_table_twice_gives_the_same_table() {
    let methods = vec![method("wrap__a", 0x10, 0), method("wrap__b", 0x20, 3)];
    assert_eq!(register_call_methods(&methods), register_call_methods(&methods));
}

#[test]
fn symbol_with_zero_byte_is_refused() {
    let methods = vec![
        method("wrap__ok", 0x1000, 1),
        CallMethod { call_symbol: b"wrap\0fred".to_vec(), func_ptr: 0x2000, num_args: 1 },
    ];
    let error = register_call_methods(&methods).unwrap_err();
    assert_eq!(error.kind, ErrorKind::Internal);
    assert_eq!(error.message, ErrorKind::Internal.text());
}

#[test]
fn null_entry_point_is_refused() {
    let error = register_call_methods(&[method("wrap__fred", 0, 1)]).unwrap_err();
    assert_eq!(error.kind, ErrorKind::Internal);
}

#[test]
fn empty_symbol_is_terminated() {
    let table = register_call_methods(&[method("", 0x1000, 0)]).unwrap();
    assert_eq!(table[0].name, Some(vec![0u8]));
}
