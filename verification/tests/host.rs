use extendr_api::{
    ErrorKind, Handle, Host, IntKind, Integer, Kind, Logical, Native, NativeKind, Ownership, Value,
    NA_INTEGER,
};

fn i32_value(n: i32) -> Native {
    Native::Int(Integer::I32(n))
}

#[test]
fn a_new_host_is_empty() {
    let host = Host::new();
    assert_eq!(host.size(), 0);
    assert_eq!(host.depth(), 0);
    assert!(host.borrow(0).is_none());
}

#[test]
fn to_handle_makes_a_protected_object() {
    let mut host = Host::new();
    let h = host.to_handle(&i32_value(1)).unwrap();
    assert_eq!(h.mode(), Ownership::Owned);
    assert!(h.is_owned());
    assert_eq!(h.raw(), 0);
    assert!(host.knows(&h));
    assert_eq!(host.size(), 1);
    assert_eq!(host.depth(), 1);
    assert_eq!(host.value(&h), Some(&Value::Integers(vec![1])));
    assert_eq!(host.type_tag(&h), Kind::Integer);
    assert_eq!(host.length(&h), 1);
    assert!(!host.is_na_at(&h, 0));
    assert!(!host.is_na_at(&h, 1));
    assert_eq!(host.release(h), Ok(()));
    assert_eq!(host.depth(), 0);
    assert_eq!(host.size(), 1);
}

#[test]
fn from_handle_reads_back_through_the_handle() {
    let mut host = Host::new();
    let natives = vec![
        Native::Unit,
        Native::Int(Integer::I8(-3)),
        Native::Int(Integer::U64(77)),
        Native::Bool(true),
        Native::Real(123.0f64.to_bits()),
        Native::Text("abc".to_string()),
        Native::OptInt(None),
        Native::Ints(vec![1, 2, 3]),
        Native::Texts(vec!["abc".to_string(), "def".to_string()]),
        Native::Opaque(99),
    ];
    for native in natives {
        let h = host.to_handle(&native).unwrap();
        assert_eq!(host.from_handle(native.kind(), &h), Ok(native));
        assert!(host.knows(&h));
        host.release(h).unwrap();
    }
    assert_eq!(host.depth(), 0);
}

#[test]
fn a_value_without_encoding_changes_nothing() {
    let mut host = Host::new();
    let kept = host.to_handle(&i32_value(1)).unwrap();
    let error = host.to_handle(&Native::Int(Integer::I64(1 << 40))).unwrap_err();
    assert_eq!(error.kind, ErrorKind::OutOfRange);
    assert_eq!(error.message, ErrorKind::OutOfRange.text());
    assert_eq!(host.size(), 1);
    assert_eq!(host.depth(), 1);
    host.release(kept).unwrap();
}

#[test]
fn borrowed_handles_leave_the_stack_alone() {
    let mut host = Host::new();
    let raw = host.allocate(Value::Integers(vec![5])).unwrap();
    assert_eq!(host.depth(), 0);
    let h = host.borrow(raw).unwrap();
    assert_eq!(h.mode(), Ownership::Borrowed);
    assert!(!h.is_owned());
    assert_eq!(h.raw(), raw);
    assert_eq!(host.depth(), 0);
    assert_eq!(host.from_handle(NativeKind::Int(IntKind::U8), &h), Ok(Native::Int(Integer::U8(5))));
    assert_eq!(host.release(h), Ok(()));
    assert_eq!(host.depth(), 0);
    assert!(host.borrow(raw + 1).is_none());
}

#[test]
fn an_alias_is_borrowed() {
    let mut host = Host::new();
    let owner = host.to_handle(&i32_value(5)).unwrap();
    let alias = owner.alias();
    assert_eq!(alias.raw(), owner.raw());
    assert_eq!(alias.mode(), Ownership::Borrowed);
    assert_eq!(host.release(alias), Ok(()));
    assert_eq!(host.depth(), 1);
    assert_eq!(host.release(owner), Ok(()));
    assert_eq!(host.depth(), 0);
}

#[test]
fn nested_handles_dropped_in_reverse_restore_the_depth() {
    for before in 0..4usize {
        for n in 0..12usize {
            let mut host = Host::new();
            let mut outer: Vec<Handle> = Vec::new();
            for i in 0..before {
                outer.push(host.to_handle(&i32_value(i as i32)).unwrap());
            }
            let depth = host.depth();
            assert_eq!(depth, before);
            let mut made: Vec<Handle> = Vec::new();
            for i in 0..n {
                made.push(host.to_handle(&i32_value(100 + i as i32)).unwrap());
                assert_eq!(host.depth(), depth + i + 1);
            }
            while let Some(h) = made.pop() {
                assert_eq!(host.release(h), Ok(()));
            }
            assert_eq!(host.depth(), depth);
            assert_eq!(host.release_all(outer), Ok(()));
            assert_eq!(host.depth(), 0);
        }
    }
}

#[test]
fn release_out_of_order_is_an_internal_error() {
    let mut host = Host::new();
    let first = host.to_handle(&i32_value(1)).unwrap();
    let second = host.to_handle(&i32_value(2)).unwrap();
    let error = host.release(first).unwrap_err();
    assert_eq!(error.kind, ErrorKind::Internal);
    assert_eq!(error.message, ErrorKind::Internal.text());
    assert_eq!(host.depth(), 2);
    assert_eq!(host.release(second), Ok(()));
    assert_eq!(host.depth(), 1);
}

#[test]
fn release_on_an_empty_stack_is_an_internal_error() {
    let mut host = Host::new();
    let h = host.to_handle(&i32_value(1)).unwrap();
    host.unwind(0);
    assert_eq!(host.release(h).unwrap_err().kind, ErrorKind::Internal);
    assert_eq!(host.depth(), 0);
}

#[test]
fn release_all_ends_the_last_handle_first() {
    let mut host = Host::new();
    let a = host.to_handle(&i32_value(1)).unwrap();
    let b = host.to_handle(&i32_value(2)).unwrap();
    let alias = a.alias();
    let c = host.to_handle(&i32_value(3)).unwrap();
    assert_eq!(host.depth(), 3);
    assert_eq!(host.release_all(vec![a, b, alias, c]), Ok(()));
    assert_eq!(host.depth(), 0);
}

#[test]
fn release_all_is_all_or_nothing() {
    let mut host = Host::new();
    let a = host.to_handle(&i32_value(1)).unwrap();
    let b = host.to_handle(&i32_value(2)).unwrap();
    let c = host.to_handle(&i32_value(3)).unwrap();
    let error = host.release_all(vec![b, a, c]).unwrap_err();
    assert_eq!(error.kind, ErrorKind::Internal);
    assert_eq!(host.depth(), 3);
}

#[test]
fn to_handles_makes_all() {
    let mut host = Host::new();
    let outer = host.to_handle(&i32_value(0)).unwrap();
    let natives = vec![i32_value(1), Native::Text("abc".into()), Native::Bool(false)];
    let handles = host.to_handles(&natives).unwrap();
    assert_eq!(handles.len(), 3);
    assert_eq!(host.depth(), 4);
    assert_eq!(host.size(), 4);
    for (i, h) in handles.iter().enumerate() {
        assert_eq!(h.raw(), 1 + i);
        assert!(h.is_owned());
        assert_eq!(host.from_handle(natives[i].kind(), h).as_ref(), Ok(&natives[i]));
    }
    assert_eq!(host.release_all(handles), Ok(()));
    assert_eq!(host.depth(), 1);
    host.release(outer).unwrap();
}

#[test]
fn a_failure_in_the_middle_leaks_no_protection() {
    for depth in 0..3usize {
        for failing in 0..5usize {
            let mut host = Host::new();
            let mut outer = Vec::new();
            for i in 0..depth {
                outer.push(host.to_handle(&i32_value(i as i32)).unwrap());
            }
            let mut natives: Vec<Native> = (0..5).map(|i| i32_value(10 + i)).collect();
            natives[failing] = Native::Int(Integer::U64(u64::MAX));
            let size = host.size();
            let error = host.to_handles(&natives).unwrap_err();
            assert_eq!(error.kind, ErrorKind::OutOfRange);
            assert_eq!(host.depth(), depth);
            assert_eq!(host.size(), size + failing);
            assert_eq!(host.release_all(outer), Ok(()));
            assert_eq!(host.depth(), 0);
        }
    }
}

#[test]
fn the_first_failure_is_reported() {
    let mut host = Host::new();
    let natives = vec![i32_value(1), Native::OptInt(Some(NA_INTEGER)), Native::Int(Integer::I64(i64::MAX))];
    assert_eq!(host.to_handles(&natives).unwrap_err().kind, ErrorKind::OutOfRange);
    assert_eq!(host.size(), 1);
    assert_eq!(host.depth(), 0);
}

#[test]
fn lists_keep_order_and_repeated_names() {
    let mut host = Host::new();
    let a = host.to_handle(&i32_value(1)).unwrap();
    let b = host.to_handle(&Native::Text("abc".into())).unwrap();
    let c = host.to_handle(&i32_value(3)).unwrap();
    let entries = vec![
        ("x".to_string(), a.alias()),
        ("y".to_string(), b.alias()),
        ("x".to_string(), c.alias()),
        ("".to_string(), a.alias()),
    ];
    let list = host.list(&entries).unwrap();
    assert!(list.is_owned());
    assert_eq!(host.depth(), 4);
    assert_eq!(host.type_tag(&list), Kind::List);
    assert_eq!(host.length(&list), 4);
    assert_eq!(host.value(&list), Some(&Value::List(vec![
            ("x".to_string(), a.raw()),
            ("y".to_string(), b.raw()),
            ("x".to_string(), c.raw()),
            ("".to_string(), a.raw()),
        ])));
    let read = host.entries(&list).unwrap();
    assert_eq!(read.len(), 4);
    let names: Vec<&str> = read.iter().map(|e| e.0.as_str()).collect();
    assert_eq!(names, vec!["x", "y", "x", ""]);
    let raws: Vec<usize> = read.iter().map(|e| e.1.raw()).collect();
    assert_eq!(raws, vec![a.raw(), b.raw(), c.raw(), a.raw()]);
    for entry in &read {
        assert_eq!(entry.1.mode(), Ownership::Borrowed);
        assert!(host.knows(&entry.1));
    }
    assert_eq!(host.from_handle(NativeKind::Int(IntKind::I32), &read[2].1), Ok(i32_value(3)));
    assert_eq!(host.from_handle(NativeKind::Text, &read[1].1), Ok(Native::Text("abc".into())));
    assert_eq!(host.release_all(vec![a, b, c, list]), Ok(()));
    assert_eq!(host.depth(), 0);
}

#[test]
fn entries_of_other_objects_are_a_type_mismatch() {
    let mut host = Host::new();
    let h = host.to_handle(&i32_value(1)).unwrap();
    let error = host.entries(&h).unwrap_err();
    assert_eq!(error.kind, ErrorKind::TypeMismatch);
    assert_eq!(host.from_handle(NativeKind::Ints, &h), Ok(Native::Ints(vec![1])));
    host.release(h).unwrap();
}

#[test]
fn an_empty_list_has_no_entries() {
    let mut host = Host::new();
    let list = host.list(&Vec::new()).unwrap();
    assert_eq!(host.length(&list), 0);
    assert_eq!(host.entries(&list).unwrap().len(), 0);
    assert_eq!(host.value(&list), Some(&Value::List(vec![])));
}

#[test]
fn allocate_refuses_lists_of_objects_that_are_not_there() {
    let mut host = Host::new();
    let raw = host.allocate(Value::Integers(vec![1])).unwrap();
    assert_eq!(raw, 0);
    let error = host.allocate(Value::List(vec![("a".to_string(), 1)])).unwrap_err();
    assert_eq!(error.kind, ErrorKind::Internal);
    assert_eq!(host.size(), 1);
    assert_eq!(host.allocate(Value::List(vec![("a".to_string(), 0)])), Ok(1));
    assert_eq!(host.allocate(Value::List(vec![("a".to_string(), 1), ("b".to_string(), 0)])), Ok(2));
    assert_eq!(host.depth(), 0);
}

#[test]
fn same_is_identity_or_equal_content() {
    let mut host = Host::new();
    let a = host.to_handle(&i32_value(123)).unwrap();
    let b = host.to_handle(&Native::Int(Integer::U8(123))).unwrap();
    let c = host.to_handle(&i32_value(124)).unwrap();
    let r = host.to_handle(&Native::Real(123.0f64.to_bits())).unwrap();
    assert!(host.same(&a, &a));
    assert!(host.same(&a, &a.alias()));
    assert!(host.same(&a, &b));
    assert!(host.same(&b, &a));
    assert!(!host.same(&a, &c));
    assert!(!host.same(&a, &r));
    let r2 = host.to_handle(&Native::Real(123.0f64.to_bits())).unwrap();
    assert!(host.same(&r, &r2));
}

#[test]
fn lists_are_the_same_when_their_elements_are() {
    let mut host = Host::new();
    let one = host.to_handle(&i32_value(1)).unwrap();
    let uno = host.to_handle(&i32_value(1)).unwrap();
    let two = host.to_handle(&i32_value(2)).unwrap();
    let l1 = host.list(&vec![("a".to_string(), one.alias()), ("b".to_string(), two.alias())]).unwrap();
    let l2 = host.list(&vec![("a".to_string(), uno.alias()), ("b".to_string(), two.alias())]).unwrap();
    let l3 = host.list(&vec![("a".to_string(), two.alias()), ("b".to_string(), one.alias())]).unwrap();
    let l4 = host.list(&vec![("a".to_string(), one.alias()), ("c".to_string(), two.alias())]).unwrap();
    let l5 = host.list(&vec![("a".to_string(), one.alias())]).unwrap();
    assert!(host.same(&l1, &l1));
    assert!(host.same(&l1, &l2));
    assert!(host.same(&l2, &l1));
    assert!(!host.same(&l1, &l3));
    assert!(!host.same(&l1, &l4));
    assert!(!host.same(&l1, &l5));
    assert!(!host.same(&l1, &one));
    let n1 = host.list(&vec![("inner".to_string(), l1.alias())]).unwrap();
    let n2 = host.list(&vec![("inner".to_string(), l2.alias())]).unwrap();
    let n3 = host.list(&vec![("inner".to_string(), l3.alias())]).unwrap();
    assert!(host.same(&n1, &n2));
    assert!(!host.same(&n1, &n3));
    let e1 = host.list(&Vec::new()).unwrap();
    let e2 = host.list(&Vec::new()).unwrap();
    assert!(host.same(&e1, &e2));
    assert!(!host.same(&e1, &l5));
}

#[test]
fn elements_can_be_walked_again_and_again() {
    let mut host = Host::new();
    let h = host.to_handle(&Native::Ints(vec![1, 2, 3])).unwrap();
    for _ in 0..2 {
        let mut seen = Vec::new();
        let mut i = 0;
        while let Some(item) = host.element(NativeKind::Int(IntKind::I8), &h, i) {
            seen.push(item.unwrap());
            i += 1;
        }
        assert_eq!(i, 3);
        assert_eq!(
            seen,
            vec![
                Native::Int(Integer::I8(1)),
                Native::Int(Integer::I8(2)),
                Native::Int(Integer::I8(3))
            ]
        );
    }
    assert!(host.knows(&h));
    assert_eq!(host.depth(), 1);
    assert_eq!(host.from_handle(NativeKind::Ints, &h), Ok(Native::Ints(vec![1, 2, 3])));
}

#[test]
fn elements_fail_one_by_one() {
    let mut host = Host::new();
    let raw = host.allocate(Value::Integers(vec![1, NA_INTEGER, 300])).unwrap();
    let h = host.borrow(raw).unwrap();
    let kind = NativeKind::Int(IntKind::U8);
    assert_eq!(host.element(kind, &h, 0), Some(Ok(Native::Int(Integer::U8(1)))));
    assert_eq!(host.element(kind, &h, 1).unwrap().unwrap_err().kind, ErrorKind::OutOfRange);
    assert_eq!(host.element(kind, &h, 2).unwrap().unwrap_err().kind, ErrorKind::OutOfRange);
    assert_eq!(host.element(kind, &h, 3), None);
    assert_eq!(host.element(NativeKind::OptInt, &h, 1), Some(Ok(Native::OptInt(None))));
    assert_eq!(host.element(NativeKind::Text, &h, 0).unwrap().unwrap_err().kind, ErrorKind::TypeMismatch);
    assert_eq!(host.element(NativeKind::Ints, &h, 2), Some(Ok(Native::Ints(vec![300]))));
    let null = host.allocate(Value::Null).unwrap();
    let null = host.borrow(null).unwrap();
    assert_eq!(host.element(kind, &null, 0), None);
}

#[test]
fn the_owner_can_write_in_place() {
    let mut host = Host::new();
    let h = host.to_handle(&Native::Ints(vec![1, 2, 3])).unwrap();
    assert_eq!(host.overwrite(&h, 1, &Native::Int(Integer::U8(20))), Ok(()));
    assert_eq!(host.value(&h), Some(&Value::Integers(vec![1, 20, 3])));
    assert_eq!(host.overwrite(&h, 2, &Native::OptInt(None)), Ok(()));
    assert_eq!(host.value(&h), Some(&Value::Integers(vec![1, 20, NA_INTEGER])));
    assert!(host.is_na_at(&h, 2));
    assert_eq!(host.length(&h), 3);
    assert_eq!(host.depth(), 1);
    let l = host.to_handle(&Native::Bools(vec![true])).unwrap();
    assert_eq!(host.overwrite(&l, 0, &Native::OptBool(None)), Ok(()));
    assert_eq!(host.value(&l), Some(&Value::Logicals(vec![Logical::Na])));
}

#[test]
fn writes_that_are_refused_change_nothing() {
    let mut host = Host::new();
    let h = host.to_handle(&Native::Ints(vec![1, 2, 3])).unwrap();
    let shared = h.alias();
    assert_eq!(host.overwrite(&shared, 0, &i32_value(9)).unwrap_err().kind, ErrorKind::Internal);
    assert_eq!(host.overwrite(&h, 3, &i32_value(9)).unwrap_err().kind, ErrorKind::LengthMismatch);
    assert_eq!(host.overwrite(&h, 0, &Native::Ints(vec![1, 2])).unwrap_err().kind, ErrorKind::LengthMismatch);
    assert_eq!(host.overwrite(&h, 0, &Native::Bool(true)).unwrap_err().kind, ErrorKind::TypeMismatch);
    assert_eq!(host.overwrite(&h, 0, &Native::Real(0)).unwrap_err().kind, ErrorKind::TypeMismatch);
    assert_eq!(
        host.overwrite(&h, 0, &Native::Int(Integer::I64(i64::MAX))).unwrap_err().kind,
        ErrorKind::OutOfRange
    );
    assert_eq!(host.value(&h), Some(&Value::Integers(vec![1, 2, 3])));
    assert_eq!(host.depth(), 1);
    assert_eq!(host.size(), 1);
}

#[test]
fn results_of_evaluation_are_owned() {
    let mut host = Host::new();
    let h = host.evaluated(Ok(Value::Reals(vec![2.0f64.to_bits()]))).unwrap();
    assert!(h.is_owned());
    assert_eq!(host.depth(), 1);
    assert_eq!(host.from_handle(NativeKind::Int(IntKind::I32), &h), Ok(i32_value(2)));
    host.release(h).unwrap();
    assert_eq!(host.depth(), 0);
}

#[test]
fn conditions_of_the_evaluator_become_errors() {
    let mut host = Host::new();
    let error = host.evaluated(Err("object 'x' not found".to_string())).unwrap_err();
    assert_eq!(error.kind, ErrorKind::HostSignaled);
    assert_eq!(error.message, "object 'x' not found");
    assert_eq!(host.size(), 0);
    assert_eq!(host.depth(), 0);
    let error = host.evaluated(Ok(Value::List(vec![("a".to_string(), 0)]))).unwrap_err();
    assert_eq!(error.kind, ErrorKind::Internal);
    assert_eq!(host.size(), 0);
    assert_eq!(host.depth(), 0);
}

#[test]
fn unwind_cuts_the_stack_back() {
    let mut host = Host::new();
    let _a = host.to_handle(&i32_value(1)).unwrap();
    let _b = host.to_handle(&i32_value(2)).unwrap();
    let _c = host.to_handle(&i32_value(3)).unwrap();
    host.unwind(5);
    assert_eq!(host.depth(), 3);
    host.unwind(3);
    assert_eq!(host.depth(), 3);
    host.unwind(1);
    assert_eq!(host.depth(), 1);
    assert_eq!(host.size(), 3);
    host.unwind(0);
    assert_eq!(host.depth(), 0);
}

#[test]
fn a_handle_of_another_host_reads_as_the_null_object() {
    let mut other = Host::new();
    for n in 0..5 {
        other.to_handle(&i32_value(n)).unwrap();
    }
    let stranger = other.to_handle(&Native::Ints(vec![1, 2, 3])).unwrap();
    assert_eq!(stranger.raw(), 5);
    let mut host = Host::new();
    let own = host.to_handle(&i32_value(1)).unwrap();
    assert!(!host.knows(&stranger));
    assert_eq!(host.value(&stranger), None);
    assert_eq!(host.type_tag(&stranger), Kind::Null);
    assert_eq!(host.length(&stranger), 0);
    assert!(!host.is_na_at(&stranger, 0));
    assert_eq!(host.from_handle(NativeKind::Unit, &stranger), Ok(Native::Unit));
    assert_eq!(host.from_handle(NativeKind::Ints, &stranger).unwrap_err().kind, ErrorKind::TypeMismatch);
    assert_eq!(host.element(NativeKind::OptInt, &stranger, 0), None);
    assert_eq!(host.entries(&stranger).unwrap_err().kind, ErrorKind::TypeMismatch);
    assert_eq!(host.overwrite(&stranger, 0, &i32_value(1)).unwrap_err().kind, ErrorKind::TypeMismatch);
    assert!(!host.same(&stranger, &own));
    assert!(host.same(&stranger, &stranger));
    let null = host.to_handle(&Native::Unit).unwrap();
    assert!(host.same(&stranger, &null));
    let error = host.list(&vec![("a".to_string(), own.alias()), ("b".to_string(), stranger.alias())]).unwrap_err();
    assert_eq!(error.kind, ErrorKind::Internal);
    assert_eq!(host.size(), 2);
    assert_eq!(host.depth(), 2);
    assert_eq!(host.release(stranger).unwrap_err().kind, ErrorKind::Internal);
    assert_eq!(host.depth(), 2);
}
