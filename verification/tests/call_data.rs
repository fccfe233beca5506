use xcq::call_data::{encode_call_data, read_call_args, CallArg, CallGroup, CallSlot};

#[test]
fn layout_of_single_and_multi_arguments() {
    let groups = vec![
        CallGroup { extension_id: 1, calls: vec![vec![0xaa, 0xbb]], multi: false },
        CallGroup { extension_id: 2, calls: vec![vec![1, 2, 3], vec![4, 5, 6]], multi: true },
    ];
    let data = encode_call_data(&groups);
    let mut expected = vec![1, 0, 0, 0, 0, 0, 0, 0, 2, 0xaa, 0xbb];
    expected.extend_from_slice(&[2, 0, 0, 0, 0, 0, 0, 0, 2, 3, 1, 2, 3, 4, 5, 6]);
    assert_eq!(data, expected);
}

#[test]
fn reading_gives_back_what_was_laid_out() {
    let groups = vec![
        CallGroup { extension_id: 1, calls: vec![vec![0xaa, 0xbb]], multi: false },
        CallGroup { extension_id: 2, calls: vec![vec![1, 2, 3], vec![4, 5, 6]], multi: true },
    ];
    let data = encode_call_data(&groups);
    let base = 0x1000;
    let args = read_call_args(&[false, true], &data, base).unwrap();
    assert_eq!(args.len(), 2);
    match &args[0] {
        CallArg::Single(s) => assert_eq!(*s, CallSlot { extension_id: 1, call_ptr: base + 9, call_size: 2 }),
        CallArg::Multi(_) => panic!("expected a single call"),
    }
    match &args[1] {
        CallArg::Multi(v) => {
            assert_eq!(v.len(), 2);
            assert_eq!(v[0], CallSlot { extension_id: 2, call_ptr: base + 21, call_size: 3 });
            assert_eq!(v[1], CallSlot { extension_id: 2, call_ptr: base + 24, call_size: 3 });
        }
        CallArg::Single(_) => panic!("expected a list of calls"),
    }
}

#[test]
fn short_buffer_is_refused() {
    assert!(read_call_args(&[false], &[1, 0, 0], 0).is_none());
    assert!(read_call_args(&[false], &[1, 0, 0, 0, 0, 0, 0, 0, 4, 1], 0).is_none());
    assert!(read_call_args(&[], &[], 0).unwrap().is_empty());
}

#[test]
fn empty_group_of_calls() {
    let groups = vec![CallGroup { extension_id: 5, calls: vec![], multi: true }];
    let data = encode_call_data(&groups);
    assert_eq!(data, vec![5, 0, 0, 0, 0, 0, 0, 0, 0, 0]);
    let args = read_call_args(&[true], &data, 0).unwrap();
    match &args[0] {
        CallArg::Multi(v) => assert!(v.is_empty()),
        CallArg::Single(_) => panic!("expected a list of calls"),
    }
}
