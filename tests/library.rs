use pine::engine::{count_members, delete_plan, find_cluster, locate, save_plan, Action};
use pine::layout::{cluster_dir_text, index_path_text, join_path, metadata_path_text, ordinal_text};
use pine::{decode_vector, encode_vector, PineError, Vector};

fn bits(v: &[f32]) -> Vec<u32> {
    v.iter().map(|x| x.to_bits()).collect()
}

#[test]
fn vector_size_counts_elements() {
    let v = Vector::new("1".to_string(), bits(&[0.5, 0.3, 0.7]));
    assert_eq!(v.size(), 3);
    assert_eq!(Vector::new("e".to_string(), vec![]).size(), 0);
}

#[test]
fn ordinal_names_are_zero_padded() {
    assert_eq!(ordinal_text(0), "000");
    assert_eq!(ordinal_text(7), "007");
    assert_eq!(ordinal_text(42), "042");
    assert_eq!(ordinal_text(100), "100");
    assert_eq!(ordinal_text(999), "999");
    assert_eq!(ordinal_text(1234), "1234");
}

#[test]
fn layout_paths() {
    assert_eq!(join_path("a", "b"), "a/b");
    assert_eq!(index_path_text("/r", "x1"), "/r/index/x1");
    assert_eq!(cluster_dir_text("/r", 3), "/r/vectors/003");
    assert_eq!(metadata_path_text("/r/vectors/003"), "/r/vectors/003/metadata");
}

#[test]
fn encoding_is_exact() {
    let v = Vector::new("a".to_string(), vec![1, 0x0403_0201]);
    let b = encode_vector(&v).unwrap();
    let expected: Vec<u8> = vec![
        1, 0, 0, 0, 0, 0, 0, 0, b'a', 2, 0, 0, 0, 0, 0, 0, 0, 1, 0, 0, 0, 1, 2, 3, 4,
    ];
    assert_eq!(b, expected);
}

#[test]
fn encoding_round_trips_bit_exact() {
    let data = bits(&[0.5, -0.0, f32::MIN_POSITIVE, 1.0e-40, f32::INFINITY, 0.1]);
    let v = Vector::new("héllo".to_string(), data.clone());
    let b = encode_vector(&v).unwrap();
    let back = decode_vector(&b).unwrap();
    assert_eq!(back.id, "héllo");
    assert_eq!(back.data, data);
    assert_eq!(back, v);
}

#[test]
fn decoding_garbage_fails() {
    assert_eq!(decode_vector(&vec![1, 2, 3]), Err(PineError::Bincode));
    assert_eq!(decode_vector(&vec![]), Err(PineError::Bincode));
}

#[test]
fn locate_resolves_entries() {
    assert_eq!(locate(&"x".to_string(), None), Ok(None));
    let entry = b"/r/vectors/000".to_vec();
    assert_eq!(
        locate(&"x".to_string(), Some(entry)),
        Ok(Some("/r/vectors/000/x".to_string()))
    );
    assert_eq!(
        locate(&"x".to_string(), Some(vec![0xff, 0xfe])),
        Err(PineError::Utf8)
    );
}

#[test]
fn find_cluster_takes_first_match() {
    assert_eq!(find_cluster(&vec![]), None);
    assert_eq!(find_cluster(&vec![false, false]), None);
    assert_eq!(find_cluster(&vec![false, true, true]), Some(1));
    assert_eq!(find_cluster(&vec![true]), Some(0));
}

#[test]
fn save_plan_for_new_cluster() {
    let v = Vector::new("k".to_string(), vec![7]);
    let bytes = encode_vector(&v).unwrap();
    let plan = save_plan(&"/r".to_string(), &v, None, 2, None).unwrap();
    assert_eq!(
        plan,
        vec![
            Action::CreateDir { path: "/r/vectors/002".to_string() },
            Action::WriteFile { path: "/r/vectors/002/metadata".to_string(), bytes: bytes.clone() },
            Action::WriteFile { path: "/r/vectors/002/k".to_string(), bytes },
            Action::WriteFile {
                path: "/r/index/k".to_string(),
                bytes: b"/r/vectors/002".to_vec()
            },
        ]
    );
}

#[test]
fn save_plan_for_existing_cluster_replaces_prior_copy() {
    let v = Vector::new("k".to_string(), vec![7]);
    let bytes = encode_vector(&v).unwrap();
    let plan = save_plan(
        &"/r".to_string(),
        &v,
        Some("/r/vectors/000".to_string()),
        5,
        Some("/r/vectors/004/k".to_string()),
    )
    .unwrap();
    assert_eq!(
        plan,
        vec![
            Action::RemoveFile { path: "/r/vectors/004/k".to_string() },
            Action::RemoveIfPresent { path: "/r/index/k".to_string() },
            Action::WriteFile { path: "/r/vectors/000/k".to_string(), bytes },
            Action::WriteFile {
                path: "/r/index/k".to_string(),
                bytes: b"/r/vectors/000".to_vec()
            },
        ]
    );
}

#[test]
fn delete_plan_removes_copy_and_entry() {
    assert!(delete_plan(&"/r".to_string(), &"k".to_string(), None).is_empty());
    assert_eq!(
        delete_plan(&"/r".to_string(), &"k".to_string(), Some("/r/vectors/001/k".to_string())),
        vec![
            Action::RemoveFile { path: "/r/vectors/001/k".to_string() },
            Action::RemoveIfPresent { path: "/r/index/k".to_string() },
        ]
    );
}

#[test]
fn count_members_skips_representatives() {
    let names: Vec<String> = ["a", "metadata", "b", "metadata", "metadata2"]
        .iter()
        .map(|s| s.to_string())
        .collect();
    assert_eq!(count_members(&names), 3);
    assert_eq!(count_members(&vec![]), 0);
}

#[test]
fn error_messages() {
    assert_eq!(PineError::Io.message(), "IO error");
    assert_eq!(PineError::PathConversion.message(), "Path conversion error");
}
