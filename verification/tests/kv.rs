use sllm_hip::kv_image::{
    concat_prefix, hash_payload, kv_payload, layer_payload, prefix_len, same_payloads, KvImage,
    LayerImage, LayerPayload, Mxfp8Layout, Plane, PlaneKind,
};

fn layer(published: u64) -> LayerImage {
    LayerImage {
        layer: 3,
        has_sliding_window: false,
        is_mxfp8_e4: true,
        encoding_name: "mxfp8-e4".to_owned(),
        published_length: published,
        has_active_slot: false,
        mxfp8: Some(Mxfp8Layout {
            padded_head_dim: 4,
            blocks_per_head: 1,
        }),
        heads: 1,
        planes: vec![
            Plane {
                kind: PlaneKind::KvKey,
                bytes: (0..12).collect(),
            },
            Plane {
                kind: PlaneKind::KvKeyScale,
                bytes: vec![90, 91, 92],
            },
            Plane {
                kind: PlaneKind::KvValue,
                bytes: (20..32).collect(),
            },
            Plane {
                kind: PlaneKind::KvValueScale,
                bytes: vec![70, 71, 72],
            },
        ],
    }
}

#[test]
fn only_the_published_prefix_is_compared() {
    let payload = layer_payload(&layer(2), 2).unwrap();
    assert_eq!(payload.layer, 3);
    assert_eq!(payload.key, vec![0, 1, 2, 3, 4, 5, 6, 7, 90, 91]);
    assert_eq!(payload.value, vec![20, 21, 22, 23, 24, 25, 26, 27, 70, 71]);
}

#[test]
fn unsupported_layers_are_refused() {
    let sliding = LayerImage {
        has_sliding_window: true,
        ..layer(2)
    };
    assert_eq!(
        layer_payload(&sliding, 2).unwrap_err(),
        "diagnostic KV prefix requires non-sliding storage"
    );
    let other = LayerImage {
        is_mxfp8_e4: false,
        encoding_name: "fp16".to_owned(),
        ..layer(2)
    };
    assert_eq!(
        layer_payload(&other, 2).unwrap_err(),
        "layer 3 has unsupported KV encoding fp16"
    );
    assert_eq!(
        layer_payload(&layer(2), 1).unwrap_err(),
        "layer 3 has inconsistent KV image publication metadata"
    );
    let active = LayerImage {
        has_active_slot: true,
        ..layer(2)
    };
    assert_eq!(
        layer_payload(&active, 2).unwrap_err(),
        "layer 3 has inconsistent KV image publication metadata"
    );
    let bare = LayerImage {
        mxfp8: None,
        ..layer(2)
    };
    assert_eq!(
        layer_payload(&bare, 2).unwrap_err(),
        "layer 3 is missing its MXFP8 descriptor"
    );
    let empty = LayerImage {
        planes: vec![],
        ..layer(2)
    };
    assert!(layer_payload(&empty, 2).unwrap_err().starts_with("layer 3 state image omitted "));
}

#[test]
fn planes_must_hold_the_prefix() {
    assert_eq!(prefix_len(3, 4, 0, "value"), Ok(12));
    assert_eq!(
        prefix_len(u64::MAX, 4, 0, "value").unwrap_err(),
        "layer 0 value prefix length overflowed"
    );
    assert_eq!(concat_prefix(&[1, 2, 3], 2, &[9, 8], 1, 0, "key"), Ok(vec![1, 2, 9]));
    assert_eq!(
        concat_prefix(&[1], 2, &[9, 8], 1, 5, "key").unwrap_err(),
        "layer 5 key value plane is shorter than published prefix: 1 < 2"
    );
    assert_eq!(
        concat_prefix(&[1, 2], 2, &[], 1, 5, "key").unwrap_err(),
        "layer 5 key scale plane is shorter than published prefix: 0 < 1"
    );
}

#[test]
fn images_must_hold_rows_and_layers() {
    assert_eq!(
        kv_payload(&KvImage {
            committed_length: 0,
            layers: vec![layer(0)]
        })
        .unwrap_err(),
        "KV state-image export returned an empty request"
    );
    assert_eq!(
        kv_payload(&KvImage {
            committed_length: 2,
            layers: vec![]
        })
        .unwrap_err(),
        "KV state-image has no KV layers"
    );
    let payload = kv_payload(&KvImage {
        committed_length: 2,
        layers: vec![layer(2)],
    })
    .unwrap();
    assert_eq!(payload.len(), 1);
}

#[test]
fn payload_digests_tell_the_planes_apart() {
    let one = vec![LayerPayload {
        layer: 0,
        key: vec![1, 2],
        value: vec![3],
    }];
    let other = vec![LayerPayload {
        layer: 0,
        key: vec![1],
        value: vec![2, 3],
    }];
    assert!(same_payloads(&one, &one));
    assert!(!same_payloads(&one, &other));
    assert_ne!(hash_payload(&one), hash_payload(&other));
    assert!(hash_payload(&one).starts_with("sha256:"));
}
