use incin_core::error::Error;
use incin_core::io::gguf::{
    contains_text, get_scale_min_k4, last_path_segment, lay_out_tensors, stored_scheme, TensorEntry, metadata_for_type_path, model_architecture, pack_scales_mins, gguf_header, gguf_payload, validate_export, GgufMetadata, GgufTensorInfo, GgufValue,
    QuantScheme,
};

#[test]
fn quant_schemes_map_to_ggml_and_file_type_ids() {
    let cases = [
        (QuantScheme::F32, 0, 0),
        (QuantScheme::F16, 1, 1),
        (QuantScheme::W4A16_Q4_0, 2, 2),
        (QuantScheme::Q8_0, 8, 7),
        (QuantScheme::W4A16_Q4_K_M, 12, 15),
    ];
    for (scheme, ggml, file) in cases {
        assert_eq!(scheme.ggml_type_id(), ggml);
        assert_eq!(scheme.file_type_id(), file);
    }
}

#[test]
fn only_block_schemes_quantize_and_only_whole_rows() {
    assert!(QuantScheme::Q8_0.can_quantize(64, &[2, 32]));
    assert!(!QuantScheme::Q8_0.can_quantize(48, &[2, 24]));
    assert!(!QuantScheme::Q8_0.can_quantize(0, &[0, 32]));
    assert!(!QuantScheme::F32.can_quantize(64, &[2, 32]));
    assert!(!QuantScheme::W4A16_Q4_K_M.can_quantize(64, &[2, 32]));
    assert!(QuantScheme::W4A16_Q4_K_M.can_quantize(256, &[256]));
    assert!(!QuantScheme::W4A16_Q4_0.can_quantize(1, &[]));
}

#[test]
fn export_is_refused_for_f16_and_for_high_ranks() {
    assert!(validate_export(QuantScheme::F32, &[0, 2, 4]).is_ok());
    assert!(validate_export(QuantScheme::F16, &[2]).is_err());
    assert!(validate_export(QuantScheme::Q8_0, &[2, 5]).is_err());
}

#[test]
fn metadata_keeps_keys_in_byte_order_and_replaces_values() {
    let mut meta = GgufMetadata::new("llama");
    assert_eq!(meta.len(), 3);
    meta.set("general.alignment".to_string(), GgufValue::Uint32(64));
    assert_eq!(meta.len(), 3);
    meta.set("a.first".to_string(), GgufValue::Bool(true));
    assert_eq!(meta.len(), 4);
    let header = gguf_header(&meta, &[]);
    let text = String::from_utf8_lossy(&header);
    let order = ["a.first", "general.alignment", "general.architecture", "general.producer.name"];
    let positions: Vec<usize> = order.iter().map(|key| text.find(key).unwrap()).collect();
    assert!(positions.windows(2).all(|w| w[0] < w[1]));
}

#[test]
fn values_are_tagged_and_little_endian() {
    let mut out = Vec::new();
    GgufValue::Uint16(0x0102).write_binary(&mut out);
    assert_eq!(out, vec![2, 0, 0, 0, 0x02, 0x01]);
    let mut out = Vec::new();
    GgufValue::Int32(-2).write_binary(&mut out);
    assert_eq!(out, vec![5, 0, 0, 0, 0xfe, 0xff, 0xff, 0xff]);
    let mut out = Vec::new();
    GgufValue::Str("hi".to_string()).write_binary(&mut out);
    assert_eq!(out, vec![8, 0, 0, 0, 2, 0, 0, 0, 0, 0, 0, 0, b'h', b'i']);
    let mut out = Vec::new();
    GgufValue::Float32Bits(1.5f32.to_bits()).write_binary(&mut out);
    let mut expected = vec![6, 0, 0, 0];
    expected.extend_from_slice(&1.5f32.to_le_bytes());
    assert_eq!(out, expected);
    let mut out = Vec::new();
    GgufValue::Bool(true).write_binary(&mut out);
    assert_eq!(out, vec![7, 0, 0, 0, 1]);
}

#[test]
fn the_header_starts_with_magic_version_and_counts_and_is_aligned() {
    let meta = GgufMetadata::empty().for_export(QuantScheme::Q8_0);
    let tensors = vec![GgufTensorInfo {
        name: "w".to_string(),
        dims: vec![3, 2],
        ggml_type: 8,
        data_offset: 0,
    }];
    let header = gguf_header(&meta, &tensors);
    assert_eq!(&header[0..4], b"GGUF");
    assert_eq!(&header[4..8], &3u32.to_le_bytes());
    assert_eq!(&header[8..16], &1u64.to_le_bytes());
    assert_eq!(&header[16..24], &1u64.to_le_bytes());
    assert_eq!(header.len() % 32, 0);
    let mut row = Vec::new();
    row.extend_from_slice(&1u64.to_le_bytes());
    row.push(b'w');
    row.extend_from_slice(&2u32.to_le_bytes());
    row.extend_from_slice(&2u64.to_le_bytes());
    row.extend_from_slice(&3u64.to_le_bytes());
    row.extend_from_slice(&8u32.to_le_bytes());
    row.extend_from_slice(&0u64.to_le_bytes());
    let found = header.windows(row.len()).any(|w| w == row.as_slice());
    assert!(found, "tensor row stores reversed extents");
}

#[test]
fn a_scalar_is_stored_with_one_extent_of_one() {
    let tensors = vec![GgufTensorInfo {
        name: "s".to_string(),
        dims: vec![],
        ggml_type: 0,
        data_offset: 32,
    }];
    let header = gguf_header(&GgufMetadata::empty(), &tensors);
    let mut row = Vec::new();
    row.extend_from_slice(&1u64.to_le_bytes());
    row.push(b's');
    row.extend_from_slice(&1u32.to_le_bytes());
    row.extend_from_slice(&1u64.to_le_bytes());
    row.extend_from_slice(&0u32.to_le_bytes());
    row.extend_from_slice(&32u64.to_le_bytes());
    assert_eq!(&header[24..24 + row.len()], row.as_slice());
}

#[test]
fn payload_tensors_start_on_32_byte_boundaries() {
    let chunks = vec![vec![1u8; 3], vec![2u8; 5], vec![]];
    let (payload, offsets) = gguf_payload(&chunks);
    assert_eq!(offsets, vec![0, 32, 64]);
    assert_eq!(payload.len(), 64);
    assert_eq!(&payload[0..3], &[1, 1, 1]);
    assert!(payload[3..32].iter().all(|&b| b == 0));
    assert_eq!(&payload[32..37], &[2; 5]);
    assert!(payload[37..].iter().all(|&b| b == 0));
}

#[test]
fn packed_q4k_scales_read_back_exactly() {
    let scales = [0u8, 1, 17, 63, 32, 47, 5, 60];
    let mins = [63u8, 2, 16, 0, 31, 48, 62, 9];
    let packed = pack_scales_mins(&scales, &mins);
    for j in 0..8 {
        assert_eq!(get_scale_min_k4(j, &packed), (scales[j], mins[j]));
    }
    assert_eq!(packed[0] & 63, 0);
    assert_eq!(packed[8], (32 & 0x0f) | ((31 & 0x0f) << 4));
}

#[test]
fn a_type_path_names_the_model_by_its_last_segment() {
    assert_eq!(last_path_segment("incin::models::LlamaModel"), "LlamaModel");
    assert_eq!(last_path_segment("Plain"), "Plain");
    assert_eq!(last_path_segment("a::b::"), "");
    assert_eq!(last_path_segment("a:::b"), ":b");
}

#[test]
fn the_architecture_follows_the_model_name() {
    assert_eq!(model_architecture("tinyllama2"), "llama");
    assert_eq!(model_architecture("resnet50"), "resnet");
    assert_eq!(model_architecture("llama_resnet"), "llama");
    assert_eq!(model_architecture("mlp"), "custom");
    assert!(contains_text("abc", ""));
    assert!(!contains_text("ab", "abc"));
}

#[test]
fn exported_metadata_is_lower_cased_and_classified() {
    let derived = metadata_for_type_path("incin::models::LlamaModel");
    let mut expected = GgufMetadata::new("llama");
    expected.set("general.name".to_string(), GgufValue::Str("llamamodel".to_string()));
    assert_eq!(derived.len(), 4);
    assert_eq!(gguf_header(&derived, &[]), gguf_header(&expected, &[]));

    let custom = metadata_for_type_path("crate::Mlp");
    let mut expected = GgufMetadata::new("custom");
    expected.set("general.name".to_string(), GgufValue::Str("mlp".to_string()));
    assert_eq!(gguf_header(&custom, &[]), gguf_header(&expected, &[]));
}

#[test]
fn only_qualifying_tensors_keep_the_block_scheme() {
    assert_eq!(QuantScheme::Q8_0.tensor_scheme(64, &[2, 32]), QuantScheme::Q8_0);
    assert_eq!(QuantScheme::Q8_0.tensor_scheme(60, &[2, 30]), QuantScheme::F32);
    assert_eq!(QuantScheme::Q8_0.tensor_scheme(0, &[0, 32]), QuantScheme::F32);
    assert_eq!(
        QuantScheme::W4A16_Q4_K_M.tensor_scheme(512, &[2, 256]),
        QuantScheme::W4A16_Q4_K_M
    );
    assert_eq!(QuantScheme::W4A16_Q4_K_M.tensor_scheme(64, &[2, 32]), QuantScheme::F32);
    assert_eq!(QuantScheme::F32.tensor_scheme(64, &[2, 32]), QuantScheme::F32);
    assert_eq!(QuantScheme::W4A16_Q4_0.tensor_scheme(32, &[32]), QuantScheme::W4A16_Q4_0);
}

#[test]
fn export_refusals_name_the_scheme_or_the_rank() {
    assert_eq!(
        validate_export(QuantScheme::F16, &[2]),
        Err(Error::Msg(
            "GGUF export: quantization scheme F16 is not yet implemented (only F32, Q8_0, Q4_0 and Q4_K are supported)"
                .to_string()
        ))
    );
    assert_eq!(
        validate_export(QuantScheme::Q8_0, &[2, 5]),
        Err(Error::InvalidModuleState {
            operation: "GGUF export",
            reason: "GGUF supports at most 4 tensor dimensions".to_string(),
        })
    );
}

#[test]
fn the_tensor_table_pairs_each_tensor_with_its_scheme_and_offset() {
    assert_eq!(stored_scheme(QuantScheme::Q8_0, true), QuantScheme::Q8_0);
    assert_eq!(stored_scheme(QuantScheme::W4A16_Q4_0, false), QuantScheme::F32);
    let entries = vec![
        TensorEntry { name: "a".to_string(), dims: vec![2], scheme: QuantScheme::F32 },
        TensorEntry { name: "b".to_string(), dims: vec![32], scheme: QuantScheme::Q8_0 },
    ];
    let chunks = vec![vec![1u8; 8], vec![2u8; 34]];
    let (infos, payload) = lay_out_tensors(&entries, &chunks);
    assert_eq!(infos.len(), 2);
    assert_eq!((infos[0].name.as_str(), infos[0].ggml_type, infos[0].data_offset), ("a", 0, 0));
    assert_eq!((infos[1].name.as_str(), infos[1].ggml_type, infos[1].data_offset), ("b", 8, 32));
    assert_eq!(infos[1].dims, vec![32]);
    assert_eq!(payload.len(), 96);
    assert_eq!(&payload[32..66], &[2u8; 34][..]);
}
