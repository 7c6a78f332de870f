//! Decoding model buffers.

use std::time::Instant;

use content_packer::model::{parse_model, ModelError};

/// Appends a little-endian 32-bit integer.
fn push_i32(v: &mut Vec<u8>, x: i32) {
    let bytes = x.to_le_bytes();
    v.push(bytes[0]);
    v.push(bytes[1]);
    v.push(bytes[2]);
    v.push(bytes[3]);
}

/// Builds a model buffer: the signature, 200 unused bytes, the four
/// header fields, the directory table at 220, the texture table at 224,
/// then the directory strings and the texture strings.
fn build_model(dirs: &[&str], texs: &[&str]) -> Vec<u8> {
    let mut v: Vec<u8> = Vec::new();
    v.push(b'I');
    v.push(b'D');
    v.push(b'S');
    v.push(b'T');
    for _ in 0..200 {
        v.push(0);
    }
    push_i32(&mut v, texs.len() as i32); // texture count, at 204
    push_i32(&mut v, 224); // texture-table offset, at 208
    push_i32(&mut v, dirs.len() as i32); // directory count, at 212
    push_i32(&mut v, 220); // directory-table offset, at 216
    let dir_strings_start: i32 = 228;
    push_i32(&mut v, dir_strings_start); // at 220: absolute offset
    let dirs_bytes: usize = dirs.iter().map(|d| d.len() + 1).sum();
    let tex_strings_start = dir_strings_start + dirs_bytes as i32;
    push_i32(&mut v, tex_strings_start - 224); // at 224: offset relative to 224
    for d in dirs {
        for byte in d.as_bytes() {
            v.push(*byte);
        }
        v.push(0);
    }
    for t in texs {
        for byte in t.as_bytes() {
            v.push(*byte);
        }
        v.push(0);
    }
    v
}

#[test]
fn fence_model_parsing_works() {
    let file = build_model(&["test1\\"], &["test1_mat1", "test1_mat2", "test1_mat3"]);

    let parsed = match parse_model(&file) {
        Ok(parsed) => parsed,
        Err(err) => panic!("{:?}", err),
    };

    assert_eq!(parsed.directories.len(), 1);
    assert_eq!(parsed.directories[0], "test1\\");

    assert_eq!(parsed.textures.len(), 3);
    assert_eq!(parsed.textures[0], "test1_mat1");
    assert_eq!(parsed.textures[1], "test1_mat2");
    assert_eq!(parsed.textures[2], "test1_mat3");
}

#[test]
fn keycard_model_parsing_works() {
    let file = build_model(&["test2\\", "test2_2\\"], &["test2_mat1", "test2_mat2", "test2_mat3"]);

    let parsed = match parse_model(&file) {
        Ok(parsed) => parsed,
        Err(err) => panic!("{:?}", err),
    };

    assert_eq!(parsed.directories.len(), 2);
    assert_eq!(parsed.directories[0], "test2\\");
    assert_eq!(parsed.directories[1], "test2_2\\");

    assert_eq!(parsed.textures.len(), 3);
    assert_eq!(parsed.textures[0], "test2_mat1");
    assert_eq!(parsed.textures[1], "test2_mat2");
    assert_eq!(parsed.textures[2], "test2_mat3");
}

#[test]
fn notmodel_parsing_fails() {
    let file: Vec<u8> = "this is no model at all, only text".as_bytes().to_vec();

    match parse_model(&file) {
        Ok(_) => panic!("didn't fail"),
        Err(_) => (),
    };
}

#[test]
fn fence_model_parsing_benchmark() {
    let file = build_model(&["test1\\"], &["test1_mat1", "test1_mat2", "test1_mat3"]);

    let now = Instant::now();

    for _ in 0..1000 {
        let _ = match parse_model(&file) {
            Ok(parsed) => parsed,
            Err(err) => panic!("{:?}", err),
        };
    }

    let elapsed = now.elapsed();
    println!("elapsed: {:.2?}", elapsed);
}

#[test]
fn derived_paths_cover_both_extensions() {
    let file = build_model(&["foo/"], &["bar"]);

    let parsed = parse_model(&file).expect("decoding failed");

    assert_eq!(parsed.used_paths.len(), 2);
    assert_eq!(parsed.used_paths[0], "materials/foo/bar.vtf");
    assert_eq!(parsed.used_paths[1], "materials/foo/bar.vmt");
}

#[test]
fn derived_path_count_is_cross_product() {
    let file = build_model(&["a/", "b/"], &["x", "y", "z"]);

    let parsed = parse_model(&file).expect("decoding failed");

    assert_eq!(parsed.directories.len(), 2);
    assert_eq!(parsed.textures.len(), 3);
    assert_eq!(parsed.used_paths.len(), 2 * 2 * 3);
}

#[test]
fn derived_paths_are_case_folded_and_slash_normalized() {
    let file = build_model(&["Props\\Fence\\"], &["Rusty_Metal"]);

    let parsed = parse_model(&file).expect("decoding failed");

    assert_eq!(parsed.used_paths[0], "materials/props/fence/rusty_metal.vtf");
    assert_eq!(parsed.used_paths[1], "materials/props/fence/rusty_metal.vmt");
}

#[test]
fn wrong_signature_gives_format_error() {
    let mut file = build_model(&["foo/"], &["bar"]);
    file[0] = b'X';

    match parse_model(&file) {
        Err(ModelError::Format(e)) => {
            assert_eq!(e.signature, vec![b'X', b'D', b'S', b'T']);
        }
        other => panic!("expected a format error, got {:?}", other),
    }
}

#[test]
fn short_buffer_gives_format_error_with_found_bytes() {
    let file: Vec<u8> = vec![b'I', b'D'];

    match parse_model(&file) {
        Err(ModelError::Format(e)) => {
            assert_eq!(e.signature, vec![b'I', b'D']);
        }
        other => panic!("expected a format error, got {:?}", other),
    }
}

#[test]
fn truncated_header_gives_truncation_error() {
    let full = build_model(&["foo/"], &["bar"]);
    // Cut the buffer in the middle of the header fields.
    let file: Vec<u8> = full[..210].to_vec();

    match parse_model(&file) {
        Err(ModelError::Truncation) => (),
        other => panic!("expected a truncation error, got {:?}", other),
    }
}

#[test]
fn truncated_strings_give_truncation_error() {
    let full = build_model(&["foo/"], &["bar"]);
    // Cut the buffer inside the texture strings, before their final NUL.
    let file: Vec<u8> = full[..full.len() - 1].to_vec();

    match parse_model(&file) {
        Err(ModelError::Truncation) => (),
        other => panic!("expected a truncation error, got {:?}", other),
    }
}

#[test]
fn out_of_bounds_table_offset_gives_truncation_error() {
    let mut file = build_model(&["foo/"], &["bar"]);
    // Point the directory table far past the end of the buffer.
    let far = 1_000_000i32.to_le_bytes();
    file[216] = far[0];
    file[217] = far[1];
    file[218] = far[2];
    file[219] = far[3];

    match parse_model(&file) {
        Err(ModelError::Truncation) => (),
        other => panic!("expected a truncation error, got {:?}", other),
    }
}

#[test]
fn negative_table_offset_gives_truncation_error() {
    let mut file = build_model(&["foo/"], &["bar"]);
    let neg = (-8i32).to_le_bytes();
    file[216] = neg[0];
    file[217] = neg[1];
    file[218] = neg[2];
    file[219] = neg[3];

    match parse_model(&file) {
        Err(ModelError::Truncation) => (),
        other => panic!("expected a truncation error, got {:?}", other),
    }
}

#[test]
fn invalid_utf8_string_gives_encoding_error() {
    let mut file = build_model(&["foo/"], &["bar"]);
    // 0xFF can appear in no valid UTF-8 string.
    let pos = file.len() - 2;
    file[pos] = 0xFF;

    match parse_model(&file) {
        Err(ModelError::Encoding) => (),
        other => panic!("expected an encoding error, got {:?}", other),
    }
}

#[test]
fn negative_counts_read_no_strings() {
    let mut file = build_model(&[], &[]);
    let neg = (-5i32).to_le_bytes();
    // texture count at 204, directory count at 212
    for (i, b) in neg.iter().enumerate() {
        file[204 + i] = *b;
        file[212 + i] = *b;
    }

    let parsed = parse_model(&file).expect("decoding failed");
    assert_eq!(parsed.directories.len(), 0);
    assert_eq!(parsed.textures.len(), 0);
    assert_eq!(parsed.used_paths.len(), 0);
}

#[test]
fn decoding_is_deterministic() {
    let file = build_model(&["Props\\"], &["One", "Two"]);

    let first = parse_model(&file).expect("decoding failed");
    let second = parse_model(&file).expect("decoding failed");

    assert_eq!(first.directories, second.directories);
    assert_eq!(first.textures, second.textures);
    assert_eq!(first.used_paths, second.used_paths);
}
