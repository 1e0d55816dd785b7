use vocal_magic::storage::{
    create_work_dir_with_input, decoded_file, decoded_from, detect_audio_ext, is_ncm,
    maybe_decode_ncm, ncm_is_decodable, sanitize_filename, Contents, FsOp, Paths, LAYOUT_VERSION,
};

fn encrypted_music() -> Vec<u8> {
    vec![
        0x43, 0x54, 0x45, 0x4e, 0x46, 0x44, 0x41, 0x4d, 0x01, 0x70, 0x30, 0x00, 0x00, 0x00, 0x2c,
        0xce, 0xd5, 0xeb, 0x69, 0xea, 0xfb, 0x14, 0x55, 0x0d, 0x45, 0xbf, 0x61, 0xdd, 0x17, 0x1d,
        0x50, 0x8b, 0x9b, 0xd6, 0x59, 0xbd, 0x58, 0xc7, 0xbe, 0x31, 0x17, 0xcb, 0xfb, 0xec, 0x58,
        0x4d, 0x21, 0x8e, 0x3f, 0x76, 0xcf, 0xdf, 0x75, 0x22, 0xfe, 0x29, 0x6c, 0xf7, 0x42, 0x95,
        0x40, 0x74, 0x00, 0x00, 0x00, 0x00, 0x00, 0x00, 0x00, 0x00, 0x00, 0x00, 0x00, 0x00, 0x00,
        0x00, 0x00, 0x00, 0x00, 0xc4, 0x12, 0xa6, 0x6f, 0x0b, 0x2c, 0xb8, 0xf0, 0xaf, 0x85,
    ]
}

fn paths() -> Paths {
    Paths::new("/out".to_string(), "/ckpt".to_string())
}

#[test]
fn places_below_the_output_directory() {
    let p = paths();
    assert_eq!(p.output_dir, "/out");
    assert_eq!(p.apps_dir, "/out/apps");
    assert_eq!(p.db_path, "/out/apps/jobs.sqlite");
    assert_eq!(p.checkpoints_dir, "/ckpt");
    assert_eq!(p.version_file(), "/out/apps/.layout-version");
    assert_eq!(p.work_dir("vocal2midi", "id"), "/out/apps/vocal2midi/id");
    assert_eq!(p.model_dir("renaissance"), "/ckpt/renaissance");
}

#[test]
fn first_start_makes_the_layout() {
    let actions = paths().init(false, None);
    let ops: Vec<FsOp> = actions.iter().map(|a| a.op).collect();
    assert_eq!(ops, vec![FsOp::CreateDir, FsOp::CreateDir, FsOp::WriteFile]);
    assert_eq!(actions[0].path, "/out");
    assert_eq!(actions[0].context, "create output dir /out");
    assert_eq!(actions[1].path, "/out/apps");
    assert_eq!(actions[1].context, "create apps dir /out/apps");
    assert_eq!(actions[2].path, "/out/apps/.layout-version");
    assert_eq!(actions[2].context, "write layout version file");
    assert!(matches!(&actions[2].contents, Contents::Text(t) if t == "1"));
    let again = paths().clone().init(true, Some("1".to_string()));
    assert!(again.iter().all(|a| a.op != FsOp::RemoveDir));
}

#[test]
fn compatible_layouts_are_kept() {
    for stored in vec!["1", "1\n", "  1 "] {
        let actions = paths().init(true, Some(stored.to_string()));
        assert!(actions.iter().all(|a| a.op != FsOp::RemoveDir));
        assert_eq!(actions.len(), 3);
    }
    let written = paths().init(true, Some(LAYOUT_VERSION.to_string()));
    assert_eq!(written.len(), 3);
}

#[test]
fn incompatible_layouts_are_wiped() {
    for stored in vec![None, Some("0".to_string()), Some("11".to_string()), Some("".to_string())] {
        let actions = paths().init(true, stored);
        assert_eq!(actions.len(), 4);
        assert_eq!(actions[1].op, FsOp::RemoveDir);
        assert_eq!(actions[1].path, "/out/apps");
        assert_eq!(actions[1].context, "wipe apps dir /out/apps");
    }
}

#[test]
fn file_names_are_sanitised() {
    assert_eq!(sanitize_filename("song.mp3"), "song.mp3");
    assert_eq!(sanitize_filename("my song (1).wav"), "my_song__1_.wav");
    assert_eq!(sanitize_filename("../../etc/passwd"), "passwd");
    assert_eq!(sanitize_filename("歌.flac"), "_.flac");
    assert_eq!(sanitize_filename(".."), "input");
    assert_eq!(sanitize_filename(""), "input");
    assert_eq!(sanitize_filename("a/"), "a");
    assert_eq!(sanitize_filename("a\\b"), "a_b");
}

#[test]
fn sanitising_twice_changes_nothing() {
    for name in vec!["my song.wav", "..", "/x/ÿ", "a.b-c_d"] {
        let once = sanitize_filename(name);
        assert_eq!(sanitize_filename(&once), once);
    }
}

#[test]
fn uploads_are_stored_as_inputs() {
    let (path, actions) = create_work_dir_with_input("/w", "../a b.mp3", vec![7, 8]);
    assert_eq!(path, "/w/input_a_b.mp3");
    assert_eq!(actions.len(), 2);
    assert_eq!(actions[0].op, FsOp::CreateDir);
    assert_eq!(actions[0].path, "/w");
    assert_eq!(actions[0].context, "create work dir /w");
    assert_eq!(actions[1].op, FsOp::WriteFile);
    assert_eq!(actions[1].path, "/w/input_a_b.mp3");
    assert_eq!(actions[1].context, "write input to /w/input_a_b.mp3");
    assert!(matches!(actions[0].contents, Contents::Nothing));
    assert!(matches!(&actions[1].contents, Contents::Bytes(b) if *b == vec![7, 8]));
}

#[test]
fn audio_formats_are_detected() {
    assert_eq!(detect_audio_ext(&b"fLaC....".to_vec()), "flac");
    assert_eq!(detect_audio_ext(&b"ID3x".to_vec()), "mp3");
    assert_eq!(detect_audio_ext(&vec![0xFF, 0xFB, 0]), "mp3");
    assert_eq!(detect_audio_ext(&b"OggS".to_vec()), "ogg");
    assert_eq!(detect_audio_ext(&b"RIFF".to_vec()), "mp3");
    assert_eq!(detect_audio_ext(&Vec::new()), "mp3");
    assert_eq!(detect_audio_ext(&b"fLa".to_vec()), "mp3");
}

#[test]
fn encrypted_names_are_recognised() {
    assert!(is_ncm("/w/input_a.ncm"));
    assert!(is_ncm("/w/input_a.NCM"));
    assert!(!is_ncm("/w/input_a.mp3"));
    assert!(!is_ncm("/w/ncm"));
    assert!(!is_ncm("/w/.ncm"));
}

#[test]
fn plain_uploads_are_read_as_they_are() {
    let input = maybe_decode_ncm("/w/input_a.mp3", encrypted_music()).unwrap_or_else(|e| panic!("{e}"));
    assert_eq!(input.path, "/w/input_a.mp3");
    assert!(input.music.is_none());
}

#[test]
fn encrypted_uploads_are_decrypted_beside_the_upload() {
    let bytes = encrypted_music();
    assert!(ncm_is_decodable(&bytes));
    let input = maybe_decode_ncm("/w/input_a.ncm", bytes).unwrap_or_else(|e| panic!("{e}"));
    assert_eq!(input.path, "/w/input_a.decoded.flac");
    assert_eq!(input.music, Some(b"fLaC music".to_vec()));
}

#[test]
fn broken_encrypted_uploads_are_refused() {
    for bytes in vec![Vec::new(), b"CTENFDAM".to_vec(), b"not music at all".to_vec()] {
        assert!(ncm_is_decodable(&bytes));
        match maybe_decode_ncm("/w/input_a.ncm", bytes) {
            Ok(_) => panic!("decoded"),
            Err(e) => assert_eq!(e, "ncm open: InvalidFileType"),
        }
    }
    match maybe_decode_ncm("/w/input_a.ncm", b"CTENFDAM..\x40\0\0\0".to_vec()) {
        Ok(_) => panic!("decoded"),
        Err(e) => assert_eq!(e, "ncm open: InvalidKeyLength"),
    }
}

#[test]
fn outcomes_of_decrypting() {
    let good = decoded_from("/w/input_a.ncm", Ok(b"OggS".to_vec())).unwrap_or_else(|e| panic!("{e}"));
    assert_eq!(good.path, "/w/input_a.decoded.ogg");
    assert_eq!(good.music, Some(b"OggS".to_vec()));
    assert_eq!(decoded_from("/w/input_a.ncm", Err("x".to_string())).err(), Some("ncm open: x".to_string()));
    assert_eq!(decoded_file("/w/input_a.ncm", &b"ID3".to_vec()), "/w/input_a.decoded.mp3");
}

#[test]
fn short_keys_are_not_decoded() {
    let mut bytes = b"CTENFDAM\x01\x70\x10\0\0\0".to_vec();
    assert!(ncm_is_decodable(&bytes));
    bytes.extend_from_slice(&[0u8; 16]);
    assert!(!ncm_is_decodable(&bytes));
}
