use shell_cast::http::{
    content_type, file_after_token, file_body, file_headers, has_extension, inject_start_tag,
    random_token, token_from_bytes,
};

#[test]
fn start_tag_is_injected_after_header() {
    let playlist = b"#EXTM3U\n#EXT-X-VERSION:3\n#EXTINF:1.0,\nsegment00000.ts\n".to_vec();
    let out = String::from_utf8(inject_start_tag(playlist)).unwrap();
    assert!(out.starts_with("#EXTM3U\n#EXT-X-START:TIME-OFFSET=-2.0,PRECISE=NO\n"));
    assert!(out.contains("segment00000.ts"));
}

#[test]
fn existing_start_tag_is_kept() {
    let playlist = b"#EXTM3U\n#EXT-X-START:TIME-OFFSET=-5.0\n".to_vec();
    let out = String::from_utf8(inject_start_tag(playlist)).unwrap();
    assert_eq!(out.matches("#EXT-X-START").count(), 1);
}

#[test]
fn token_gates_and_extracts_the_file_name() {
    assert_eq!(
        file_after_token("/abc123/stream.m3u8", "abc123"),
        Some("stream.m3u8")
    );
    assert_eq!(
        file_after_token("/abc123/segment00007.ts", "abc123"),
        Some("segment00007.ts")
    );
    assert_eq!(file_after_token("/wrong/stream.m3u8", "abc123"), None);
    assert_eq!(file_after_token("/stream.m3u8", "abc123"), None);
    assert_eq!(file_after_token("/abc123/", "abc123"), None);
    assert_eq!(file_after_token("/abc123/../secret", "abc123"), None);
    assert_eq!(file_after_token("/abc123/sub/dir.ts", "abc123"), None);
}

#[test]
fn tokens_are_random_and_hex() {
    let (a, b) = (random_token(), random_token());
    assert_ne!(a, b);
    assert_eq!(a.len(), 32);
    assert!(a.chars().all(|c| c.is_ascii_hexdigit()));
}

#[test]
fn tokens_spell_out_their_bytes() {
    let mut bytes = [0_u8; 16];
    bytes[0] = 0xab;
    bytes[15] = 0x07;
    assert_eq!(token_from_bytes(bytes), "ab000000000000000000000000000007");
}

#[test]
fn leading_slashes_are_ignored() {
    assert_eq!(file_after_token("//tok/a.ts", "tok"), Some("a.ts"));
    assert_eq!(file_after_token("tok/a.ts", "tok"), Some("a.ts"));
}

#[test]
fn content_types_follow_the_extension() {
    assert_eq!(content_type("stream.m3u8"), "application/vnd.apple.mpegurl");
    assert_eq!(content_type("segment00001.ts"), "video/mp2t");
    assert_eq!(content_type("notes.txt"), "application/octet-stream");
    assert_eq!(content_type(".ts"), "application/octet-stream");
    assert_eq!(content_type("noext"), "application/octet-stream");
    assert!(has_extension("a.m3u8", "m3u8"));
    assert!(!has_extension("m3u8", "m3u8"));
    assert!(!has_extension("a.m3u8.bak", "m3u8"));
}

#[test]
fn only_playlists_get_a_start_tag() {
    let playlist = b"#EXTM3U\n".to_vec();
    assert_eq!(
        file_body("stream.m3u8", playlist.clone()),
        b"#EXTM3U\n#EXT-X-START:TIME-OFFSET=-2.0,PRECISE=NO\n".to_vec()
    );
    assert_eq!(file_body("segment.ts", playlist.clone()), playlist);
    let headers = file_headers("segment.ts");
    assert_eq!(headers[0], ("Content-Type", "video/mp2t"));
    assert_eq!(headers[1], ("Access-Control-Allow-Origin", "*"));
    assert_eq!(headers[2], ("Cache-Control", "no-cache, no-store"));
}

#[test]
fn binary_data_and_headerless_text_are_left_alone() {
    let binary = vec![0xff_u8, 0xfe, b'#', b'E'];
    assert_eq!(inject_start_tag(binary.clone()), binary);
    let text = b"no header here".to_vec();
    assert_eq!(inject_start_tag(text.clone()), text);
    let once = inject_start_tag(b"#EXTM3U\n".to_vec());
    assert_eq!(inject_start_tag(once.clone()), once);
}

#[test]
fn extensions_follow_the_file_name_as_std_reads_it() {
    let std_ext = |p: &str| {
        std::path::Path::new(p)
            .extension()
            .and_then(|e| e.to_str())
            .map(str::to_string)
    };
    for path in [
        "stream.m3u8",
        "dir/segment00001.ts",
        "dir/stream.m3u8/",
        "stream.m3u8/.",
        "stream.m3u8/.//",
        "a.ts/..",
        "/",
        "",
        ".",
        "./",
        "..",
        ".hidden",
        "a//b.ts",
        "noext",
        "a.b.ts",
        "x.",
    ] {
        let expected = std_ext(path);
        for ext in ["m3u8", "ts", "b.ts", ""] {
            assert_eq!(
                shell_cast::http::has_extension(path, ext),
                expected.as_deref() == Some(ext),
                "{path:?} {ext:?}"
            );
        }
    }
    assert_eq!(shell_cast::http::content_type("x/stream.m3u8/."), "application/vnd.apple.mpegurl");
    assert_eq!(shell_cast::http::content_type("seg.ts/.."), "application/octet-stream");
}
