use ockam_api::{CowStr, DecodeError, Encode, EncodeError, Id, Method, Request};

fn encoded(build: fn(&mut minicbor::Encoder<Vec<u8>>)) -> Vec<u8> {
    let mut e = minicbor::Encoder::new(Vec::new());
    build(&mut e);
    e.into_writer()
}

fn sample() -> Request<'static> {
    let (header, _) = Request::get("/a").id(Id::new(1)).into_parts();
    header
}

#[test]
fn request_bytes_without_tag() {
    let mut buf = Vec::new();
    sample().encode(&mut buf, false).unwrap();
    assert_eq!(
        buf,
        vec![0xa4, 0x01, 0x01, 0x02, 0x62, 0x2f, 0x61, 0x03, 0x00, 0x04, 0xf4]
    );
}

#[test]
fn request_bytes_with_tag() {
    let mut buf = Vec::new();
    sample().encode(&mut buf, true).unwrap();
    assert_eq!(
        buf,
        vec![
            0xa5, 0x00, 0x1a, 0x00, 0x73, 0xc0, 0xe6, 0x01, 0x01, 0x02, 0x62, 0x2f, 0x61, 0x03,
            0x00, 0x04, 0xf4
        ]
    );
}

#[test]
fn request_encode_appends() {
    let mut buf = vec![0xde, 0xad];
    sample().encode(&mut buf, false).unwrap();
    assert_eq!(&buf[..2], &[0xde, 0xad]);
    assert_eq!(buf.len(), 13);
}

#[test]
fn request_round_trip() {
    for written in [false, true] {
        for read in [false, true] {
            for method in [Method::Get, Method::Post, Method::Put, Method::Delete, Method::Patch] {
                for has_body in [false, true] {
                    let (header, _) = Request::builder(method, "/nodes/7/vaults")
                        .id(Id::new(0xdead_beef))
                        .into_parts();
                    let header = if has_body {
                        Request::builder(method, "/nodes/7/vaults")
                            .id(Id::new(0xdead_beef))
                            .body(())
                            .into_parts()
                            .0
                    } else {
                        header
                    };
                    let mut buf = Vec::new();
                    header.encode(&mut buf, written).unwrap();
                    let (back, end) = Request::decode(&buf, 0, read).unwrap();
                    assert_eq!(end, buf.len());
                    assert_eq!(u32::from(back.id()), 0xdead_beef);
                    assert_eq!(back.path(), "/nodes/7/vaults");
                    assert_eq!(back.method(), Some(method));
                    assert_eq!(back.has_body(), has_body);
                }
            }
        }
    }
}

#[test]
fn request_round_trip_of_every_id_width() {
    for id in [0u32, 23, 24, 255, 256, 65535, 65536, u32::MAX] {
        let (header, _) = Request::post("").id(Id::new(id)).into_parts();
        let mut buf = Vec::new();
        header.encode(&mut buf, false).unwrap();
        let (back, end) = Request::decode(&buf, 0, false).unwrap();
        assert_eq!(end, buf.len());
        assert_eq!(u32::from(back.id()), id);
        assert_eq!(back.path(), "");
    }
}

#[test]
fn request_round_trip_of_long_and_wide_paths() {
    let long = "x".repeat(70_000);
    for path in ["/é/ü/漢字/🦀", long.as_str()] {
        let (header, _) = Request::put(path).into_parts();
        let mut buf = Vec::new();
        header.encode(&mut buf, true).unwrap();
        let (back, end) = Request::decode(&buf, 0, true).unwrap();
        assert_eq!(end, buf.len());
        assert_eq!(back.path(), path);
    }
}

#[test]
fn request_without_method_round_trip() {
    let bytes = vec![0xa3, 0x01, 0x05, 0x02, 0x61, 0x78, 0x04, 0xf5];
    let (header, end) = Request::decode(&bytes, 0, false).unwrap();
    assert_eq!(end, 8);
    assert_eq!(u32::from(header.id()), 5);
    assert_eq!(header.path(), "x");
    assert_eq!(header.method(), None);
    assert!(header.has_body());
    let mut buf = Vec::new();
    header.encode(&mut buf, false).unwrap();
    assert_eq!(buf, bytes);
}

#[test]
fn request_unknown_method_is_none() {
    let bytes = encoded(|e| {
        e.map(4).unwrap();
        e.u8(1).unwrap().u32(7).unwrap();
        e.u8(2).unwrap().str("/p").unwrap();
        e.u8(3).unwrap().u8(99).unwrap();
        e.u8(4).unwrap().bool(false).unwrap();
    });
    let (header, end) = Request::decode(&bytes, 0, false).unwrap();
    assert_eq!(end, bytes.len());
    assert_eq!(header.method(), None);
    assert_eq!(u32::from(header.id()), 7);
    assert_eq!(header.path(), "/p");
    assert!(!header.has_body());
}

#[test]
fn request_wide_method_code_is_none() {
    let bytes = encoded(|e| {
        e.map(4).unwrap();
        e.u8(1).unwrap().u32(7).unwrap();
        e.u8(2).unwrap().str("/p").unwrap();
        e.u8(3).unwrap().u64(u64::MAX).unwrap();
        e.u8(4).unwrap().bool(true).unwrap();
    });
    let (header, _) = Request::decode(&bytes, 0, true).unwrap();
    assert_eq!(header.method(), None);
    assert!(header.has_body());
}

#[test]
fn request_widest_method_code_on_the_wire() {
    let bytes = vec![
        0xa4, 0x01, 0x07, 0x02, 0x60, 0x03, 0x1b, 0xff, 0xff, 0xff, 0xff, 0xff, 0xff, 0xff, 0xff,
        0x04, 0xf4,
    ];
    let (header, end) = Request::decode(&bytes, 0, false).unwrap();
    assert_eq!(end, bytes.len());
    assert_eq!(header.method(), None);
    assert_eq!(u32::from(header.id()), 7);
}

#[test]
fn request_null_method_is_none() {
    let bytes = encoded(|e| {
        e.map(4).unwrap();
        e.u8(1).unwrap().u32(7).unwrap();
        e.u8(2).unwrap().str("/p").unwrap();
        e.u8(3).unwrap().null().unwrap();
        e.u8(4).unwrap().bool(true).unwrap();
    });
    let (header, end) = Request::decode(&bytes, 0, false).unwrap();
    assert_eq!(end, bytes.len());
    assert_eq!(header.method(), None);
}

#[test]
fn request_method_of_wrong_type_is_malformed() {
    let bytes = encoded(|e| {
        e.map(4).unwrap();
        e.u8(1).unwrap().u32(7).unwrap();
        e.u8(2).unwrap().str("/p").unwrap();
        e.u8(3).unwrap().str("GET").unwrap();
        e.u8(4).unwrap().bool(true).unwrap();
    });
    assert_eq!(
        Request::decode(&bytes, 0, false).err(),
        Some(DecodeError::Malformed { at: 8 })
    );
}

#[test]
fn request_unknown_keys_are_skipped() {
    let bytes = encoded(|e| {
        e.map(6).unwrap();
        e.u8(9).unwrap().array(2).unwrap().str("deep").unwrap();
        e.begin_map().unwrap().u8(1).unwrap().u8(2).unwrap().end().unwrap();
        e.u8(1).unwrap().u32(7).unwrap();
        e.u32(70_000).unwrap().bytes(&[1, 2, 3]).unwrap();
        e.u8(2).unwrap().str("/p").unwrap();
        e.u8(3).unwrap().u8(4).unwrap();
        e.u8(4).unwrap().bool(false).unwrap();
    });
    let (header, end) = Request::decode(&bytes, 0, false).unwrap();
    assert_eq!(end, bytes.len());
    assert_eq!(u32::from(header.id()), 7);
    assert_eq!(header.path(), "/p");
    assert_eq!(header.method(), Some(Method::Patch));
}

#[test]
fn request_negative_keys_are_skipped() {
    let bytes = encoded(|e| {
        e.map(5).unwrap();
        e.i8(-1).unwrap().str("minus one").unwrap();
        e.u8(1).unwrap().u32(7).unwrap();
        e.i64(i64::MIN).unwrap().u8(3).unwrap();
        e.u8(2).unwrap().str("/p").unwrap();
        e.u8(4).unwrap().bool(true).unwrap();
    });
    let (header, end) = Request::decode(&bytes, 0, true).unwrap();
    assert_eq!(end, bytes.len());
    assert_eq!(u32::from(header.id()), 7);
    assert_eq!(header.path(), "/p");
    assert_eq!(header.method(), None);
    assert!(header.has_body());
}

#[test]
fn request_key_beyond_the_signed_range_is_malformed() {
    let bytes = encoded(|e| {
        e.map(4).unwrap();
        e.u8(1).unwrap().u32(7).unwrap();
        e.u64(i64::MAX as u64).unwrap().u8(0).unwrap();
        e.u64(1 << 63).unwrap().u8(0).unwrap();
        e.u8(2).unwrap().str("/p").unwrap();
    });
    assert_eq!(
        Request::decode(&bytes, 0, false).err(),
        Some(DecodeError::Malformed { at: 13 })
    );
}

#[test]
fn request_with_id_keeps_its_arguments() {
    let header = Request::with_id(Id::new(42), Method::Post, "/nodes", true);
    assert_eq!(header.id(), Id::new(42));
    assert_eq!(header.method(), Some(Method::Post));
    assert_eq!(header.path(), "/nodes");
    assert!(header.has_body());
    let header = Request::with_id(Id::new(0), Method::Get, String::new(), false);
    assert_eq!(header.id(), Id::new(0));
    assert_eq!(header.path(), "");
    assert!(!header.has_body());
}

#[test]
fn request_map_closed_by_break() {
    let bytes = encoded(|e| {
        e.begin_map().unwrap();
        e.u8(4).unwrap().bool(true).unwrap();
        e.u8(2).unwrap().str("/p").unwrap();
        e.u8(1).unwrap().u32(300).unwrap();
        e.u8(3).unwrap().u8(1).unwrap();
        e.end().unwrap();
        e.u8(77).unwrap();
    });
    let (header, end) = Request::decode(&bytes, 0, false).unwrap();
    assert_eq!(end, bytes.len() - 2);
    assert_eq!(u32::from(header.id()), 300);
    assert_eq!(header.path(), "/p");
    assert_eq!(header.method(), Some(Method::Post));
    assert!(header.has_body());
}

#[test]
fn request_map_without_break_is_malformed() {
    let bytes = encoded(|e| {
        e.begin_map().unwrap();
        e.u8(1).unwrap().u32(300).unwrap();
    });
    assert_eq!(
        Request::decode(&bytes, 0, false).err(),
        Some(DecodeError::Malformed { at: bytes.len() })
    );
}

#[test]
fn request_last_entry_of_a_key_counts() {
    let bytes = encoded(|e| {
        e.map(5).unwrap();
        e.u8(1).unwrap().u32(7).unwrap();
        e.u8(2).unwrap().str("/first").unwrap();
        e.u8(4).unwrap().bool(false).unwrap();
        e.u8(2).unwrap().str("/second").unwrap();
        e.u8(1).unwrap().u32(8).unwrap();
    });
    let (header, _) = Request::decode(&bytes, 0, false).unwrap();
    assert_eq!(u32::from(header.id()), 8);
    assert_eq!(header.path(), "/second");
}

#[test]
fn request_missing_fields() {
    let no_id = encoded(|e| {
        e.map(2).unwrap();
        e.u8(2).unwrap().str("/p").unwrap();
        e.u8(4).unwrap().bool(false).unwrap();
    });
    assert_eq!(
        Request::decode(&no_id, 0, false).err(),
        Some(DecodeError::MissingField { index: 1 })
    );
    let no_path = encoded(|e| {
        e.map(2).unwrap();
        e.u8(1).unwrap().u32(7).unwrap();
        e.u8(4).unwrap().bool(false).unwrap();
    });
    assert_eq!(
        Request::decode(&no_path, 0, false).err(),
        Some(DecodeError::MissingField { index: 2 })
    );
    let no_flag = encoded(|e| {
        e.map(2).unwrap();
        e.u8(1).unwrap().u32(7).unwrap();
        e.u8(2).unwrap().str("/p").unwrap();
    });
    assert_eq!(
        Request::decode(&no_flag, 0, false).err(),
        Some(DecodeError::MissingField { index: 4 })
    );
    let nothing = encoded(|e| {
        e.map(0).unwrap();
    });
    assert_eq!(
        Request::decode(&nothing, 0, true).err(),
        Some(DecodeError::MissingField { index: 1 })
    );
}

#[test]
fn request_malformed_input() {
    assert_eq!(
        Request::decode(&[], 0, false).err(),
        Some(DecodeError::Malformed { at: 0 })
    );
    assert_eq!(
        Request::decode(&[0x80], 0, false).err(),
        Some(DecodeError::Malformed { at: 0 })
    );
    assert_eq!(
        Request::decode(&[0xa1], 0, false).err(),
        Some(DecodeError::Malformed { at: 1 })
    );
    assert_eq!(
        Request::decode(&[0xa1, 0x61, 0x61, 0x01], 0, false).err(),
        Some(DecodeError::Malformed { at: 1 })
    );
    assert_eq!(
        Request::decode(&[0xa1, 0x01], 0, false).err(),
        Some(DecodeError::Malformed { at: 2 })
    );
    assert_eq!(
        Request::decode(&[0xa1, 0x02, 0x05], 0, false).err(),
        Some(DecodeError::Malformed { at: 2 })
    );
    assert_eq!(
        Request::decode(&[0xa1, 0x04, 0x01], 0, false).err(),
        Some(DecodeError::Malformed { at: 2 })
    );
    assert_eq!(
        Request::decode(&[0xa1, 0x02, 0x62, 0xff, 0xfe], 0, false).err(),
        Some(DecodeError::Malformed { at: 2 })
    );
    assert_eq!(
        Request::decode(&[0xa1, 0x02, 0x7f, 0x61, 0x61, 0xff], 0, false).err(),
        Some(DecodeError::Malformed { at: 2 })
    );
    assert_eq!(
        Request::decode(&[0xa1, 0x09], 0, false).err(),
        Some(DecodeError::Malformed { at: 2 })
    );
    assert_eq!(
        Request::decode(&[0xa1, 0x01, 0x01], 7, false).err(),
        Some(DecodeError::Malformed { at: 7 })
    );
}

#[test]
fn request_id_beyond_32_bits_is_malformed() {
    let bytes = encoded(|e| {
        e.map(3).unwrap();
        e.u8(1).unwrap().u64(1 << 32).unwrap();
        e.u8(2).unwrap().str("/p").unwrap();
        e.u8(4).unwrap().bool(false).unwrap();
    });
    assert_eq!(
        Request::decode(&bytes, 0, false).err(),
        Some(DecodeError::Malformed { at: 2 })
    );
}

#[test]
fn request_id_in_a_wide_argument_is_read() {
    let bytes = vec![
        0xa3, 0x01, 0x1b, 0, 0, 0, 0, 0, 0, 0, 9, 0x02, 0x60, 0x04, 0xf4,
    ];
    let (header, end) = Request::decode(&bytes, 0, false).unwrap();
    assert_eq!(end, bytes.len());
    assert_eq!(u32::from(header.id()), 9);
}

#[test]
fn request_wrong_tag() {
    let (response, _) = ockam_api::Response::ok(Id::new(1)).into_parts();
    let mut buf = Vec::new();
    response.encode(&mut buf, true).unwrap();
    assert_eq!(
        Request::decode(&buf, 0, true).err(),
        Some(DecodeError::TagMismatch { expected: 7586022, found: 9750358 })
    );
}

#[test]
fn request_tag_is_skipped_where_tags_are_not_in_use() {
    let bytes = encoded(|e| {
        e.map(4).unwrap();
        e.u8(0).unwrap().str("not even a number").unwrap();
        e.u8(1).unwrap().u32(7).unwrap();
        e.u8(2).unwrap().str("/p").unwrap();
        e.u8(4).unwrap().bool(false).unwrap();
    });
    let (header, end) = Request::decode(&bytes, 0, false).unwrap();
    assert_eq!(end, bytes.len());
    assert_eq!(header.path(), "/p");
    assert_eq!(
        Request::decode(&bytes, 0, true).err(),
        Some(DecodeError::Malformed { at: 2 })
    );
}

#[test]
fn request_tag_error_comes_before_later_errors() {
    let bytes = encoded(|e| {
        e.map(2).unwrap();
        e.u8(0).unwrap().u64(12).unwrap();
        e.u8(1).unwrap().str("no id").unwrap();
    });
    assert_eq!(
        Request::decode(&bytes, 0, true).err(),
        Some(DecodeError::TagMismatch { expected: 7586022, found: 12 })
    );
}

#[test]
fn request_without_tag_is_read_where_tags_are_in_use() {
    let mut buf = Vec::new();
    sample().encode(&mut buf, false).unwrap();
    let (header, end) = Request::decode(&buf, 0, true).unwrap();
    assert_eq!(end, buf.len());
    assert_eq!(header.path(), "/a");
    assert_eq!(header.method(), Some(Method::Get));
}

#[test]
fn request_decode_at_a_position() {
    let mut buf = vec![0xff, 0xff, 0xff];
    sample().encode(&mut buf, true).unwrap();
    buf.push(0x00);
    let (header, end) = Request::decode(&buf, 3, true).unwrap();
    assert_eq!(end, buf.len() - 1);
    assert_eq!(header.path(), "/a");
}

#[test]
fn request_new_keeps_its_arguments() {
    let header = Request::new(Method::Delete, String::from("/owned"), true);
    assert_eq!(header.method(), Some(Method::Delete));
    assert_eq!(header.path(), "/owned");
    assert!(header.has_body());
    let copy = header.clone();
    assert_eq!(copy.path(), "/owned");
    assert_eq!(u32::from(copy.id()), u32::from(header.id()));
}

#[test]
fn request_constructors_fix_the_method() {
    assert_eq!(Request::get("/").header().method(), Some(Method::Get));
    assert_eq!(Request::post("/").header().method(), Some(Method::Post));
    assert_eq!(Request::put("/").header().method(), Some(Method::Put));
    assert_eq!(Request::delete("/").header().method(), Some(Method::Delete));
    assert_eq!(Request::patch("/").header().method(), Some(Method::Patch));
    assert!(!Request::get("/").header().has_body());
}

#[test]
fn request_builder_setters() {
    let builder = Request::get("/old")
        .id(Id::new(3))
        .path(String::from("/new"))
        .method(Method::Put);
    assert_eq!(u32::from(builder.header().id()), 3);
    assert_eq!(builder.header().path(), "/new");
    assert_eq!(builder.header().method(), Some(Method::Put));
    let (header, body) = builder.into_parts();
    assert!(!header.has_body());
    assert_eq!(body, None);
}

#[test]
fn request_builder_body_sets_has_body() {
    let builder = Request::post("/p").body(CowStr::from("payload"));
    assert!(builder.header().has_body());
    let (header, body) = builder.into_parts();
    assert!(header.has_body());
    assert_eq!(body, Some(CowStr::from("payload")));
}

#[test]
fn request_builder_without_body_writes_the_header_only() {
    let builder = Request::get("/a").id(Id::new(1));
    let mut buf = Vec::new();
    builder.encode(&mut buf, false).unwrap();
    let (header, end) = Request::decode(&buf, 0, false).unwrap();
    assert!(!header.has_body());
    assert_eq!(end, buf.len());
    assert_eq!(
        buf,
        vec![0xa4, 0x01, 0x01, 0x02, 0x62, 0x2f, 0x61, 0x03, 0x00, 0x04, 0xf4]
    );
}

#[test]
fn request_get_nodes_with_unit_body() {
    let mut buf = Vec::new();
    Request::get("/nodes").body(()).encode(&mut buf, false).unwrap();
    let (header, end) = Request::decode(&buf, 0, false).unwrap();
    assert_eq!(header.method(), Some(Method::Get));
    assert_eq!(header.path(), "/nodes");
    assert!(header.has_body());
    assert_eq!(&buf[end..], &[0x80]);
    let mut d = minicbor::Decoder::new(&buf);
    d.set_position(end);
    assert!(d.decode::<()>().is_ok());
    assert_eq!(d.position(), buf.len());
}

#[test]
fn request_with_an_error_as_body() {
    let body = ockam_api::Error::new("/nodes").with_message("busy");
    let mut buf = Vec::new();
    Request::post("/nodes").body(body).encode(&mut buf, true).unwrap();
    let (header, end) = Request::decode(&buf, 0, true).unwrap();
    assert!(header.has_body());
    let (body, rest) = ockam_api::Error::decode(&buf, end, true).unwrap();
    assert_eq!(rest, buf.len());
    assert_eq!(body.path(), "/nodes");
    assert_eq!(body.message(), Some("busy"));
}

struct Refusing;

impl Encode for Refusing {
    fn encode(&self, buf: &mut Vec<u8>, _tagged: bool) -> Result<(), EncodeError> {
        buf.push(0x01);
        Err(EncodeError { message: String::from("refused") })
    }
}

#[test]
fn request_body_error_is_handed_on() {
    let mut buf = vec![0x00];
    let r = Request::get("/a").id(Id::new(1)).body(Refusing).encode(&mut buf, false);
    assert_eq!(r, Err(EncodeError { message: String::from("refused") }));
    assert_eq!(
        &buf[..12],
        &[0x00, 0xa4, 0x01, 0x01, 0x02, 0x62, 0x2f, 0x61, 0x03, 0x00, 0x04, 0xf5]
    );
}

#[test]
fn request_path_segments() {
    let (header, _) = Request::get("/nodes/7/vaults/3").into_parts();
    assert_eq!(header.path_segments::<2>().as_slice(), ["nodes", "7/vaults/3"]);
    assert_eq!(header.path_segments::<8>().as_slice(), ["nodes", "7", "vaults", "3"]);
}
