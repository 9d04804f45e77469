use ockam_api::{CowBytes, CowStr, DecodeError, Encode, Id, Method, Status, TypeTag};
use std::borrow::Cow;

#[test]
fn id_as_text() {
    assert_eq!(Id::new(42).to_string(), "0000002a");
    assert_eq!(Id::new(0).to_string(), "00000000");
    assert_eq!(Id::new(0xdead_beef).to_string(), "deadbeef");
    assert_eq!(Id::new(u32::MAX).to_string(), "ffffffff");
    assert_eq!(Id::new(0x0012_3400).to_string(), "00123400");
}

#[test]
fn id_to_number() {
    assert_eq!(u32::from(Id::new(7)), 7);
    let n: u32 = Id::new(u32::MAX).into();
    assert_eq!(n, u32::MAX);
}

#[test]
fn id_order_is_that_of_the_numbers() {
    assert!(Id::new(1) < Id::new(2));
    assert_eq!(Id::new(5), Id::new(5));
    assert_ne!(Id::new(5), Id::new(6));
}

#[test]
fn id_fresh_varies() {
    let first = Id::fresh();
    let mut differs = false;
    for _ in 0..64 {
        if Id::fresh() != first {
            differs = true;
        }
    }
    assert!(differs);
}

#[test]
fn method_codes() {
    assert_eq!(Method::Get.code(), 0);
    assert_eq!(Method::Post.code(), 1);
    assert_eq!(Method::Put.code(), 2);
    assert_eq!(Method::Delete.code(), 3);
    assert_eq!(Method::Patch.code(), 4);
}

#[test]
fn method_from_code() {
    assert_eq!(Method::from_code(0), Some(Method::Get));
    assert_eq!(Method::from_code(1), Some(Method::Post));
    assert_eq!(Method::from_code(2), Some(Method::Put));
    assert_eq!(Method::from_code(3), Some(Method::Delete));
    assert_eq!(Method::from_code(4), Some(Method::Patch));
    assert_eq!(Method::from_code(5), None);
    assert_eq!(Method::from_code(u64::MAX), None);
}

#[test]
fn status_codes() {
    assert_eq!(Status::Okay.code(), 200);
    assert_eq!(Status::BadRequest.code(), 400);
    assert_eq!(Status::Unauthorized.code(), 401);
    assert_eq!(Status::NotFound.code(), 404);
    assert_eq!(Status::MethodNotAllowed.code(), 405);
    assert_eq!(Status::InternalServerError.code(), 500);
    assert_eq!(Status::NotImplemented.code(), 501);
}

#[test]
fn status_from_code() {
    for status in [
        Status::Okay,
        Status::BadRequest,
        Status::Unauthorized,
        Status::NotFound,
        Status::MethodNotAllowed,
        Status::InternalServerError,
        Status::NotImplemented,
    ] {
        assert_eq!(Status::from_code(status.code()), Some(status));
    }
    assert_eq!(Status::from_code(0), None);
    assert_eq!(Status::from_code(201), None);
    assert_eq!(Status::from_code(502), None);
}

#[test]
fn type_tag_number() {
    assert_eq!(TypeTag::<7586022>::number(), 7586022);
    assert_eq!(TypeTag::<0>::number(), 0);
}

#[test]
fn type_tag_encode() {
    let mut buf = vec![0xaa];
    TypeTag::<7586022>.encode(&mut buf);
    assert_eq!(buf, vec![0xaa, 0x1a, 0x00, 0x73, 0xc0, 0xe6]);
    let mut buf = Vec::new();
    TypeTag::<5>.encode(&mut buf);
    assert_eq!(buf, vec![0x05]);
    let mut buf = Vec::new();
    TypeTag::<24>.encode(&mut buf);
    assert_eq!(buf, vec![0x18, 0x18]);
    let mut buf = Vec::new();
    TypeTag::<256>.encode(&mut buf);
    assert_eq!(buf, vec![0x19, 0x01, 0x00]);
    let mut buf = Vec::new();
    TypeTag::<23>.encode(&mut buf);
    assert_eq!(buf, vec![0x17]);
    let mut buf = Vec::new();
    TypeTag::<255>.encode(&mut buf);
    assert_eq!(buf, vec![0x18, 0xff]);
    let mut buf = Vec::new();
    TypeTag::<65535>.encode(&mut buf);
    assert_eq!(buf, vec![0x19, 0xff, 0xff]);
    let mut buf = Vec::new();
    TypeTag::<65536>.encode(&mut buf);
    assert_eq!(buf, vec![0x1a, 0x00, 0x01, 0x00, 0x00]);
    let mut buf = Vec::new();
    TypeTag::<0xffff_ffff>.encode(&mut buf);
    assert_eq!(buf, vec![0x1a, 0xff, 0xff, 0xff, 0xff]);
}

#[test]
fn schema_names_the_tags() {
    assert!(ockam_api::SCHEMA.contains("request  = { ?0: 7586022"));
    assert!(ockam_api::SCHEMA.contains("response = { ?0: 9750358"));
    assert!(ockam_api::SCHEMA.contains("error    = { ?0: 5359172"));
}

#[test]
fn type_tag_as_a_body() {
    let mut buf = vec![0x00];
    Encode::encode(&TypeTag::<7586022>, &mut buf, false).unwrap();
    assert_eq!(buf, vec![0x00, 0x1a, 0x00, 0x73, 0xc0, 0xe6]);
}

#[test]
fn type_tag_decode() {
    let bytes = [0xff, 0x1a, 0x00, 0x73, 0xc0, 0xe6];
    let (_, end) = TypeTag::<7586022>::decode(&bytes, 1).unwrap();
    assert_eq!(end, 6);
    assert_eq!(
        TypeTag::<9750358>::decode(&bytes, 1).err(),
        Some(DecodeError::TagMismatch { expected: 9750358, found: 7586022 })
    );
    assert_eq!(
        TypeTag::<7586022>::decode(&bytes, 0).err(),
        Some(DecodeError::Malformed { at: 0 })
    );
    assert_eq!(
        TypeTag::<7586022>::decode(&bytes, 6).err(),
        Some(DecodeError::Malformed { at: 6 })
    );
    assert_eq!(
        TypeTag::<7586022>::decode(&bytes[..4], 1).err(),
        Some(DecodeError::Malformed { at: 1 })
    );
}

#[test]
fn type_tag_decode_of_a_wide_argument() {
    let bytes = [0x1b, 0, 0, 0, 0, 0, 0, 0, 3];
    let (_, end) = TypeTag::<3>::decode(&bytes, 0).unwrap();
    assert_eq!(end, 9);
    let bytes = [0x1b, 0xff, 0xff, 0xff, 0xff, 0xff, 0xff, 0xff, 0xff];
    assert_eq!(
        TypeTag::<3>::decode(&bytes, 0).err(),
        Some(DecodeError::TagMismatch { expected: 3, found: u64::MAX })
    );
}

#[test]
fn unit_is_an_empty_array() {
    let mut buf = vec![0x01];
    ().encode(&mut buf, true).unwrap();
    assert_eq!(buf, vec![0x01, 0x80]);
}

#[test]
fn cow_str_decodes_borrowed() {
    let bytes = [0x00, 0x63, 0x61, 0x62, 0x63, 0x00];
    let (text, end) = CowStr::decode(&bytes, 1).unwrap();
    assert_eq!(end, 5);
    assert!(text.is_borrowed());
    assert_eq!(text.as_str(), "abc");
    assert_eq!(text.as_str().as_ptr(), bytes[2..].as_ptr());
}

#[test]
fn cow_str_decode_refuses_what_is_no_text() {
    assert_eq!(
        CowStr::decode(&[0x43, 0x61, 0x62, 0x63], 0).err(),
        Some(DecodeError::Malformed { at: 0 })
    );
    assert_eq!(
        CowStr::decode(&[0x63, 0x61, 0x62], 0).err(),
        Some(DecodeError::Malformed { at: 0 })
    );
    assert_eq!(
        CowStr::decode(&[0x61, 0x80], 0).err(),
        Some(DecodeError::Malformed { at: 0 })
    );
    assert_eq!(
        CowStr::decode(&[0x7f, 0x61, 0x61, 0xff], 0).err(),
        Some(DecodeError::Malformed { at: 0 })
    );
    assert_eq!(CowStr::decode(&[], 0).err(), Some(DecodeError::Malformed { at: 0 }));
}

#[test]
fn cow_str_owned_copy_is_independent() {
    let mut buf = vec![0x62, 0x68, 0x69];
    let owned = {
        let (text, _) = CowStr::decode(&buf, 0).unwrap();
        let owned = text.to_owned();
        assert!(!owned.is_borrowed());
        assert_eq!(owned, text);
        owned
    };
    buf[1] = 0x6f;
    assert_eq!(owned.as_str(), "hi");
    let mut string = owned.into_owned();
    string.push('!');
    assert_eq!(string, "hi!");
    assert_eq!(buf, vec![0x62, 0x6f, 0x69]);
}

#[test]
fn cow_str_conversions() {
    let borrowed = CowStr::from("abc");
    assert!(borrowed.is_borrowed());
    let owned = CowStr::from(String::from("abc"));
    assert!(!owned.is_borrowed());
    assert_eq!(borrowed, owned);
    assert_eq!(borrowed.clone().into_owned(), "abc");
    assert!(borrowed.clone().is_borrowed());
    let cow: Cow<'_, str> = owned.into();
    assert_eq!(cow, "abc");
    assert_eq!(borrowed.len(), 3);
    let mut text = CowStr::from("ab");
    text.to_mut().push('c');
    assert_eq!(text.as_str(), "abc");
    assert!(!text.is_borrowed());
}

#[test]
fn cow_str_encode() {
    let mut buf = Vec::new();
    CowStr::from("é").encode(&mut buf, false).unwrap();
    assert_eq!(buf, vec![0x62, 0xc3, 0xa9]);
    let long = "y".repeat(300);
    let mut buf = Vec::new();
    CowStr::from(long.as_str()).encode(&mut buf, false).unwrap();
    assert_eq!(&buf[..3], &[0x79, 0x01, 0x2c]);
    let (back, end) = CowStr::decode(&buf, 0).unwrap();
    assert_eq!(end, 303);
    assert_eq!(back.as_str(), long);
}

#[test]
fn cow_bytes_decodes_borrowed() {
    let bytes = [0x43, 0x01, 0x02, 0x03, 0x09];
    let (octets, end) = CowBytes::decode(&bytes, 0).unwrap();
    assert_eq!(end, 4);
    assert!(octets.is_borrowed());
    assert_eq!(octets.as_slice(), [1, 2, 3]);
    assert_eq!(octets.as_slice().as_ptr(), bytes[1..].as_ptr());
}

#[test]
fn cow_bytes_decode_refuses_what_is_no_byte_string() {
    assert_eq!(
        CowBytes::decode(&[0x63, 0x61, 0x62, 0x63], 0).err(),
        Some(DecodeError::Malformed { at: 0 })
    );
    assert_eq!(
        CowBytes::decode(&[0x43, 0x61, 0x62], 0).err(),
        Some(DecodeError::Malformed { at: 0 })
    );
    assert_eq!(
        CowBytes::decode(&[0x5f, 0x41, 0x61, 0xff], 0).err(),
        Some(DecodeError::Malformed { at: 0 })
    );
}

#[test]
fn cow_bytes_owned_copy_is_independent() {
    let mut buf = vec![0x42, 0x01, 0x02];
    let owned = {
        let (octets, _) = CowBytes::decode(&buf, 0).unwrap();
        let owned = octets.to_owned();
        assert!(!owned.is_borrowed());
        assert_eq!(owned, octets);
        owned
    };
    buf[1] = 0x09;
    assert_eq!(owned.as_slice(), [1, 2]);
    let mut vec = owned.into_owned();
    vec[0] = 7;
    assert_eq!(vec, vec![7, 2]);
    assert_eq!(buf, vec![0x42, 0x09, 0x02]);
}

#[test]
fn cow_bytes_conversions() {
    let data = [1u8, 2, 3];
    let borrowed = CowBytes::from(&data[..]);
    assert!(borrowed.is_borrowed());
    let owned = CowBytes::from(vec![1u8, 2, 3]);
    assert!(!owned.is_borrowed());
    assert_eq!(borrowed, owned);
    assert_eq!(borrowed.clone().into_owned(), vec![1, 2, 3]);
    let cow: Cow<'_, [u8]> = owned.into();
    assert_eq!(&*cow, &[1, 2, 3]);
    assert_eq!(borrowed.len(), 3);
    let mut octets = CowBytes::from(&data[..]);
    octets.to_mut().push(4);
    assert_eq!(octets.as_slice(), [1, 2, 3, 4]);
}

#[test]
fn cow_bytes_encode() {
    let mut buf = Vec::new();
    CowBytes::from(vec![0xffu8; 24]).encode(&mut buf, true).unwrap();
    assert_eq!(&buf[..2], &[0x58, 0x18]);
    assert_eq!(buf.len(), 26);
    let (back, end) = CowBytes::decode(&buf, 0).unwrap();
    assert_eq!(end, 26);
    assert_eq!(back.as_slice(), [0xffu8; 24]);
}

#[test]
fn id_on_the_wire() {
    let mut buf = Vec::new();
    Id::new(500).encode(&mut buf, false).unwrap();
    assert_eq!(buf, vec![0x19, 0x01, 0xf4]);
    assert_eq!(Id::decode(&buf, 0), Ok((Id::new(500), 3)));
    assert_eq!(Id::decode(&buf, 1), Ok((Id::new(1), 2)));
    assert_eq!(Id::decode(&buf, 3), Err(DecodeError::Malformed { at: 3 }));
    assert_eq!(
        Id::decode(&[0x1b, 0, 0, 0, 1, 0, 0, 0, 0], 0),
        Err(DecodeError::Malformed { at: 0 })
    );
    assert_eq!(Id::decode(&[0x20], 0), Err(DecodeError::Malformed { at: 0 }));
}

#[test]
fn method_on_the_wire() {
    let mut buf = Vec::new();
    Method::Patch.encode(&mut buf, true).unwrap();
    assert_eq!(buf, vec![0x04]);
    assert_eq!(Method::decode(&buf, 0), Ok((Some(Method::Patch), 1)));
    assert_eq!(Method::decode(&[0x18, 0x63], 0), Ok((None, 2)));
    assert_eq!(Method::decode(&[0xf6], 0), Err(DecodeError::Malformed { at: 0 }));
}

#[test]
fn status_on_the_wire() {
    let mut buf = Vec::new();
    Status::InternalServerError.encode(&mut buf, true).unwrap();
    assert_eq!(buf, vec![0x19, 0x01, 0xf4]);
    assert_eq!(Status::decode(&buf, 0), Ok((Some(Status::InternalServerError), 3)));
    assert_eq!(Status::decode(&[0x19, 0x01, 0xa2], 0), Ok((None, 3)));
    assert_eq!(Status::decode(&[0x19, 0x01], 0), Err(DecodeError::Malformed { at: 0 }));
}
