use aeternity_signer::rlp::{RlpError, RlpItem};

fn bytes(b: &[u8]) -> RlpItem {
    RlpItem::ByteString(b.to_vec())
}

#[test]
fn single_byte_is_its_own_encoding() {
    let (item, rest) = RlpItem::try_deserialize(&[0x05]).unwrap();
    assert_eq!(item, bytes(&[0x05]));
    assert!(rest.is_empty());
    let (item, rest) = RlpItem::try_deserialize(&[0x7f]).unwrap();
    assert_eq!(item, bytes(&[0x7f]));
    assert!(rest.is_empty());
    let (item, rest) = RlpItem::try_deserialize(&[0x00]).unwrap();
    assert_eq!(item, bytes(&[0x00]));
    assert!(rest.is_empty());
}

#[test]
fn short_string_is_decoded() {
    let (item, rest) = RlpItem::try_deserialize(&[0x83, b'd', b'o', b'g']).unwrap();
    assert_eq!(item, bytes(b"dog"));
    assert!(rest.is_empty());
    let (item, rest) = RlpItem::try_deserialize(&[0x80]).unwrap();
    assert_eq!(item, bytes(&[]));
    assert!(rest.is_empty());
    let (item, _) = RlpItem::try_deserialize(&[0x81, 0x80]).unwrap();
    assert_eq!(item, bytes(&[0x80]));
}

#[test]
fn long_string_is_decoded() {
    let payload: Vec<u8> = (0..60).collect();
    let mut encoded = vec![0xb8, 0x3c];
    encoded.extend_from_slice(&payload);
    let (item, rest) = RlpItem::try_deserialize(&encoded).unwrap();
    assert_eq!(item, RlpItem::ByteString(payload));
    assert!(rest.is_empty());

    let payload = vec![0xabu8; 0x0123];
    let mut encoded = vec![0xb9, 0x01, 0x23];
    encoded.extend_from_slice(&payload);
    encoded.push(0xee);
    let (item, rest) = RlpItem::try_deserialize(&encoded).unwrap();
    assert_eq!(item, RlpItem::ByteString(payload));
    assert_eq!(rest, &[0xee]);
}

#[test]
fn lists_are_decoded() {
    let (item, rest) = RlpItem::try_deserialize(&[0xc0]).unwrap();
    assert_eq!(item, RlpItem::List(vec![]));
    assert!(rest.is_empty());

    let encoded = [0xc8, 0x83, b'c', b'a', b't', 0x83, b'd', b'o', b'g'];
    let (item, rest) = RlpItem::try_deserialize(&encoded).unwrap();
    assert_eq!(item, RlpItem::List(vec![bytes(b"cat"), bytes(b"dog")]));
    assert!(rest.is_empty());
}

#[test]
fn nested_lists_are_decoded() {
    let encoded = [0xc7, 0xc0, 0xc1, 0xc0, 0xc3, 0xc0, 0xc1, 0xc0];
    let (item, rest) = RlpItem::try_deserialize(&encoded).unwrap();
    let empty = || RlpItem::List(vec![]);
    assert_eq!(
        item,
        RlpItem::List(vec![
            empty(),
            RlpItem::List(vec![empty()]),
            RlpItem::List(vec![empty(), RlpItem::List(vec![empty()])]),
        ])
    );
    assert!(rest.is_empty());
}

#[test]
fn long_list_is_decoded() {
    let mut encoded = vec![0xf8, 0x3c];
    for i in 0..60u8 {
        encoded.push(i);
    }
    let (item, rest) = RlpItem::try_deserialize(&encoded).unwrap();
    let expected: Vec<RlpItem> = (0..60u8).map(|i| bytes(&[i])).collect();
    assert_eq!(item, RlpItem::List(expected));
    assert!(rest.is_empty());
}

#[test]
fn unconsumed_suffix_is_returned_exactly() {
    let (item, rest) = RlpItem::try_deserialize(&[0x05, 0x06, 0x07]).unwrap();
    assert_eq!(item, bytes(&[0x05]));
    assert_eq!(rest, &[0x06, 0x07]);

    let (item, rest) = RlpItem::try_deserialize(&[0x82, 1, 2, 0xc0, 0xff]).unwrap();
    assert_eq!(item, bytes(&[1, 2]));
    assert_eq!(rest, &[0xc0, 0xff]);

    let (item, rest) = RlpItem::try_deserialize(&[0xc2, 0x01, 0x02, 0x83]).unwrap();
    assert_eq!(item, RlpItem::List(vec![bytes(&[1]), bytes(&[2])]));
    assert_eq!(rest, &[0x83]);
}

#[test]
fn empty_buffer_is_malformed() {
    assert_eq!(RlpItem::try_deserialize(&[]).unwrap_err(), RlpError::MalformedEncoding);
}

#[test]
fn string_longer_than_the_buffer_is_malformed() {
    assert_eq!(
        RlpItem::try_deserialize(&[0x83, b'd', b'o']).unwrap_err(),
        RlpError::MalformedEncoding
    );
    assert_eq!(RlpItem::try_deserialize(&[0x81]).unwrap_err(), RlpError::MalformedEncoding);
    assert_eq!(RlpItem::try_deserialize(&[0xb7]).unwrap_err(), RlpError::MalformedEncoding);
}

#[test]
fn list_longer_than_the_buffer_is_malformed() {
    assert_eq!(RlpItem::try_deserialize(&[0xc1]).unwrap_err(), RlpError::MalformedEncoding);
    assert_eq!(
        RlpItem::try_deserialize(&[0xc3, 0x01, 0x02]).unwrap_err(),
        RlpError::MalformedEncoding
    );
    assert_eq!(
        RlpItem::try_deserialize(&[0xf8, 0x3c, 0x01]).unwrap_err(),
        RlpError::MalformedEncoding
    );
}

#[test]
fn length_of_length_longer_than_the_buffer_is_malformed() {
    assert_eq!(RlpItem::try_deserialize(&[0xb8]).unwrap_err(), RlpError::MalformedEncoding);
    assert_eq!(RlpItem::try_deserialize(&[0xb9, 0x01]).unwrap_err(), RlpError::MalformedEncoding);
    assert_eq!(RlpItem::try_deserialize(&[0xf9, 0x00]).unwrap_err(), RlpError::MalformedEncoding);
    assert_eq!(
        RlpItem::try_deserialize(&[0xbf, 1, 2, 3, 4, 5, 6, 7]).unwrap_err(),
        RlpError::MalformedEncoding
    );
}

#[test]
fn huge_declared_length_is_malformed() {
    let encoded = [0xbf, 0xff, 0xff, 0xff, 0xff, 0xff, 0xff, 0xff, 0xff, 0x00];
    assert_eq!(RlpItem::try_deserialize(&encoded).unwrap_err(), RlpError::MalformedEncoding);
    let encoded = [0xff, 0x80, 0, 0, 0, 0, 0, 0, 0, 0x00];
    assert_eq!(RlpItem::try_deserialize(&encoded).unwrap_err(), RlpError::MalformedEncoding);
}

#[test]
fn item_that_runs_over_its_list_is_malformed() {
    // The list takes two bytes, its one item announces three.
    let encoded = [0xc2, 0x83, b'a', b'b', b'c'];
    assert_eq!(RlpItem::try_deserialize(&encoded).unwrap_err(), RlpError::MalformedEncoding);
    let encoded = [0xc1, 0xc1, 0xc0];
    assert_eq!(RlpItem::try_deserialize(&encoded).unwrap_err(), RlpError::MalformedEncoding);
}

#[test]
fn list_accessor_matches_shape() {
    let list = RlpItem::List(vec![bytes(&[1])]);
    assert_eq!(list.list().unwrap(), &vec![bytes(&[1])]);
    assert_eq!(bytes(&[1]).list().unwrap_err(), RlpError::NotAList);
}

#[test]
fn byte_array_accessor_matches_shape() {
    assert_eq!(bytes(&[1, 2, 3]).byte_array().unwrap(), &vec![1, 2, 3]);
    assert_eq!(RlpItem::List(vec![]).byte_array().unwrap_err(), RlpError::NotAByteString);
}

#[test]
fn integer_accessor_matches_shape() {
    assert_eq!(bytes(&[0x0c]).to_u8().unwrap(), 0x0c);
    assert_eq!(bytes(&[0xff]).to_u8().unwrap(), 0xff);
    assert_eq!(bytes(&[]).to_u8().unwrap_err(), RlpError::NotAnInteger);
    assert_eq!(bytes(&[1, 2]).to_u8().unwrap_err(), RlpError::NotAnInteger);
    assert_eq!(RlpItem::List(vec![]).to_u8().unwrap_err(), RlpError::NotAnInteger);
}
