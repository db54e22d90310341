use dataset_store::codec::{
    decode_dataset, decode_datasets, decode_item, decode_items, encode_dataset, encode_item,
};
use dataset_store::error::StoreError;
use dataset_store::keys::{make_item_key, make_item_prefix};
use dataset_store::record::{Dataset, DatasetItem, Timestamp};

fn item(id: &str, dataset_id: &str, item_name: &str, item_type: &str) -> DatasetItem {
    DatasetItem {
        id: id.to_string(),
        dataset_id: dataset_id.to_string(),
        item_name: item_name.to_string(),
        item_type: item_type.to_string(),
    }
}

fn dataset(id: &str, name: &str, file_path: Option<&str>, c: (i64, u32), u: (i64, u32)) -> Dataset {
    Dataset {
        id: id.to_string(),
        name: name.to_string(),
        file_path: file_path.map(|p| p.to_string()),
        create_time: Timestamp { secs: c.0, nanos: c.1 },
        update_time: Timestamp { secs: u.0, nanos: u.1 },
    }
}

#[test]
fn item_bytes_are_four_counted_strings() {
    let bytes = encode_item(&item("a", "bc", "", "é")).unwrap();
    let expected: Vec<u8> = vec![
        1, 0, 0, 0, 0, 0, 0, 0, b'a', //
        2, 0, 0, 0, 0, 0, 0, 0, b'b', b'c', //
        0, 0, 0, 0, 0, 0, 0, 0, //
        2, 0, 0, 0, 0, 0, 0, 0, 0xc3, 0xa9,
    ];
    assert_eq!(bytes, expected);
}

#[test]
fn dataset_bytes_hold_the_path_and_both_times() {
    let d = dataset("i", "n", Some("p"), (1, 2), (-1, 0x01020304));
    let bytes = encode_dataset(&d).unwrap();
    let expected: Vec<u8> = vec![
        1, 0, 0, 0, 0, 0, 0, 0, b'i', //
        1, 0, 0, 0, 0, 0, 0, 0, b'n', //
        1, 1, 0, 0, 0, 0, 0, 0, 0, b'p', //
        1, 0, 0, 0, 0, 0, 0, 0, 2, 0, 0, 0, //
        255, 255, 255, 255, 255, 255, 255, 255, 4, 3, 2, 1,
    ];
    assert_eq!(bytes, expected);
}

#[test]
fn dataset_bytes_without_a_path_hold_a_zero() {
    let d = dataset("i", "n", None, (0, 0), (0, 0));
    let bytes = encode_dataset(&d).unwrap();
    assert_eq!(bytes.len(), 9 + 9 + 1 + 12 + 12);
    assert_eq!(bytes[18], 0);
}

#[test]
fn item_comes_back_as_it_was_written() {
    let items = [
        item("", "", "", ""),
        item("3f2b", "9a71", "用户ID", "int"),
        item("a:b", "c:d", "with\nnewline", "with\0zero"),
        item("😀", "\u{10ffff}", "\u{7f}\u{80}", "\u{7ff}\u{800}\u{ffff}"),
    ];
    for it in items {
        let bytes = encode_item(&it).unwrap();
        assert_eq!(decode_item(&bytes), Ok(it));
    }
}

#[test]
fn dataset_comes_back_as_it_was_written() {
    let datasets = [
        dataset("", "", None, (0, 0), (0, 0)),
        dataset("id", "用户信息数据集", Some("./uploads/user.csv"), (1_700_000_000, 123_456_789), (1_700_000_001, 0)),
        dataset("id", "name", Some(""), (i64::MIN, u32::MAX), (i64::MAX, 0)),
        dataset("id", "name", None, (-1, 1_999_999_999), (1, 1)),
    ];
    for d in datasets {
        let bytes = encode_dataset(&d).unwrap();
        assert_eq!(decode_dataset(&bytes), Ok(d));
    }
}

#[test]
fn bytes_after_a_record_are_not_looked_at() {
    let it = item("a", "b", "c", "d");
    let mut bytes = encode_item(&it).unwrap();
    bytes.extend_from_slice(&[7, 7, 7]);
    assert_eq!(decode_item(&bytes), Ok(it));
    let d = dataset("a", "b", None, (1, 1), (2, 2));
    let mut bytes = encode_dataset(&d).unwrap();
    bytes.push(0);
    assert_eq!(decode_dataset(&bytes), Ok(d));
}

#[test]
fn short_bytes_are_no_record() {
    let it = item("a", "b", "c", "d");
    let bytes = encode_item(&it).unwrap();
    for n in 0..bytes.len() {
        assert_eq!(decode_item(&bytes[..n]), Err(StoreError::CorruptRecord));
    }
    let d = dataset("a", "b", Some("c"), (1, 1), (2, 2));
    let bytes = encode_dataset(&d).unwrap();
    for n in 0..bytes.len() {
        assert_eq!(decode_dataset(&bytes[..n]), Err(StoreError::CorruptRecord));
    }
}

#[test]
fn bytes_that_are_no_text_are_no_record() {
    let mut bytes = encode_item(&item("a", "b", "c", "d")).unwrap();
    bytes[8] = 0xff;
    assert_eq!(decode_item(&bytes), Err(StoreError::CorruptRecord));
    let overlong = vec![2, 0, 0, 0, 0, 0, 0, 0, 0xc0, 0x80];
    let mut bytes = overlong.clone();
    for _ in 0..3 {
        bytes.extend_from_slice(&[0, 0, 0, 0, 0, 0, 0, 0]);
    }
    assert_eq!(decode_item(&bytes), Err(StoreError::CorruptRecord));
    let surrogate = vec![3, 0, 0, 0, 0, 0, 0, 0, 0xed, 0xa0, 0x80];
    let mut bytes = surrogate.clone();
    for _ in 0..3 {
        bytes.extend_from_slice(&[0, 0, 0, 0, 0, 0, 0, 0]);
    }
    assert_eq!(decode_item(&bytes), Err(StoreError::CorruptRecord));
}

#[test]
fn a_count_past_the_end_is_no_record() {
    let mut bytes = vec![255u8; 8];
    bytes.extend_from_slice(&[b'a'; 40]);
    assert_eq!(decode_item(&bytes), Err(StoreError::CorruptRecord));
    assert_eq!(decode_dataset(&bytes), Err(StoreError::CorruptRecord));
}

#[test]
fn a_path_mark_other_than_zero_or_one_is_no_record() {
    let d = dataset("i", "n", None, (0, 0), (0, 0));
    let mut bytes = encode_dataset(&d).unwrap();
    assert_eq!(bytes[18], 0);
    bytes[18] = 2;
    assert_eq!(decode_dataset(&bytes), Err(StoreError::CorruptRecord));
}

#[test]
fn an_item_is_no_dataset() {
    let bytes = encode_item(&item("a", "b", "", "")).unwrap();
    assert_eq!(decode_dataset(&bytes), Err(StoreError::CorruptRecord));
}

#[test]
fn entries_are_read_in_their_order() {
    let a = item("1", "d", "one", "int");
    let b = item("2", "d", "two", "int");
    let pairs = vec![
        (b"d:1".to_vec(), encode_item(&a).unwrap()),
        (b"d:2".to_vec(), encode_item(&b).unwrap()),
    ];
    assert_eq!(decode_items(&pairs), Ok(vec![a.clone(), b]));
    assert_eq!(decode_items(&vec![]), Ok(vec![]));
    let broken = vec![(b"d:1".to_vec(), encode_item(&a).unwrap()), (b"d:2".to_vec(), vec![1, 2])];
    assert_eq!(decode_items(&broken), Err(StoreError::CorruptRecord));

    let x = dataset("x", "X", None, (1, 0), (1, 0));
    let y = dataset("y", "Y", Some("p"), (2, 0), (2, 0));
    let pairs = vec![
        (b"x".to_vec(), encode_dataset(&x).unwrap()),
        (b"y".to_vec(), encode_dataset(&y).unwrap()),
    ];
    assert_eq!(decode_datasets(&pairs), Ok(vec![x.clone(), y]));
    assert_eq!(decode_datasets(&vec![]), Ok(vec![]));
    let broken = vec![(b"x".to_vec(), vec![]), (b"y".to_vec(), encode_dataset(&x).unwrap())];
    assert_eq!(decode_datasets(&broken), Err(StoreError::CorruptRecord));
}

#[test]
fn item_key_is_both_ids_with_a_colon_between() {
    assert_eq!(make_item_key("ab", "cd"), b"ab:cd".to_vec());
    assert_eq!(make_item_key("", ""), b":".to_vec());
    assert_eq!(make_item_key("数据", "é"), "数据:é".as_bytes().to_vec());
    assert_eq!(make_item_prefix("ab"), b"ab:".to_vec());
    assert_eq!(make_item_prefix(""), b":".to_vec());
    let key = make_item_key("3f2b", "9a71");
    assert!(key.starts_with(&make_item_prefix("3f2b")));
}
