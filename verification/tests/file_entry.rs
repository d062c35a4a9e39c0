use indexer_stream::file_entry::{transactions_from_record, FileEntry};
use indexer_stream::file_store::StorageFormat;
use indexer_stream::storage_format::{decode_storage, encode_storage};
use indexer_stream::transaction::Transaction;
use indexer_stream::uploader::FileStoreUploader;
use indexer_stream::varint::{read_varint, write_varint};

fn varint_of(n: u64) -> Vec<u8> {
    let mut buf = Vec::new();
    write_varint(&mut buf, n);
    buf
}

#[test]
fn numbers_in_base_128() {
    assert_eq!(varint_of(0), vec![0]);
    assert_eq!(varint_of(1), vec![1]);
    assert_eq!(varint_of(127), vec![127]);
    assert_eq!(varint_of(128), vec![0x80, 0x01]);
    assert_eq!(varint_of(300), vec![0xAC, 0x02]);
    assert_eq!(varint_of(16384), vec![0x80, 0x80, 0x01]);
    assert_eq!(
        varint_of(u64::MAX),
        vec![0xFF, 0xFF, 0xFF, 0xFF, 0xFF, 0xFF, 0xFF, 0xFF, 0xFF, 0x01]
    );
    let mut buf = vec![9];
    write_varint(&mut buf, 300);
    assert_eq!(buf, vec![9, 0xAC, 0x02]);
}

#[test]
fn numbers_are_read_back() {
    for n in [0u64, 1, 127, 128, 255, 300, 16383, 16384, 1 << 32, u64::MAX - 1, u64::MAX] {
        let mut data = vec![7, 7];
        write_varint(&mut data, n);
        let end = data.len();
        data.push(0x55);
        assert_eq!(read_varint(&data, 2, u64::MAX, false), Some((n, end)));
    }
}

#[test]
fn bad_numbers_are_refused() {
    assert_eq!(read_varint(&vec![], 0, u64::MAX, false), None);
    assert_eq!(read_varint(&vec![0x80], 0, u64::MAX, false), None);
    assert_eq!(read_varint(&vec![0x80, 0x00], 0, u64::MAX, false), None);
    assert_eq!(read_varint(&vec![0x00], 0, u64::MAX, true), None);
    assert_eq!(read_varint(&vec![0x00], 0, u64::MAX, false), Some((0, 1)));
    assert_eq!(read_varint(&vec![0x05], 0, 4, false), None);
    assert_eq!(read_varint(&vec![0xAC, 0x02], 0, 299, false), None);
    assert_eq!(read_varint(&vec![0xAC, 0x02], 0, 300, false), Some((300, 2)));
    let too_big = vec![0xFF, 0xFF, 0xFF, 0xFF, 0xFF, 0xFF, 0xFF, 0xFF, 0xFF, 0x02];
    assert_eq!(read_varint(&too_big, 0, u64::MAX, false), None);
    let too_long = vec![0x80, 0x80, 0x80, 0x80, 0x80, 0x80, 0x80, 0x80, 0x80, 0x80, 0x01];
    assert_eq!(read_varint(&too_long, 0, u64::MAX, false), None);
}

#[test]
fn record_is_fields_then_starting_version() {
    let record = encode_storage(&vec![vec![1, 2, 3], vec![], vec![9]], 300);
    assert_eq!(record, vec![10, 3, 1, 2, 3, 10, 0, 10, 1, 9, 16, 0xAC, 0x02]);
    assert_eq!(encode_storage(&Vec::new(), 0), vec![16, 0]);
    let long = encode_storage(&vec![vec![5; 200]], 1);
    assert_eq!(&long[..3], &[10, 0xC8, 0x01]);
    assert_eq!(long.len(), 3 + 200 + 2);
}

#[test]
fn record_is_read_back() {
    let forms = vec![vec![1, 2, 3], vec![], vec![10, 16, 0], vec![5; 300]];
    let record = encode_storage(&forms, u64::MAX);
    assert_eq!(decode_storage(&record), Some((forms, u64::MAX)));
    assert_eq!(decode_storage(&vec![16, 7]), Some((Vec::new(), 7)));
}

#[test]
fn what_is_no_record_is_refused() {
    let record = encode_storage(&vec![vec![1, 2, 3]], 4);
    for cut in 0..record.len() {
        assert_eq!(decode_storage(&record[..cut].to_vec()), None);
    }
    let mut longer = record.clone();
    longer.push(0);
    assert_eq!(decode_storage(&longer), None);
    assert_eq!(decode_storage(&vec![10, 5, 1, 16, 0]), None);
    assert_eq!(decode_storage(&vec![18, 0]), None);
    assert_eq!(decode_storage(&vec![16, 0x80, 0x00]), None);
    assert_eq!(decode_storage(&vec![16, 1, 10, 0]), None);
}

#[test]
fn file_gives_its_batch_back() {
    let batch: Vec<Transaction> =
        (500..520).map(|v| Transaction::new(v, vec![(v % 7) as u8; (v % 5) as usize])).collect();
    let expected: Vec<(u64, Vec<u8>)> =
        batch.iter().map(|t| (t.version, t.payload.clone())).collect();
    let file = FileEntry::from_transactions(batch, StorageFormat::Lz4CompressedProto).unwrap();
    let bytes = file.into_inner();
    assert_eq!(&bytes[..4], &[0x04, 0x22, 0x4D, 0x18]);
    let back = FileEntry::new(bytes, StorageFormat::Lz4CompressedProto)
        .into_transactions_in_storage()
        .unwrap();
    assert_eq!(back.starting_version, Some(500));
    let got: Vec<(u64, Vec<u8>)> =
        back.transactions.iter().map(|t| (t.version, t.payload.clone())).collect();
    assert_eq!(got, expected);
}

#[test]
fn file_is_smaller_than_a_repetitive_record() {
    let batch: Vec<Transaction> = (0..50).map(|v| Transaction::new(v, vec![0; 1000])).collect();
    let record_len = 50 * (1 + 2 + 1000) + 2;
    let bytes =
        FileEntry::from_transactions(batch, StorageFormat::Lz4CompressedProto).unwrap().into_inner();
    assert!(bytes.len() < record_len / 10);
}

#[test]
fn damaged_file_is_not_read() {
    let read = |bytes: Vec<u8>| {
        FileEntry::new(bytes, StorageFormat::Lz4CompressedProto).into_transactions_in_storage()
    };
    assert!(read(Vec::new()).is_none());
    assert!(read(vec![1, 2, 3, 4, 5]).is_none());
    let batch = vec![Transaction::new(3, vec![1, 2, 3])];
    let bytes =
        FileEntry::from_transactions(batch, StorageFormat::Lz4CompressedProto).unwrap().into_inner();
    assert!(read(bytes[..bytes.len() - 5].to_vec()).is_none());
}

#[test]
fn record_with_versions_beyond_the_last_is_refused() {
    assert!(transactions_from_record(None).is_none());
    assert!(transactions_from_record(Some(vec![1, 2, 3])).is_none());
    let fits = encode_storage(&vec![vec![1], vec![2]], u64::MAX - 1);
    let got = transactions_from_record(Some(fits)).unwrap();
    assert_eq!(got.transactions.len(), 2);
    assert_eq!(got.transactions[1].version, u64::MAX);
    let overflows = encode_storage(&vec![vec![1], vec![2]], u64::MAX);
    assert!(transactions_from_record(Some(overflows)).is_none());
    let empty = transactions_from_record(Some(encode_storage(&Vec::new(), u64::MAX))).unwrap();
    assert!(empty.transactions.is_empty());
    assert_eq!(empty.starting_version, Some(u64::MAX));
}

#[test]
fn what_the_uploader_writes_is_read_back_from_its_path() {
    let mut uploader = FileStoreUploader::with_limits(1, 8, 4, 7);
    let dumps = uploader.upload_batch(
        (8..16).map(|v| Transaction::new(v, vec![v as u8; 3])).collect(),
    );
    let mut store = std::collections::BTreeMap::new();
    let mut written = Vec::new();
    for dump in dumps {
        written.push((dump.path.clone(), dump.first_version, dump.transactions.len()));
        let file =
            FileEntry::from_transactions(dump.transactions, StorageFormat::Lz4CompressedProto);
        store.insert(dump.path, file.unwrap().into_inner());
    }
    assert_eq!(written.len(), 4);
    for (path, first_version, count) in written {
        let bytes = store.get(&path).unwrap().clone();
        let back = FileEntry::new(bytes, StorageFormat::Lz4CompressedProto)
            .into_transactions_in_storage()
            .unwrap();
        assert_eq!(back.starting_version, Some(first_version));
        assert_eq!(back.transactions.len(), count);
        for (i, t) in back.transactions.iter().enumerate() {
            assert_eq!(t.version, first_version + i as u64);
            assert_eq!(t.payload, vec![t.version as u8; 3]);
        }
    }
}

#[test]
fn record_of_a_batch_is_its_forms_and_its_first_version() {
    let batch = vec![
        Transaction::new(300, vec![1, 2, 3]),
        Transaction::new(301, vec![]),
        Transaction::new(302, vec![9]),
    ];
    assert_eq!(
        FileEntry::record_for(batch),
        vec![10, 3, 1, 2, 3, 10, 0, 10, 1, 9, 16, 0xAC, 0x02]
    );
    assert_eq!(FileEntry::record_for(vec![Transaction::new(0, vec![7])]), vec![10, 1, 7, 16, 0]);
}

#[test]
fn file_is_what_the_encoder_returned() {
    let format = StorageFormat::Lz4CompressedProto;
    let file = FileEntry::from_compressed(Some(vec![4, 5, 6]), format).unwrap();
    assert_eq!(file.into_inner(), vec![4, 5, 6]);
    assert!(FileEntry::from_compressed(Some(Vec::new()), format).is_some());
    assert!(FileEntry::from_compressed(None, format).is_none());
}

#[test]
fn file_is_the_frame_of_the_record() {
    let batch = || vec![Transaction::new(41, vec![1; 40]), Transaction::new(42, vec![2; 40])];
    let format = StorageFormat::Lz4CompressedProto;
    let bytes = FileEntry::from_transactions(batch(), format).unwrap().into_inner();
    assert_ne!(bytes, FileEntry::record_for(batch()));
    let back = FileEntry::new(bytes, format).into_transactions_in_storage().unwrap();
    let forms: Vec<Vec<u8>> = back.transactions.into_iter().map(|t| t.payload).collect();
    assert_eq!(encode_storage(&forms, back.starting_version.unwrap()), FileEntry::record_for(batch()));
}
