use unity_cache_server::handlers::{
    FileSystemHandler, MemoryDatabase, MemoryHandler, NopHandler, TransactionFiles,
};
use unity_cache_server::{Error, HexString, UnityFileGuid, UnityFileHash, UnityFileType};

fn ids() -> (UnityFileGuid, UnityFileHash) {
    let guid = HexString::from_hex_string("00000000000000000000000000000001".to_string()).unwrap();
    let hash = HexString::from_hex_string("11111111111111111111111111111111".to_string()).unwrap();
    (guid, hash)
}

#[test]
fn transaction_files_slots() {
    let mut f: TransactionFiles<u32> = TransactionFiles::new();
    f.set(UnityFileType::Resource, 3);
    f.set(UnityFileType::Asset, 1);
    f.set(UnityFileType::Asset, 2);
    assert_eq!(f.get(UnityFileType::Asset), Some(&2));
    if let Some(v) = f.get_mut(UnityFileType::Resource) {
        *v = 4;
    }
    assert_eq!(f.get(UnityFileType::Info), None);
    assert_eq!(
        f.take_all(),
        vec![(UnityFileType::Asset, 2), (UnityFileType::Resource, 4)]
    );
    assert_eq!(f.take(UnityFileType::Asset), None);
}

#[test]
fn memory_put_commit_get_dead() {
    let (guid, hash) = ids();
    let mut db = MemoryDatabase::new();
    let mut h = MemoryHandler::new();
    h.start_transaction(guid, hash).unwrap();
    h.put(UnityFileType::Asset, 4, vec![0xde, 0xad, 0xbe, 0xef]).unwrap();
    h.end_transaction(&mut db).unwrap();
    let (size, bytes) = h.get(&db, UnityFileType::Asset, &guid, &hash).unwrap().unwrap();
    assert_eq!(size, 4);
    assert_eq!(&bytes[..], &[0xde, 0xad, 0xbe, 0xef]);
    assert_eq!(h.file_count(&db), 1);
}

#[test]
fn memory_get_unwritten_is_miss() {
    let (guid, hash) = ids();
    let db = MemoryDatabase::new();
    let h = MemoryHandler::new();
    assert!(h.get(&db, UnityFileType::Info, &guid, &hash).unwrap().is_none());
}

#[test]
fn memory_cancel_and_restart_discard() {
    let (guid, hash) = ids();
    let mut db = MemoryDatabase::new();
    let mut h = MemoryHandler::new();
    h.start_transaction(guid, hash).unwrap();
    h.put(UnityFileType::Asset, 1, vec![1]).unwrap();
    h.cancel_transaction().unwrap();
    h.end_transaction(&mut db).unwrap();
    assert!(h.get(&db, UnityFileType::Asset, &guid, &hash).unwrap().is_none());

    h.start_transaction(guid, hash).unwrap();
    h.put(UnityFileType::Asset, 1, vec![1]).unwrap();
    h.start_transaction(guid, hash).unwrap();
    h.end_transaction(&mut db).unwrap();
    assert!(h.get(&db, UnityFileType::Asset, &guid, &hash).unwrap().is_none());
    assert_eq!(h.file_count(&db), 0);
}

#[test]
fn memory_put_without_transaction() {
    let mut db = MemoryDatabase::new();
    let mut h = MemoryHandler::new();
    assert!(matches!(h.put(UnityFileType::Asset, 2, vec![1, 2]), Err(Error::NotInTransaction)));
    assert!(matches!(h.check_put(2), Err(Error::NotInTransaction)));
    assert!(matches!(h.put(UnityFileType::Asset, 4, vec![1]), Err(Error::NotInTransaction)));
    h.set_max_file_size(1);
    assert!(matches!(h.put(UnityFileType::Asset, 4, vec![1]), Err(Error::NotInTransaction)));
    h.end_transaction(&mut db).unwrap();
    assert_eq!(db.len(), 0);
}

#[test]
fn memory_put_too_large() {
    let (guid, hash) = ids();
    let mut db = MemoryDatabase::new();
    let mut h = MemoryHandler::new();
    h.set_max_file_size(3);
    assert_eq!(h.max_file_size(), 3);
    h.start_transaction(guid, hash).unwrap();
    assert!(matches!(h.check_put(4), Err(Error::FileTooLarge { max_size: 3, size: 4 })));
    assert!(h.check_put(3).is_ok());
    match h.put(UnityFileType::Asset, 4, vec![1, 2, 3, 4]) {
        Err(Error::FileTooLarge { max_size, size }) => {
            assert_eq!(max_size, 3);
            assert_eq!(size, 4);
        }
        other => panic!("unexpected {:?}", other),
    }
    h.end_transaction(&mut db).unwrap();
    assert!(h.get(&db, UnityFileType::Asset, &guid, &hash).unwrap().is_none());
}

#[test]
fn memory_put_short_stream() {
    let (guid, hash) = ids();
    let mut db = MemoryDatabase::new();
    let mut h = MemoryHandler::new();
    h.start_transaction(guid, hash).unwrap();
    match h.put(UnityFileType::Asset, 4, vec![1, 2]) {
        Err(Error::IoError(e)) => assert_eq!(e.kind(), std::io::ErrorKind::UnexpectedEof),
        other => panic!("unexpected {:?}", other),
    }
    h.end_transaction(&mut db).unwrap();
    assert!(h.get(&db, UnityFileType::Asset, &guid, &hash).unwrap().is_none());
}

#[test]
fn memory_commit_only_set_kinds() {
    let (guid, hash) = ids();
    let mut db = MemoryDatabase::new();
    let mut h = MemoryHandler::new();
    h.start_transaction(guid, hash).unwrap();
    h.put(UnityFileType::Asset, 1, vec![7]).unwrap();
    h.put(UnityFileType::Resource, 2, vec![8, 9]).unwrap();
    h.end_transaction(&mut db).unwrap();
    assert!(h.get(&db, UnityFileType::Info, &guid, &hash).unwrap().is_none());
    let (_, r) = h.get(&db, UnityFileType::Resource, &guid, &hash).unwrap().unwrap();
    assert_eq!(&r[..], &[8, 9]);
    assert_eq!(db.len(), 2);

    h.start_transaction(guid, hash).unwrap();
    h.put(UnityFileType::Asset, 2, vec![5, 6]).unwrap();
    h.end_transaction(&mut db).unwrap();
    let (size, a) = h.get(&db, UnityFileType::Asset, &guid, &hash).unwrap().unwrap();
    assert_eq!(size, 2);
    assert_eq!(&a[..], &[5, 6]);
    assert_eq!(db.len(), 2);
}

#[test]
fn fs_paths() {
    let (guid, hash) = ids();
    assert_eq!(
        FileSystemHandler::<()>::calc_filename(UnityFileType::Info, &guid, &hash),
        "00000000000000000000000000000001-11111111111111111111111111111111.info"
    );
    let h: FileSystemHandler<()> = FileSystemHandler::new("cache".to_string(), "tmp/".to_string());
    assert_eq!(
        h.calc_filepath(UnityFileType::Asset, &guid, &hash),
        "cache/00/00000000000000000000000000000001-11111111111111111111111111111111.bin"
    );
    let other: FileSystemHandler<u8> = FileSystemHandler::new("cache".to_string(), "t".to_string());
    assert_eq!(
        other.calc_filepath(UnityFileType::Asset, &guid, &hash),
        h.calc_filepath(UnityFileType::Asset, &guid, &hash)
    );
    let a = h.new_tmp_file_path().unwrap();
    let b = h.new_tmp_file_path().unwrap();
    assert!(a.starts_with("tmp/"));
    assert_eq!(a.len(), 4 + 36);
    assert_ne!(a, b);
}

#[test]
fn fs_transaction_moves() {
    let (guid, hash) = ids();
    let mut h: FileSystemHandler<&str> = FileSystemHandler::new("base".to_string(), "tmp".to_string());
    assert!(matches!(h.put(UnityFileType::Asset, 1, "x", 1), Err(Error::NotInTransaction)));
    assert!(matches!(h.put(UnityFileType::Asset, 5, "x", 1), Err(Error::NotInTransaction)));
    assert!(matches!(h.check_put(1), Err(Error::NotInTransaction)));
    h.start_transaction(guid, hash).unwrap();
    h.put(UnityFileType::Resource, 3, "r", 3).unwrap();
    assert!(matches!(h.put(UnityFileType::Asset, 3, "short", 2), Err(Error::IoError(_))));
    h.put(UnityFileType::Asset, 3, "a", 3).unwrap();
    let moves = h.end_transaction().unwrap();
    assert_eq!(moves.len(), 2);
    assert_eq!(moves[0].0, "a");
    assert_eq!(
        moves[0].1,
        "base/00/00000000000000000000000000000001-11111111111111111111111111111111.bin"
    );
    assert_eq!(moves[1].0, "r");
    assert!(moves[1].1.ends_with(".resource"));
    assert!(h.end_transaction().unwrap().is_empty());

    h.set_max_file_size(2);
    h.start_transaction(guid, hash).unwrap();
    assert!(matches!(h.put(UnityFileType::Asset, 3, "a", 3), Err(Error::FileTooLarge { max_size: 2, size: 3 })));
    h.cancel_transaction().unwrap();
    assert!(h.end_transaction().unwrap().is_empty());
}

#[test]
fn nop_backend() {
    let (guid, hash) = ids();
    let mut h = NopHandler::new();
    assert!(h.get(UnityFileType::Asset, &guid, &hash).unwrap().is_none());
    h.start_transaction(guid, hash).unwrap();
    assert!(h.put(UnityFileType::Asset, 3, 3).is_ok());
    assert!(matches!(h.put(UnityFileType::Asset, 3, 1), Err(Error::IoError(_))));
    h.end_transaction().unwrap();
    h.cancel_transaction().unwrap();
}

#[test]
fn scenario_start_put_commit_get() {
    let (guid, hash) = ids();
    let mut db = MemoryDatabase::new();
    let mut h = MemoryHandler::new();
    h.start_transaction(guid, hash).unwrap();
    h.put(UnityFileType::Asset, 4, vec![0x44, 0x45, 0x41, 0x44]).unwrap();
    h.end_transaction(&mut db).unwrap();
    let (size, payload) = h.get(&db, UnityFileType::Asset, &guid, &hash).unwrap().unwrap();
    assert_eq!(size, 4);
    assert_eq!(&payload[..], b"DEAD");
}

#[test]
fn fs_opened_entry() {
    assert_eq!(FileSystemHandler::<()>::opened_entry("a/b", true, 7).unwrap(), 7);
    match FileSystemHandler::<()>::opened_entry("a/b", false, 7) {
        Err(Error::HandlerError(m)) => assert_eq!(m, "Path a/b is not a file"),
        other => panic!("unexpected {:?}", other),
    }
}

#[test]
fn fs_open_failed() {
    let missing = std::io::Error::from(std::io::ErrorKind::NotFound);
    assert_eq!(FileSystemHandler::<()>::open_failed(missing, true).unwrap(), None);
    let denied = std::io::Error::from(std::io::ErrorKind::PermissionDenied);
    match FileSystemHandler::<()>::open_failed(denied, false) {
        Err(Error::IoError(e)) => assert_eq!(e.kind(), std::io::ErrorKind::PermissionDenied),
        other => panic!("unexpected {:?}", other),
    }
}
