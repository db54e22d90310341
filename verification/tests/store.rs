use dataset_store::database::DatasetDb;
use dataset_store::error::StoreError;
use dataset_store::record::Timestamp;

/// A place of its own for each test, where the engine may write.
fn fresh_location(name: &str) -> String {
    format!("/tmp/sled_dataset_db_{}_{}", name, uuid::Uuid::new_v4())
}

fn open(name: &str) -> DatasetDb {
    DatasetDb::init(&fresh_location(name)).unwrap()
}

/// Opens a place that was open a moment ago: the engine may still be
/// letting go of its files.
fn reopen(place: &str) -> DatasetDb {
    let start = std::time::Instant::now();
    loop {
        match DatasetDb::init(place) {
            Ok(db) => return db,
            Err(e) => assert!(start.elapsed().as_secs() < 5, "{:?}", e),
        }
    }
}

/// The engine itself on a place that was open a moment ago.
fn reopen_engine(place: &str) -> sled::Db {
    let start = std::time::Instant::now();
    loop {
        match sled::open(place) {
            Ok(db) => return db,
            Err(e) => assert!(start.elapsed().as_secs() < 5, "{:?}", e),
        }
    }
}

fn at(secs: i64, nanos: u32) -> Timestamp {
    Timestamp { secs, nanos }
}

#[test]
fn test_dataset_crud() {
    let mut db = DatasetDb::init(&fresh_location("crud")).unwrap();

    let dataset_id = db.add_dataset("用户信息数据集", Some("./uploads/user.csv")).unwrap();
    assert!(!dataset_id.is_empty());
    println!("新增数据集ID: {}", dataset_id);

    let dataset = db.get_dataset_by_id(&dataset_id).unwrap();
    assert!(dataset.is_some());
    let dataset = dataset.unwrap();
    assert_eq!(dataset.name, "用户信息数据集");
    println!("查询数据集: {:?}", dataset);

    let items = vec![
        ("用户ID".to_string(), "int".to_string()),
        ("用户名".to_string(), "string".to_string()),
        ("注册时间".to_string(), "date".to_string()),
    ];
    let item_ids = db.batch_add_items(&dataset_id, &items).unwrap();
    assert_eq!(item_ids.len(), 3);
    println!("新增内容项ID: {:?}", item_ids);

    let dataset_items = db.get_items_by_dataset_id(&dataset_id).unwrap();
    assert_eq!(dataset_items.len(), 3);
    println!("查询内容项: {:?}", dataset_items);

    db.delete_item(&dataset_id, &item_ids[0]).unwrap();
    let dataset_items_after_delete = db.get_items_by_dataset_id(&dataset_id).unwrap();
    assert_eq!(dataset_items_after_delete.len(), 2);
    println!("删除单个内容项后: {:?}", dataset_items_after_delete);

    db.delete_dataset(&dataset_id).unwrap();
    let dataset_after_delete = db.get_dataset_by_id(&dataset_id).unwrap();
    assert!(dataset_after_delete.is_none());
    let items_after_delete = db.get_items_by_dataset_id(&dataset_id).unwrap();
    assert!(items_after_delete.is_empty());
    println!("删除数据集成功");
}

#[test]
fn init_fails_where_the_engine_cannot_open() {
    let r = DatasetDb::init("/dev/null/no_store_here");
    assert_eq!(r.err(), Some(StoreError::StorageUnavailable));
}

#[test]
fn a_place_is_open_once_at_a_time() {
    let place = fresh_location("once");
    let first = DatasetDb::init(&place);
    assert!(first.is_ok());
    let second = DatasetDb::init(&place);
    assert_eq!(second.err(), Some(StoreError::StorageUnavailable));
    drop(first);
    reopen(&place);
}

#[test]
fn each_place_holds_a_store_of_its_own() {
    let here = fresh_location("here");
    let there = fresh_location("there");
    let mut a = DatasetDb::init(&here).unwrap();
    let mut b = DatasetDb::init(&there).unwrap();
    let id = a.add_dataset("A", None).unwrap();
    assert_eq!(a.get_all_datasets().unwrap().len(), 1);
    assert!(b.get_all_datasets().unwrap().is_empty());
    assert_eq!(b.get_dataset_by_id(&id).unwrap(), None);
    assert!(b.add_dataset("A", None).is_ok());
    drop(a);
    drop(b);
    let engine = reopen_engine(&here);
    let mut names: Vec<Vec<u8>> = engine.tree_names().iter().map(|n| n.to_vec()).collect();
    names.sort();
    assert!(names.contains(&b"datasets".to_vec()));
    assert!(names.contains(&b"dataset_items".to_vec()));
    assert!(names.contains(&b"dataset_name_index".to_vec()));
    assert_eq!(engine.open_tree("datasets").unwrap().len(), 1);
    assert_eq!(engine.open_tree("dataset_name_index").unwrap().len(), 1);
    assert_eq!(engine.open_tree("dataset_items").unwrap().len(), 0);
}

#[test]
fn init_again_finds_what_was_written() {
    let place = fresh_location("reopen");
    let id;
    {
        let mut db = DatasetDb::init(&place).unwrap();
        id = db.add_dataset("kept", None).unwrap();
        db.add_dataset_item(&id, "x", "int").unwrap();
    }
    let db = reopen(&place);
    let d = db.get_dataset_by_id(&id).unwrap().unwrap();
    assert_eq!(d.name, "kept");
    assert_eq!(db.get_items_by_dataset_id(&id).unwrap().len(), 1);
    assert_eq!(db.get_all_datasets().unwrap().len(), 1);
}

#[test]
fn second_add_with_a_name_is_refused() {
    let mut db = open("dup");
    let first = db.add_dataset("A", None);
    assert!(first.is_ok());
    let count = db.get_all_datasets().unwrap().len();
    assert_eq!(count, 1);
    let second = db.add_dataset("A", Some("other.csv"));
    assert_eq!(second, Err(StoreError::DuplicateName));
    assert_eq!(db.get_all_datasets().unwrap().len(), count);
    let d = db.get_dataset_by_id(&first.unwrap()).unwrap().unwrap();
    assert_eq!(d.file_path, None);
}

#[test]
fn names_differ_by_case() {
    let mut db = open("case");
    db.add_dataset("Users", None).unwrap();
    assert!(db.add_dataset("users", None).is_ok());
    assert_eq!(db.get_all_datasets().unwrap().len(), 2);
}

#[test]
fn added_dataset_is_found_under_its_id() {
    let mut db = open("found");
    let id = db.add_dataset("measurements", Some("./uploads/m.csv")).unwrap();
    let d = db.get_dataset_by_id(&id).unwrap().unwrap();
    assert_eq!(d.id, id);
    assert!(!d.id.is_empty());
    assert_eq!(d.name, "measurements");
    assert_eq!(d.file_path, Some("./uploads/m.csv".to_string()));
    assert_eq!(d.create_time, d.update_time);
    assert!(d.create_time.secs > 1_600_000_000);
    assert!(d.create_time.nanos < 2_000_000_000);
}

#[test]
fn fresh_ids_are_written_uuids() {
    let mut db = open("ids");
    let a = db.add_dataset("a", None).unwrap();
    let b = db.add_dataset("b", None).unwrap();
    let i = db.add_dataset_item(&a, "x", "int").unwrap();
    assert_ne!(a, b);
    assert_ne!(a, i);
    for id in [a, b, i] {
        assert_eq!(id.len(), 36);
        for (n, c) in id.chars().enumerate() {
            if n == 8 || n == 13 || n == 18 || n == 23 {
                assert_eq!(c, '-');
            } else {
                assert!(c.is_ascii_digit() || ('a'..='f').contains(&c));
            }
        }
    }
}

#[test]
fn store_dataset_writes_what_it_is_given() {
    let mut db = open("given");
    let id = db.store_dataset("id-1".to_string(), "N", None, at(-5, 999_999_999)).unwrap();
    assert_eq!(id, "id-1");
    let d = db.get_dataset_by_id("id-1").unwrap().unwrap();
    assert_eq!(d.id, "id-1");
    assert_eq!(d.name, "N");
    assert_eq!(d.file_path, None);
    assert_eq!(d.create_time, at(-5, 999_999_999));
    assert_eq!(d.update_time, at(-5, 999_999_999));
    assert_eq!(
        db.store_dataset("id-2".to_string(), "N", None, at(0, 0)),
        Err(StoreError::DuplicateName)
    );
    assert!(db.get_dataset_by_id("id-2").unwrap().is_none());
}

#[test]
fn get_dataset_by_id_of_nothing_is_none() {
    let db = open("none");
    assert_eq!(db.get_dataset_by_id("nobody").unwrap(), None);
    assert_eq!(db.get_dataset_by_id("").unwrap(), None);
}

#[test]
fn all_datasets_come_in_the_order_of_their_ids() {
    let mut db = open("order");
    assert!(db.get_all_datasets().unwrap().is_empty());
    db.store_dataset("b".to_string(), "first", None, at(1, 0)).unwrap();
    db.store_dataset("a".to_string(), "second", None, at(2, 0)).unwrap();
    db.store_dataset("ab".to_string(), "third", None, at(3, 0)).unwrap();
    db.store_dataset("c".to_string(), "fourth", None, at(4, 0)).unwrap();
    let all = db.get_all_datasets().unwrap();
    let ids: Vec<&str> = all.iter().map(|d| d.id.as_str()).collect();
    assert_eq!(ids, vec!["a", "ab", "b", "c"]);
    let names: Vec<&str> = all.iter().map(|d| d.name.as_str()).collect();
    assert_eq!(names, vec!["second", "third", "first", "fourth"]);
}

#[test]
fn first_item_of_a_dataset_is_the_one_listed() {
    let mut db = open("first_item");
    let id = db.add_dataset("A", None).unwrap();
    let item_id = db.add_dataset_item(&id, "x", "int").unwrap();
    let items = db.get_items_by_dataset_id(&id).unwrap();
    assert_eq!(items.len(), 1);
    assert_eq!(items[0].item_name, "x");
    assert_eq!(items[0].item_type, "int");
    assert_eq!(items[0].dataset_id, id);
    assert_eq!(items[0].id, item_id);
}

#[test]
fn items_may_share_a_name() {
    let mut db = open("same_name");
    let id = db.add_dataset("A", None).unwrap();
    db.add_dataset_item(&id, "x", "int").unwrap();
    db.add_dataset_item(&id, "x", "float").unwrap();
    assert_eq!(db.get_items_by_dataset_id(&id).unwrap().len(), 2);
}

#[test]
fn items_come_in_the_order_of_their_keys() {
    let mut db = open("item_order");
    db.store_dataset("d".to_string(), "D", None, at(0, 0)).unwrap();
    db.store_item("2".to_string(), "d", "two", "int").unwrap();
    db.store_item("10".to_string(), "d", "ten", "int").unwrap();
    db.store_item("1".to_string(), "d", "one", "int").unwrap();
    let items = db.get_items_by_dataset_id("d").unwrap();
    let names: Vec<&str> = items.iter().map(|i| i.item_name.as_str()).collect();
    assert_eq!(names, vec!["one", "ten", "two"]);
}

#[test]
fn store_item_under_the_same_id_replaces() {
    let mut db = open("replace");
    db.store_dataset("d".to_string(), "D", None, at(0, 0)).unwrap();
    db.store_item("i".to_string(), "d", "old", "int").unwrap();
    db.store_item("i".to_string(), "d", "new", "string").unwrap();
    let items = db.get_items_by_dataset_id("d").unwrap();
    assert_eq!(items.len(), 1);
    assert_eq!(items[0].item_name, "new");
    assert_eq!(items[0].item_type, "string");
}

#[test]
fn items_of_each_dataset_are_its_own() {
    let mut db = open("own");
    let a = db.add_dataset("A", None).unwrap();
    let b = db.add_dataset("B", None).unwrap();
    db.add_dataset_item(&a, "x", "int").unwrap();
    db.add_dataset_item(&b, "y", "date").unwrap();
    db.add_dataset_item(&b, "z", "float").unwrap();
    assert_eq!(db.get_items_by_dataset_id(&a).unwrap().len(), 1);
    assert_eq!(db.get_items_by_dataset_id(&b).unwrap().len(), 2);
    db.delete_dataset(&b).unwrap();
    let left = db.get_items_by_dataset_id(&a).unwrap();
    assert_eq!(left.len(), 1);
    assert_eq!(left[0].item_name, "x");
}

#[test]
fn items_are_found_by_the_start_of_their_key() {
    let mut db = open("prefix");
    db.store_dataset("a".to_string(), "short", None, at(0, 0)).unwrap();
    db.store_dataset("a:b".to_string(), "long", None, at(0, 0)).unwrap();
    db.store_dataset("ab".to_string(), "other", None, at(0, 0)).unwrap();
    db.store_item("x".to_string(), "a:b", "deep", "int").unwrap();
    db.store_item("y".to_string(), "ab", "aside", "int").unwrap();
    let under_a = db.get_items_by_dataset_id("a").unwrap();
    assert_eq!(under_a.len(), 1);
    assert_eq!(under_a[0].item_name, "deep");
    assert_eq!(db.get_items_by_dataset_id("a:b").unwrap().len(), 1);
    assert_eq!(db.get_items_by_dataset_id("ab").unwrap().len(), 1);
}

#[test]
fn items_of_a_dataset_that_is_not_there_are_none() {
    let db = open("absent");
    assert!(db.get_items_by_dataset_id("nobody").unwrap().is_empty());
    assert!(db.get_items_by_dataset_id("").unwrap().is_empty());
}

#[test]
fn item_needs_its_dataset() {
    let mut db = open("needs");
    let r = db.add_dataset_item("nobody", "x", "int");
    assert_eq!(r, Err(StoreError::NotFound));
    assert!(db.get_items_by_dataset_id("nobody").unwrap().is_empty());
    let r = db.batch_add_items("nobody", &[("x".to_string(), "int".to_string())]);
    assert_eq!(r, Err(StoreError::NotFound));
    assert!(db.get_items_by_dataset_id("nobody").unwrap().is_empty());
}

#[test]
fn deleted_dataset_is_gone_with_its_items() {
    let mut db = open("gone");
    let id = db.add_dataset("A", None).unwrap();
    db.add_dataset_item(&id, "x", "int").unwrap();
    db.add_dataset_item(&id, "y", "string").unwrap();
    assert_eq!(db.delete_dataset(&id), Ok(()));
    assert_eq!(db.get_dataset_by_id(&id).unwrap(), None);
    assert!(db.get_items_by_dataset_id(&id).unwrap().is_empty());
    assert!(db.get_all_datasets().unwrap().is_empty());
    assert_eq!(db.delete_dataset(&id), Err(StoreError::NotFound));
    assert_eq!(db.add_dataset_item(&id, "z", "int"), Err(StoreError::NotFound));
}

#[test]
fn delete_gives_back_the_store_as_it_was() {
    let place = fresh_location("undo");
    {
        let mut db = DatasetDb::init(&place).unwrap();
        let kept = db.add_dataset("kept", None).unwrap();
        db.add_dataset_item(&kept, "k", "int").unwrap();
        let id = db.add_dataset("A", Some("a.csv")).unwrap();
        let pairs = vec![("x".to_string(), "int".to_string()), ("y".to_string(), "date".to_string())];
        db.batch_add_items(&id, &pairs).unwrap();
        db.add_dataset_item(&id, "z", "float").unwrap();
        assert_eq!(db.delete_dataset(&id), Ok(()));
        assert_eq!(db.delete_dataset(&id), Err(StoreError::NotFound));
    }
    let engine = reopen_engine(&place);
    assert_eq!(engine.open_tree("datasets").unwrap().len(), 1);
    assert_eq!(engine.open_tree("dataset_name_index").unwrap().len(), 1);
    assert!(engine.open_tree("dataset_name_index").unwrap().contains_key("kept").unwrap());
    assert_eq!(engine.open_tree("dataset_items").unwrap().len(), 1);
}

#[test]
fn name_of_a_deleted_dataset_is_free_again() {
    let mut db = open("free");
    let id = db.add_dataset("A", None).unwrap();
    db.delete_dataset(&id).unwrap();
    let again = db.add_dataset("A", None).unwrap();
    assert_ne!(again, id);
    assert_eq!(db.get_all_datasets().unwrap().len(), 1);
}

#[test]
fn delete_dataset_of_nothing_is_not_found() {
    let mut db = open("del_none");
    db.add_dataset("A", None).unwrap();
    assert_eq!(db.delete_dataset("nobody"), Err(StoreError::NotFound));
    assert_eq!(db.get_all_datasets().unwrap().len(), 1);
}

#[test]
fn batch_add_returns_the_ids_in_order() {
    let mut db = open("batch");
    let id = db.add_dataset("A", None).unwrap();
    let pairs = vec![
        ("a".to_string(), "int".to_string()),
        ("b".to_string(), "string".to_string()),
        ("c".to_string(), "date".to_string()),
    ];
    let ids = db.batch_add_items(&id, &pairs).unwrap();
    assert_eq!(ids.len(), 3);
    let items = db.get_items_by_dataset_id(&id).unwrap();
    assert_eq!(items.len(), 3);
    for (n, item_id) in ids.iter().enumerate() {
        let item = items.iter().find(|i| &i.id == item_id).unwrap();
        assert_eq!(item.item_name, pairs[n].0);
        assert_eq!(item.item_type, pairs[n].1);
        assert_eq!(item.dataset_id, id);
    }
    db.delete_item(&id, &ids[0]).unwrap();
    let left = db.get_items_by_dataset_id(&id).unwrap();
    assert_eq!(left.len(), 2);
    assert!(left.iter().all(|i| i.id != ids[0]));
}

#[test]
fn batch_add_of_nothing_adds_nothing() {
    let mut db = open("batch_empty");
    let id = db.add_dataset("A", None).unwrap();
    assert_eq!(db.batch_add_items(&id, &[]), Ok(vec![]));
    assert!(db.get_items_by_dataset_id(&id).unwrap().is_empty());
}

#[test]
fn delete_item_of_nothing_is_not_found() {
    let mut db = open("del_item");
    let id = db.add_dataset("A", None).unwrap();
    let item = db.add_dataset_item(&id, "x", "int").unwrap();
    assert_eq!(db.delete_item(&id, "nobody"), Err(StoreError::NotFound));
    assert_eq!(db.delete_item("nobody", &item), Err(StoreError::NotFound));
    assert_eq!(db.get_items_by_dataset_id(&id).unwrap().len(), 1);
    assert_eq!(db.delete_item(&id, &item), Ok(()));
    assert_eq!(db.delete_item(&id, &item), Err(StoreError::NotFound));
    assert!(db.get_items_by_dataset_id(&id).unwrap().is_empty());
}

#[test]
fn batch_delete_ends_at_the_first_that_is_not_there() {
    let mut db = open("batch_del");
    db.store_dataset("d".to_string(), "D", None, at(0, 0)).unwrap();
    for i in ["1", "2", "3", "4"] {
        db.store_item(i.to_string(), "d", i, "int").unwrap();
    }
    assert_eq!(db.batch_delete_items("d", &["1", "nobody", "3"]), Err(StoreError::NotFound));
    let left = db.get_items_by_dataset_id("d").unwrap();
    let ids: Vec<&str> = left.iter().map(|i| i.id.as_str()).collect();
    assert_eq!(ids, vec!["2", "3", "4"]);
    assert_eq!(db.batch_delete_items("d", &["2", "4"]), Ok(()));
    let left = db.get_items_by_dataset_id("d").unwrap();
    assert_eq!(left.len(), 1);
    assert_eq!(left[0].id, "3");
    assert_eq!(db.batch_delete_items("d", &[]), Ok(()));
    assert_eq!(db.batch_delete_items("d", &["3", "3"]), Err(StoreError::NotFound));
    assert!(db.get_items_by_dataset_id("d").unwrap().is_empty());
}

#[test]
fn bytes_that_are_no_record_are_corrupt() {
    let place = fresh_location("corrupt");
    {
        let mut db = DatasetDb::init(&place).unwrap();
        db.store_dataset("good".to_string(), "G", None, at(0, 0)).unwrap();
        db.store_item("i".to_string(), "good", "fine", "int").unwrap();
    }
    {
        let engine = reopen_engine(&place);
        let datasets = engine.open_tree("datasets").unwrap();
        datasets.insert("bad", vec![1u8, 2, 3]).unwrap();
        let items = engine.open_tree("dataset_items").unwrap();
        items.insert("bad:i", vec![9u8; 5]).unwrap();
        engine.flush().unwrap();
    }
    let mut db = reopen(&place);
    assert_eq!(db.get_dataset_by_id("bad"), Err(StoreError::CorruptRecord));
    assert_eq!(db.get_all_datasets(), Err(StoreError::CorruptRecord));
    assert_eq!(db.get_items_by_dataset_id("bad"), Err(StoreError::CorruptRecord));
    assert_eq!(db.delete_dataset("bad"), Err(StoreError::CorruptRecord));
    assert_eq!(db.get_dataset_by_id("good").unwrap().unwrap().name, "G");
    assert_eq!(db.get_items_by_dataset_id("good").unwrap().len(), 1);
}

#[test]
fn store_keeps_the_layout_of_its_three_trees() {
    let place = fresh_location("layout");
    {
        let mut db = DatasetDb::init(&place).unwrap();
        db.store_dataset("d1".to_string(), "name one", None, at(0, 0)).unwrap();
        db.store_item("i1".to_string(), "d1", "x", "int").unwrap();
    }
    let engine = reopen_engine(&place);
    let names = engine.open_tree("dataset_name_index").unwrap();
    assert_eq!(names.get("name one").unwrap().unwrap().to_vec(), b"d1".to_vec());
    assert_eq!(names.len(), 1);
    let datasets = engine.open_tree("datasets").unwrap();
    assert!(datasets.contains_key("d1").unwrap());
    assert_eq!(datasets.len(), 1);
    let items = engine.open_tree("dataset_items").unwrap();
    assert!(items.contains_key("d1:i1").unwrap());
    assert_eq!(items.len(), 1);
}
