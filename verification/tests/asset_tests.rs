use std::sync::atomic::{AtomicU32, Ordering};

use chronos_engine::asset::{
    collect_changed_paths, replace_with_loaded, Asset, AssetError, AssetId, AssetIdCounter, AssetLoader, AssetRegistry,
};

#[derive(Debug, Clone, PartialEq)]
struct TextAsset {
    content: String,
}

/// Revision of the in-memory "disk" the test assets are read from.
static REVISION: AtomicU32 = AtomicU32::new(1);

/// Reads `mem:<text>` paths as `<text>@v<revision>`; every other path is
/// missing.
impl Asset for TextAsset {
    fn load(path: &str) -> Result<Self, AssetError> {
        match path.strip_prefix("mem:") {
            Some(text) => Ok(TextAsset { content: format!("{text}@v{}", REVISION.load(Ordering::SeqCst)) }),
            None => Err(AssetError::NotFound(path.to_string())),
        }
    }
}

#[test]
fn asset_ids_are_unique() {
    let mut counter = AssetIdCounter::new();
    let a = AssetId::next(&mut counter);
    let b = AssetId::next(&mut counter);
    let c = AssetId::next(&mut counter);
    assert_ne!(a, b);
    assert_ne!(b, c);
    assert!(b.0 > a.0);
    assert!(c.0 > b.0);
}

#[test]
fn load_missing_file_errors() {
    let mut registry: AssetRegistry<TextAsset> = AssetRegistry::new();
    let result = registry.load("/tmp/chronos_asset_tests/no_such_file_xyz.txt");
    assert!(result.is_err());
    assert!(registry.is_empty());
}

#[test]
fn registry_load_get_unload_and_reload() {
    let path = "mem:registry".to_string();
    let mut registry: AssetRegistry<TextAsset> = AssetRegistry::new();
    let id = registry.load(&path).expect("load");
    let first = registry.get(id).unwrap().content.clone();
    assert!(first.starts_with("registry@v"));
    assert_eq!(registry.id_for_path(&path), Some(id));
    assert_eq!(registry.id_for_path("nope.txt"), None);
    REVISION.fetch_add(1, Ordering::SeqCst);
    let id2 = registry.load(&path).expect("reload");
    assert_eq!(id, id2);
    assert_ne!(registry.get(id).unwrap().content, first);
    assert_eq!(registry.len(), 1);
    registry.get_mut(id).unwrap().content = "edited".to_string();
    assert_eq!(registry.get(id).unwrap().content, "edited");
    registry.unload(id);
    assert!(registry.is_empty());
    assert!(registry.get(id).is_none());
    assert_eq!(registry.id_for_path(&path), None);
}

#[test]
fn loader_reports_watched_changes_only() {
    let path = "mem:data".to_string();
    let mut loader: AssetLoader<TextAsset> = AssetLoader::new();
    let id = loader.load(&path).expect("load");
    assert!(loader.get(id).unwrap().content.starts_with("data@v"));
    let changed = vec!["/elsewhere/x.txt".to_string(), path.clone()];
    assert_eq!(loader.hot_reload(&changed), vec![path.clone()]);
    loader.unload(id);
    assert!(loader.get(id).is_none());
    assert!(loader.hot_reload(&changed).is_empty());
}

#[test]
fn changed_paths_are_distinct_and_relevant() {
    let events = vec![
        (true, vec!["a".to_string(), "b".to_string()]),
        (false, vec!["c".to_string()]),
        (true, vec!["b".to_string(), "d".to_string()]),
    ];
    assert_eq!(collect_changed_paths(&events), vec!["a", "b", "d"]);
}

#[test]
fn asset_error_messages() {
    let e = AssetError::Io(std::io::Error::new(std::io::ErrorKind::NotFound, "file missing"));
    assert!(e.to_string().contains("asset I/O error"));
    assert_eq!(AssetError::Load("bad format".into()).to_string(), "asset load failed: bad format");
    assert_eq!(AssetError::NotFound("foo.bar".into()).to_string(), "asset not found: foo.bar");
    assert_eq!(AssetError::Watcher("crashed".into()).to_string(), "asset watcher error: crashed");
}

#[derive(Debug, Clone, PartialEq)]
struct NumberAsset {
    value: i32,
}

/// Reads `mem:<number>` paths as that number.
impl Asset for NumberAsset {
    fn load(path: &str) -> Result<Self, AssetError> {
        match path.strip_prefix("mem:") {
            Some(raw) => {
                let value = raw.trim().parse::<i32>().map_err(|e| AssetError::Load(e.to_string()))?;
                Ok(NumberAsset { value })
            }
            None => Err(AssetError::NotFound(path.to_string())),
        }
    }
}

#[test]
fn registry_load_get_unload() {
    let path = "mem:hello engine".to_string();
    let mut registry: AssetRegistry<TextAsset> = AssetRegistry::new();
    let id = registry.load(&path).expect("load");
    let asset = registry.get(id).expect("get");
    assert!(asset.content.starts_with("hello engine"));
    assert_eq!(registry.len(), 1);
    registry.unload(id);
    assert!(registry.is_empty());
    assert!(registry.get(id).is_none());
}

#[test]
fn registry_reload_same_id() {
    let path = "mem:reload".to_string();
    let mut registry: AssetRegistry<TextAsset> = AssetRegistry::new();
    let id1 = registry.load(&path).expect("load 1");
    let before = registry.get(id1).unwrap().content.clone();
    REVISION.fetch_add(1, Ordering::SeqCst);
    let id2 = registry.load(&path).expect("load 2");
    assert_eq!(id1, id2);
    let asset = registry.get(id1).expect("get");
    assert_ne!(asset.content, before);
    assert_eq!(registry.len(), 1);
}

#[test]
fn number_asset_get_mut() {
    let path = "mem:99".to_string();
    let mut registry: AssetRegistry<NumberAsset> = AssetRegistry::new();
    let id = registry.load(&path).expect("load");
    let asset = registry.get_mut(id).expect("get_mut");
    assert_eq!(asset.value, 99);
    asset.value = 200;
    assert_eq!(registry.get(id).unwrap().value, 200);
}

#[test]
fn number_asset_parse_failure_is_a_load_error() {
    let mut registry: AssetRegistry<NumberAsset> = AssetRegistry::new();
    match registry.load("mem:not a number") {
        Err(AssetError::Load(_)) => {}
        _ => panic!("expected a load error"),
    }
    assert!(registry.is_empty());
}

#[test]
fn loader_load_and_get() {
    let path = "mem:loader content".to_string();
    let mut loader: AssetLoader<TextAsset> = AssetLoader::new();
    let id = loader.load(&path).expect("loader load");
    let asset = loader.get(id).expect("loader get");
    assert!(asset.content.starts_with("loader content"));
    loader.unload(id);
    assert!(loader.get(id).is_none());
}

#[test]
fn id_for_path_roundtrip() {
    let path = "mem:data".to_string();
    let mut registry: AssetRegistry<TextAsset> = AssetRegistry::new();
    let id = registry.load(&path).expect("load");
    assert_eq!(registry.id_for_path(&path), Some(id));
    assert_eq!(registry.id_for_path("nope.txt"), None);
}

#[test]
fn error_display_and_source() {
    let io_err = std::io::Error::new(std::io::ErrorKind::NotFound, "file missing");
    let err = AssetError::Io(io_err);
    assert!(err.to_string().contains("asset I/O error"));
    let load_err = AssetError::Load("bad format".into());
    assert!(load_err.to_string().contains("bad format"));
    let nf = AssetError::NotFound("foo.bar".into());
    assert!(nf.to_string().contains("foo.bar"));
    let watch_err = AssetError::Watcher("crashed".into());
    assert!(watch_err.to_string().contains("crashed"));
}

#[test]
fn insert_loaded_stores_value_under_next_id() {
    let mut registry: AssetRegistry<u32> = AssetRegistry::new();
    let id = registry.insert_loaded("a.bin", Ok(7)).unwrap();
    assert_eq!(id, AssetId(1));
    assert_eq!(registry.get(id), Some(&7));
    assert_eq!(registry.id_for_path("a.bin"), Some(id));
    let id2 = registry.insert_loaded("b.bin", Ok(9)).unwrap();
    assert_eq!(id2, AssetId(2));
    assert_eq!(registry.len(), 2);
}

#[test]
fn insert_loaded_error_stores_nothing() {
    let mut registry: AssetRegistry<u32> = AssetRegistry::new();
    let r = registry.insert_loaded("a.bin", Err(AssetError::NotFound("a.bin".to_string())));
    assert!(matches!(r, Err(AssetError::NotFound(ref p)) if p == "a.bin"));
    assert!(registry.is_empty());
    assert_eq!(registry.id_for_path("a.bin"), None);
}

#[test]
fn replace_with_loaded_overwrites_or_keeps() {
    let mut v = 1u32;
    assert!(replace_with_loaded(&mut v, Ok(5)).is_ok());
    assert_eq!(v, 5);
    let r = replace_with_loaded(&mut v, Err(AssetError::Load("bad".to_string())));
    assert!(matches!(r, Err(AssetError::Load(ref m)) if m == "bad"));
    assert_eq!(v, 5);
}

#[test]
fn hot_reload_reloads_changed_assets() {
    let path = "mem:sprite".to_string();
    let other = "mem:untouched".to_string();
    let mut loader: AssetLoader<TextAsset> = AssetLoader::new();
    let id = loader.load(&path).expect("load");
    let other_id = loader.load(&other).expect("load");
    let before = loader.get(id).unwrap().content.clone();
    let other_before = loader.get(other_id).unwrap().content.clone();
    REVISION.fetch_add(1, Ordering::SeqCst);
    let changed = vec![path.clone(), "/not/watched.png".to_string()];
    assert_eq!(loader.hot_reload(&changed), vec![path.clone()]);
    let after = &loader.get(id).unwrap().content;
    assert!(after.starts_with("sprite@v"));
    assert_ne!(*after, before);
    assert_eq!(loader.get(other_id).unwrap().content, other_before);
    assert_eq!(loader.registry().id_for_path(&path), Some(id));
}
