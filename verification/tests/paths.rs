use lonk::config::config_path;
use lonk::paths::{config_dir, default_db_path, join_path};
use lonk::web::{assets, content_type_for, web_source_from_env, ContentType, WebSource};

#[test]
fn resolution_order() {
    assert_eq!(config_dir(Some("/explicit/dir"), Some("/xdg"), "/home/u"), "/explicit/dir");
    assert_eq!(config_dir(None, Some("/xdg"), "/home/u"), "/xdg/lonk");
    assert_eq!(config_dir(None, None, "/home/u"), "/home/u/.config/lonk");
}

#[test]
fn joins_like_pathbuf() {
    assert_eq!(join_path("/a/", "b"), "/a/b");
    assert_eq!(join_path("", "b"), "b");
    assert_eq!(config_path("/home/u/.config/lonk"), "/home/u/.config/lonk/config.toml");
    assert_eq!(default_db_path("/x"), "/x/lonk.db");
}

#[test]
fn web_source_choice() {
    assert_eq!(web_source_from_env(None), WebSource::Embedded);
    assert_eq!(web_source_from_env(Some(String::new())), WebSource::Embedded);
    assert_eq!(web_source_from_env(Some("/srv/ui".into())), WebSource::Dir("/srv/ui".into()));
}

#[test]
fn asset_content_types() {
    assert_eq!(content_type_for("extra.css"), ContentType::Extension("css".into()));
    assert_eq!(content_type_for("assets/index-abc.js"), ContentType::Extension("js".into()));
    assert_eq!(content_type_for("assets/noext"), ContentType::Bytes);
    assert_eq!(content_type_for(".hidden"), ContentType::Bytes);
    assert_eq!(content_type_for("a/b.unknownext"), ContentType::Bytes);
    assert_eq!(content_type_for("a/b.css/."), ContentType::Extension("css".into()));
    assert_eq!(content_type_for("a/.."), ContentType::Bytes);
    assert_eq!(
        assets("x.svg", Some(vec![1, 2])),
        Some((ContentType::Extension("svg".into()), vec![1, 2]))
    );
    assert_eq!(assets("x.svg", None), None);
}
