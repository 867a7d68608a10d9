//! Tests of the directory-watch policy: the command sequences emitted for
//! arriving files under each combination of flags.

use platter::arguments::Directory;
use platter::dir_watcher::{DirWatcher, WatcherEvent};
use platter::ids::Tag;
use platter::platter_state::PlatterCommand;

fn watch_dir(load_existing: bool, latest_only: bool, organize_by_dir: bool) -> Directory {
    Directory { dir: "/watch".to_owned(), load_existing, latest_only, organize_by_dir }
}

fn expect_load(c: &PlatterCommand, path: &str, tag: Tag) {
    match c {
        PlatterCommand::LoadFile(p, t) => {
            assert_eq!(p, path);
            assert_eq!(*t, Some(tag));
        }
        other => panic!("expected a load, got {other:?}"),
    }
}

fn expect_clear(c: &PlatterCommand, tag: Tag) {
    match c {
        PlatterCommand::ClearTag(t) => assert_eq!(*t, tag),
        other => panic!("expected a clear, got {other:?}"),
    }
}

#[test]
fn test_dir_watch() {
    // a plain watch: no startup commands, and exactly one load per file
    let tag = Tag::new();
    let mut w = DirWatcher::new(watch_dir(false, false, false), tag);
    assert_eq!(w.startup_commands(Vec::new()).len(), 0);
    let cmds = w.on_event(WatcherEvent::FilesArrived(vec!["/watch/cube.obj".to_owned()]));
    assert_eq!(cmds.len(), 1);
    expect_load(&cmds[0], "/watch/cube.obj", tag);
    assert_eq!(w.on_event(WatcherEvent::Other).len(), 0);
    assert_eq!(w.on_event(WatcherEvent::Stop).len(), 0);
    assert!(w.stopped);
}

#[test]
fn test_exclusive_watch() {
    // latest-only: a clear of the tag precedes every load
    let tag = Tag::new();
    let mut w = DirWatcher::new(watch_dir(false, true, false), tag);
    let first = w.on_event(WatcherEvent::FilesArrived(vec!["/watch/cube.obj".to_owned()]));
    let second = w.on_event(WatcherEvent::FilesArrived(vec!["/watch/monkey.obj".to_owned()]));
    assert_eq!(first.len(), 2);
    expect_clear(&first[0], tag);
    expect_load(&first[1], "/watch/cube.obj", tag);
    assert_eq!(second.len(), 2);
    expect_clear(&second[0], tag);
    expect_load(&second[1], "/watch/monkey.obj", tag);
}

#[test]
fn test_exclusive_dir_watch() {
    // organize-by-directory with latest-only: a new subdirectory clears the
    // tag and becomes the active one; only files under it are loaded
    let tag = Tag::new();
    let mut w = DirWatcher::new(watch_dir(false, true, true), tag);
    // a file before any subdirectory exists is ignored
    assert_eq!(
        w.on_event(WatcherEvent::FilesArrived(vec!["/watch/stray.obj".to_owned()])).len(),
        0
    );
    let c1 = w.on_event(WatcherEvent::FolderCreated(vec!["/watch/d1".to_owned()]));
    assert_eq!(c1.len(), 1);
    expect_clear(&c1[0], tag);
    let l1 = w.on_event(WatcherEvent::FilesArrived(vec![
        "/watch/d1/cube.obj".to_owned(),
        "/watch/d1/monkey.obj".to_owned(),
    ]));
    assert_eq!(l1.len(), 2);
    expect_load(&l1[0], "/watch/d1/cube.obj", tag);
    expect_load(&l1[1], "/watch/d1/monkey.obj", tag);
    let c2 = w.on_event(WatcherEvent::FolderCreated(vec!["/watch/d2".to_owned()]));
    assert_eq!(c2.len(), 1);
    expect_clear(&c2[0], tag);
    // files in the old subdirectory are now outside the active one
    assert_eq!(
        w.on_event(WatcherEvent::FilesArrived(vec!["/watch/d1/late.obj".to_owned()])).len(),
        0
    );
    let l2 = w.on_event(WatcherEvent::FilesArrived(vec!["/watch/d2/cube.obj".to_owned()]));
    assert_eq!(l2.len(), 1);
    expect_load(&l2[0], "/watch/d2/cube.obj", tag);
}

#[test]
fn load_existing_replays_entries_in_order() {
    let tag = Tag::new();
    let w = DirWatcher::new(watch_dir(true, false, false), tag);
    let cmds = w.startup_commands(vec![
        "/watch/a.obj".to_owned(),
        "/watch/b.glb".to_owned(),
        "/watch/c.gltf".to_owned(),
    ]);
    assert_eq!(cmds.len(), 3);
    expect_load(&cmds[0], "/watch/a.obj", tag);
    expect_load(&cmds[1], "/watch/b.glb", tag);
    expect_load(&cmds[2], "/watch/c.gltf", tag);
}

#[test]
fn empty_watch_emits_nothing_until_a_file_arrives() {
    let tag = Tag::new();
    let mut w = DirWatcher::new(watch_dir(false, false, false), tag);
    assert_eq!(w.startup_commands(Vec::new()).len(), 0);
    assert_eq!(w.on_event(WatcherEvent::Other).len(), 0);
    assert_eq!(w.on_event(WatcherEvent::FolderCreated(vec!["/watch/d".to_owned()])).len(), 0);
    let cmds = w.on_event(WatcherEvent::FilesArrived(vec!["/watch/f.obj".to_owned()]));
    assert_eq!(cmds.len(), 1);
}

#[test]
fn organize_confinement_checks_path_boundaries() {
    // "/watch/d1x/f.obj" is not under "/watch/d1" even though it shares the
    // byte prefix
    assert!(platter::dir_watcher::path_under("/watch/d1", "/watch/d1/f.obj"));
    assert!(!platter::dir_watcher::path_under("/watch/d1", "/watch/d1x/f.obj"));
    assert!(platter::dir_watcher::path_under("/watch/d1", "/watch/d1"));
    assert!(!platter::dir_watcher::path_under("/watch/d1", "/watch"));
}

#[test]
fn fresh_tags_are_version_four() {
    let t = Tag::new();
    assert_eq!(platter::ids::tag_version(&t), 4);
    let t2 = Tag::new();
    assert_eq!(platter::ids::tag_version(&t2), 4);
}
