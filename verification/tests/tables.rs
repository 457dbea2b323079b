use sshfs::ssh_filesystem::bi_hash_map::{BiHashMap, OverwriteResult};
use sshfs::ssh_filesystem::file_handle::Fhandles;
use sshfs::ssh_filesystem::inode::Inodes;
use sshfs::ssh_filesystem::path::RemotePath;

fn path(s: &str) -> RemotePath {
    RemotePath::from_bytes(s.as_bytes())
}

#[test]
fn insert_binds_both_ways() {
    let mut m: BiHashMap<u64, String> = BiHashMap::new();
    for (l, r) in [(1u64, "a"), (2, "b"), (1, "c"), (3, "b"), (3, "c")] {
        m.insert(l, r.to_string());
        assert_eq!(m.get_right(&l), Some(&r.to_string()));
        assert_eq!(m.get_left(&r.to_string()), Some(&l));
    }
    assert_eq!(m.len(), 1);
}

#[test]
fn the_two_directions_stay_inverse() {
    let mut m: BiHashMap<u8, u8> = BiHashMap::new();
    let mut x: u32 = 12345;
    for _ in 0..2000 {
        x = x.wrapping_mul(1103515245).wrapping_add(12345);
        let l = ((x >> 16) % 7) as u8;
        let r = ((x >> 8) % 7) as u8;
        match (x >> 24) % 4 {
            0 => {
                m.insert(l, r);
            }
            1 => {
                let _ = m.insert_no_overwrite(l, r);
            }
            2 => {
                m.remove_left(&l);
            }
            _ => {
                m.remove_right(&r);
            }
        }
        let lefts: Vec<u8> = (0..7).filter(|k| m.contains_left(k)).collect();
        let rights: Vec<u8> = (0..7).filter(|k| m.contains_right(k)).collect();
        assert_eq!(lefts.len(), rights.len());
        assert_eq!(lefts.len(), m.len());
        for l in lefts {
            let r = *m.get_right(&l).unwrap();
            assert_eq!(m.get_left(&r), Some(&l));
        }
        for r in rights {
            let l = *m.get_left(&r).unwrap();
            assert_eq!(m.get_right(&l), Some(&r));
        }
    }
}

#[test]
fn what_an_insertion_reports() {
    let mut m: BiHashMap<u8, char> = BiHashMap::new();
    assert_eq!(m.insert(1, 'a'), OverwriteResult::NoOverwrite);
    assert_eq!(m.insert(2, 'b'), OverwriteResult::NoOverwrite);
    // both keys bound, to other keys
    assert_eq!(m.insert(1, 'b'), OverwriteResult::OverwriteBoth((1, 'a'), (2, 'b')));
    assert_eq!(m.len(), 1);
    // only the left key bound
    assert_eq!(m.insert(1, 'c'), OverwriteResult::OverwriteRight('b'));
    // only the right key bound
    assert_eq!(m.insert(5, 'c'), OverwriteResult::OverwriteLeft(1));
    // the pair itself is there already: one pair goes, and comes back
    assert_eq!(m.insert(5, 'c'), OverwriteResult::OverwriteRight('c'));
    assert_eq!(m.len(), 1);
    assert_eq!(m.get_right(&5), Some(&'c'));
    assert_eq!(m.get_left(&'c'), Some(&5));
    // both reported only where two other keys are involved
    m.insert(6, 'd');
    assert_eq!(m.insert(5, 'd'), OverwriteResult::OverwriteBoth((5, 'c'), (6, 'd')));
    assert_eq!(m.insert(5, 'd'), OverwriteResult::OverwriteRight('d'));
}

#[test]
fn insert_no_overwrite_fails_without_a_change() {
    let mut m: BiHashMap<u8, char> = BiHashMap::new();
    assert_eq!(m.insert_no_overwrite(1, 'a'), Ok(()));
    let mut same: BiHashMap<u8, char> = BiHashMap::new();
    same.insert(1, 'a');
    assert_eq!(m.insert_no_overwrite(1, 'b'), Err(()));
    assert!(m.same_pairs(&same));
    assert_eq!(m.insert_no_overwrite(2, 'a'), Err(()));
    assert!(m.same_pairs(&same));
    assert_eq!(m.insert_no_overwrite(1, 'a'), Err(()));
    assert!(m.same_pairs(&same));
    assert!(!m.contains_left(&2) && !m.contains_right(&'b'));
    assert_eq!(m.insert_no_overwrite(2, 'b'), Ok(()));
    assert!(!m.same_pairs(&same));
    assert!(!same.same_pairs(&m));
}

#[test]
fn same_pairs_does_not_go_by_order() {
    let mut a: BiHashMap<u8, char> = BiHashMap::new();
    let mut b: BiHashMap<u8, char> = BiHashMap::new();
    a.insert(1, 'x');
    a.insert(2, 'y');
    b.insert(2, 'y');
    b.insert(1, 'x');
    assert!(a.same_pairs(&b));
    b.insert(2, 'z');
    assert!(!a.same_pairs(&b));
    b.insert(3, 'y');
    assert!(!a.same_pairs(&b));
}

#[test]
fn add_is_idempotent() {
    let mut inodes = Inodes::with_root(path("/srv"));
    let first = inodes.add(&path("/srv/a"));
    assert_eq!(first, 2);
    for _ in 0..5 {
        assert_eq!(inodes.add(&path("/srv/a")), first);
    }
    // the counter has moved once
    assert_eq!(inodes.add(&path("/srv/b")), 3);
    assert_eq!(inodes.add(&path("/srv")), 1);
}

#[test]
fn the_root_is_inode_one() {
    let inodes = Inodes::with_root(path("/srv/data"));
    assert_eq!(inodes.get_path(1), Some(path("/srv/data")));
    assert_eq!(inodes.get_inode(&path("/srv/data/")), Some(1));
    assert_eq!(inodes.get_path(0), None);
    assert_eq!(inodes.get_path(2), None);
    assert!(inodes.has_room());
}

#[test]
fn rename_moves_the_inode() {
    let mut inodes = Inodes::with_root(path("/"));
    let a = inodes.add(&path("/a"));
    let b = inodes.add(&path("/b"));
    inodes.rename(&path("/a"), &path("/c"));
    assert_eq!(inodes.get_inode(&path("/a")), None);
    assert_eq!(inodes.get_inode(&path("/c")), Some(a));
    assert_eq!(inodes.get_path(a), Some(path("/c")));
    // onto a path that is registered: its number is dropped and not used again
    inodes.rename(&path("/c"), &path("/b"));
    assert_eq!(inodes.get_inode(&path("/b")), Some(a));
    assert_eq!(inodes.get_path(b), None);
    assert_eq!(inodes.add(&path("/new")), b + 1);
    // onto itself: nothing changes
    inodes.rename(&path("/b"), &path("/b"));
    assert_eq!(inodes.get_inode(&path("/b")), Some(a));
}

#[test]
fn registrations_are_dropped_by_number_and_by_path() {
    let mut inodes = Inodes::with_root(path("/"));
    let a = inodes.add(&path("/a"));
    let b = inodes.add(&path("/b"));
    assert_eq!(inodes.del_inode(a), Some(a));
    assert_eq!(inodes.del_inode(a), None);
    assert_eq!(inodes.get_inode(&path("/a")), None);
    assert_eq!(inodes.del_inode_with_path(&path("/b")), Some(b));
    assert_eq!(inodes.del_inode_with_path(&path("/b")), None);
    assert_eq!(inodes.get_path(b), None);
    // numbers are not handed out twice
    assert_eq!(inodes.add(&path("/a")), b + 1);
}

#[test]
fn handles_rise_from_zero() {
    let mut table: Fhandles<&'static str> = Fhandles::new();
    assert_eq!(table.add_file("a"), 0);
    assert_eq!(table.add_file("b"), 1);
    assert_eq!(table.get_file(0), Some(&"a"));
    assert_eq!(table.get_file(1), Some(&"b"));
    assert_eq!(table.get_file(2), None);
    table.del_file(0);
    assert_eq!(table.get_file(0), None);
    assert_eq!(table.get_file(1), Some(&"b"));
    table.del_file(0);
    assert_eq!(table.add_file("c"), 2);
}

#[test]
fn handles_of_interleaved_callers_are_distinct() {
    let mut table: Fhandles<usize> = Fhandles::new();
    let mut inodes = Inodes::with_root(path("/"));
    let mut all = Vec::new();
    for i in 0..100 {
        for caller in 0..8 {
            all.push(table.add_file(caller * 100 + i));
            // every caller sees the one number of the one path
            assert_eq!(inodes.add(&path("/shared")), 2);
            if (i + caller) % 3 == 0 {
                table.del_file(all[all.len() / 2]);
            }
        }
    }
    all.sort();
    all.dedup();
    assert_eq!(all.len(), 800);
    assert_eq!(inodes.add(&path("/next")), 3);
}

#[test]
fn the_root_stays_bound_through_changes_of_other_paths() {
    let mut inodes = Inodes::with_root(path("/srv/data"));
    let mut x: u32 = 99;
    let names = ["/srv/data/a", "/srv/data/b", "/srv/data/c", "/srv", "/x", "rel"];
    for _ in 0..1000 {
        x = x.wrapping_mul(1103515245).wrapping_add(12345);
        let p = path(names[(x >> 16) as usize % names.len()]);
        let q = path(names[(x >> 8) as usize % names.len()]);
        match (x >> 24) % 4 {
            0 => {
                assert!(inodes.add(&p) >= 2);
            }
            1 => {
                let ino = 2 + (x >> 4) as u64 % 20;
                inodes.del_inode(ino);
            }
            2 => {
                inodes.del_inode_with_path(&p);
            }
            _ => inodes.rename(&p, &q),
        }
        assert_eq!(inodes.get_path(1), Some(path("/srv/data")));
        assert_eq!(inodes.get_inode(&path("/srv/data")), Some(1));
    }
}

#[test]
fn a_path_registered_many_times_moves_the_counter_once() {
    let mut inodes = Inodes::with_root(path("/"));
    let first = inodes.add(&path("/p"));
    for _ in 0..50 {
        assert_eq!(inodes.add(&path("/p")), first);
    }
    assert_eq!(inodes.add(&path("/q")), first + 1);
}

#[test]
fn every_file_gets_a_handle_of_its_own() {
    let mut table: Fhandles<usize> = Fhandles::new();
    let handles: Vec<u64> = (0..300).map(|i| table.add_file(i)).collect();
    for (i, h) in handles.iter().enumerate() {
        assert_eq!(*h, i as u64);
        assert_eq!(table.get_file(*h), Some(&i));
    }
}
