use flate2::write::GzEncoder;
use flate2::Compression;
use sharedobject::structure::{listing, ArchiveEntry, ArchiveListing, Listing, Structure};
use sharedobject::Error;

enum Item<'a> {
    File(&'a str, &'a str),
    Dir(&'a str),
}

fn archive(items: &[Item]) -> Vec<u8> {
    let mut builder = tar::Builder::new(GzEncoder::new(Vec::new(), Compression::default()));
    for item in items {
        let mut header = tar::Header::new_gnu();
        match item {
            Item::File(path, contents) => {
                header.set_size(contents.len() as u64);
                header.set_mode(0o644);
                header.set_entry_type(tar::EntryType::Regular);
                builder.append_data(&mut header, path, contents.as_bytes()).unwrap();
            }
            Item::Dir(path) => {
                header.set_size(0);
                header.set_mode(0o755);
                header.set_entry_type(tar::EntryType::Directory);
                builder.append_data(&mut header, path, &[][..]).unwrap();
            }
        }
    }
    builder.into_inner().unwrap().finish().unwrap()
}

fn describe(l: &ArchiveListing) -> Vec<String> {
    l.paths
        .iter()
        .zip(l.entries.iter())
        .map(|(p, e)| match e {
            Listing::Contents(c) => format!("{} = {}", p, String::from_utf8_lossy(c)),
            Listing::Children(c) => format!("{} -> [{}]", p, c.join(", ")),
        })
        .collect()
}

#[test]
fn files_without_directory_entries() {
    let data = archive(&[Item::File("a.txt", "hello"), Item::File("b/c.txt", "world")]);
    let l = Structure::get(&data).unwrap();
    assert_eq!(describe(&l), vec!["a.txt = hello", "b/c.txt = world"]);
}

#[test]
fn directories_list_their_entries() {
    let data = archive(&[
        Item::Dir("d"),
        Item::File("d/x", "1"),
        Item::Dir("d/e"),
        Item::File("d/e/y", "2"),
        Item::File(".hidden", "3"),
    ]);
    let l = Structure::get(&data).unwrap();
    assert_eq!(describe(&l), vec!["d -> [d/x, d/e]", "d/x = 1", "d/e -> [d/e/y]", "d/e/y = 2"]);
}

#[test]
fn listing_of_entries() {
    let entry = |path: &str, is_dir: bool, contents: &str| ArchiveEntry {
        path: path.to_string(),
        is_dir,
        contents: contents.as_bytes().to_vec(),
    };
    let entries = vec![
        entry("d", true, ""),
        entry("d/x", false, "1"),
        entry("d/e", true, ""),
        entry("d/e/y", false, "2"),
        entry(".git", true, ""),
        entry("d/x", false, "3"),
    ];
    let l = listing(&entries);
    assert_eq!(
        describe(&l),
        vec!["d -> [d/x, d/e, d/x]", "d/x = 3", "d/e -> [d/e/y]", "d/e/y = 2"]
    );
    assert!(listing(&vec![]).paths.is_empty());
}

#[test]
fn unreadable_archive() {
    assert!(matches!(Structure::get(&vec![1, 2, 3]), Err(Error::Archive)));
}
