use parallel_disk_usage::progress_report::effectual_reporter::EffectualReporter;
use parallel_disk_usage::progress_report::RecordingObserver;
use parallel_disk_usage::size::{Bytes, Size};
use parallel_disk_usage::tree::Tree;
use parallel_disk_usage::tree_builder::{MemoryChild, MemoryEntry, MemorySource, TreeBuilder};

type SampleData = Bytes;

const SAMPLE_DIR_SIZE: u64 = 5;

fn len(text: &str) -> SampleData {
    Bytes::new(text.len() as u64)
}

fn dir_entry(children: Vec<(&str, u64)>) -> Option<MemoryEntry<Bytes>> {
    Some(MemoryEntry {
        own_size: Bytes::new(SAMPLE_DIR_SIZE),
        children: children
            .into_iter()
            .map(|(name, id)| MemoryChild {
                name: name.to_string(),
                id,
            })
            .collect(),
    })
}

fn file_entry(content: &str) -> Option<MemoryEntry<Bytes>> {
    Some(MemoryEntry {
        own_size: len(content),
        children: Vec::new(),
    })
}

/// The sample hierarchy: a flat directory of four files, a nested chain,
/// and an empty directory.
fn create_sample() -> MemorySource<Bytes> {
    MemorySource {
        entries: vec![
            dir_entry(vec![("0", 3), ("1", 4), ("2", 5), ("3", 6)]),
            dir_entry(vec![("0", 7)]),
            dir_entry(vec![]),
            file_entry(""),
            file_entry("a"),
            file_entry("ab"),
            file_entry("abc"),
            dir_entry(vec![("1", 8)]),
            file_entry("abcdef"),
        ],
    }
}

fn sample_tree(root_id: u64, name: &str) -> Tree<Bytes> {
    let source = create_sample();
    let mut reporter = EffectualReporter::new(RecordingObserver::<Bytes>::new());
    TreeBuilder {
        id: root_id,
        name: name.to_string(),
        source: &source,
    }
    .build(&mut reporter)
    .unwrap()
}

fn assert_tree_eq(actual: &Tree<Bytes>, expected: &Tree<Bytes>) {
    assert_eq!(actual.name, expected.name);
    assert_eq!(actual.data, expected.data);
    assert_eq!(actual.children.len(), expected.children.len());
    for (a, e) in actual.children.iter().zip(expected.children.iter()) {
        assert_tree_eq(a, e);
    }
}

#[test]
fn flat() {
    let actual = sample_tree(0, "flat");
    let expected = Tree {
        name: "flat".to_string(),
        data: len("")
            .add(len("a"))
            .add(len("ab"))
            .add(len("abc"))
            .add(Bytes::new(SAMPLE_DIR_SIZE)),
        children: vec![
            Tree {
                name: "0".to_string(),
                data: len(""),
                children: Vec::new(),
            },
            Tree {
                name: "1".to_string(),
                data: len("a"),
                children: Vec::new(),
            },
            Tree {
                name: "2".to_string(),
                data: len("ab"),
                children: Vec::new(),
            },
            Tree {
                name: "3".to_string(),
                data: len("abc"),
                children: Vec::new(),
            },
        ],
    };
    assert_tree_eq(&actual, &expected);
    assert_eq!(actual.data, Bytes::new(11));
}

#[test]
fn nested() {
    let actual = sample_tree(1, "nested");
    let expected = Tree {
        name: "nested".to_string(),
        data: len("abcdef")
            .add(Bytes::new(SAMPLE_DIR_SIZE))
            .add(Bytes::new(SAMPLE_DIR_SIZE)),
        children: vec![Tree {
            name: "0".to_string(),
            data: len("abcdef").add(Bytes::new(SAMPLE_DIR_SIZE)),
            children: vec![Tree {
                name: "1".to_string(),
                data: len("abcdef"),
                children: Vec::new(),
            }],
        }],
    };
    assert_tree_eq(&actual, &expected);
    assert_eq!(actual.data, Bytes::new(16));
}

#[test]
fn empty_dir() {
    let actual = sample_tree(2, "empty-dir");
    let expected = Tree {
        name: "empty-dir".to_string(),
        data: Bytes::new(SAMPLE_DIR_SIZE),
        children: Vec::new(),
    };
    assert_tree_eq(&actual, &expected);
}

#[test]
fn missing_child_becomes_zero_leaf() {
    let source = MemorySource::<Bytes> {
        entries: vec![dir_entry(vec![("gone", 9)])],
    };
    let mut reporter = EffectualReporter::new(RecordingObserver::<Bytes>::new());
    let tree = TreeBuilder {
        id: 0,
        name: "root".to_string(),
        source: &source,
    }
    .build(&mut reporter)
    .unwrap();
    assert_eq!(tree.data, Bytes::new(SAMPLE_DIR_SIZE));
    assert_eq!(tree.children.len(), 1);
    assert_eq!(tree.children[0].name, "gone");
    assert_eq!(tree.children[0].data, Bytes::new(0));
    assert!(tree.children[0].children.is_empty());
    assert_eq!(reporter.progress.errors, 1);
    assert_eq!(reporter.progress.known_items, 2);
    assert_eq!(reporter.progress.scanned_items, 2);
}

#[test]
fn missing_root_is_fatal() {
    let source = create_sample();
    let mut reporter = EffectualReporter::new(RecordingObserver::<Bytes>::new());
    let result = TreeBuilder {
        id: 100,
        name: "nowhere".to_string(),
        source: &source,
    }
    .build(&mut reporter);
    assert!(result.is_err());
    assert_eq!(reporter.progress.known_items, 0);
}

#[test]
fn builder_reports_expected_event_counts() {
    let source = create_sample();
    let mut reporter = EffectualReporter::new(RecordingObserver::<Bytes>::new());
    let tree = TreeBuilder {
        id: 0,
        name: "flat".to_string(),
        source: &source,
    }
    .build(&mut reporter)
    .unwrap();
    assert_eq!(tree.children.len(), 4);
    assert_eq!(reporter.progress.known_items, 5);
    assert_eq!(reporter.progress.scanned_items, 5);
    assert_eq!(reporter.progress.scanned_total, Bytes::new(11));
    assert_eq!(reporter.progress.errors, 0);
}
