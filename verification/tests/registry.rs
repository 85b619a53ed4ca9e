use quartz_messenger::error::ClientError;
use quartz_messenger::registry::{list_servers, DirEntry, Registry, ServerRecord};

fn file(name: &str, content: &str) -> DirEntry {
    DirEntry::File { name: name.to_string(), content: content.to_string() }
}

fn record(name: &str, url: &str) -> ServerRecord {
    ServerRecord { name: name.to_string(), url: url.to_string() }
}

fn registry_of(entries: Vec<DirEntry>) -> Registry {
    list_servers(Some(entries)).expect("a readable directory")
}

#[test]
fn one_record_per_file() {
    let registry = registry_of(vec![
        file("work", "http://localhost:9000"),
        file("home", "https://example.org/quartz"),
        file("lab", "http://10.0.0.7:8080"),
    ]);
    assert_eq!(registry.len(), 3);
    assert_eq!(
        registry.records(),
        &vec![
            record("work", "http://localhost:9000"),
            record("home", "https://example.org/quartz"),
            record("lab", "http://10.0.0.7:8080"),
        ]
    );
}

#[test]
fn directory_order_is_kept() {
    let registry = registry_of(vec![file("zeta", "z"), file("alpha", "a"), file("mid", "m")]);
    assert_eq!(registry.resolve(0), Ok(&record("zeta", "z")));
    assert_eq!(registry.resolve(1), Ok(&record("alpha", "a")));
    assert_eq!(registry.resolve(2), Ok(&record("mid", "m")));
}

#[test]
fn entries_that_are_no_files_are_skipped() {
    let registry = registry_of(vec![
        DirEntry::Other,
        file("work", "http://localhost:9000"),
        DirEntry::Other,
        DirEntry::Other,
        file("home", "http://localhost:9001"),
    ]);
    assert_eq!(registry.len(), 2);
    assert_eq!(registry.resolve(0), Ok(&record("work", "http://localhost:9000")));
    assert_eq!(registry.resolve(1), Ok(&record("home", "http://localhost:9001")));
}

#[test]
fn url_is_the_whole_content() {
    let registry = registry_of(vec![file("work", "http://localhost:9000/\n")]);
    assert_eq!(registry.resolve(0).map(|r| r.url.as_str()), Ok("http://localhost:9000/\n"));
}

#[test]
fn empty_directory_is_an_empty_registry() {
    let registry = registry_of(Vec::new());
    assert_eq!(registry.len(), 0);
    assert!(registry.records().is_empty());
}

#[test]
fn directory_of_subdirectories_is_an_empty_registry() {
    let registry = registry_of(vec![DirEntry::Other, DirEntry::Other]);
    assert_eq!(registry.len(), 0);
}

#[test]
fn unavailable_directory_is_a_registry_failure() {
    assert_eq!(list_servers(None), Err(ClientError::RegistryIo));
}

#[test]
fn unreadable_file_is_a_registry_failure() {
    let listing = vec![file("work", "http://localhost:9000"), DirEntry::Unreadable, file("home", "x")];
    assert_eq!(list_servers(Some(listing)), Err(ClientError::RegistryIo));
}

#[test]
fn resolve_past_the_end_reports_the_count() {
    let registry = registry_of(vec![file("a", "1"), file("b", "2")]);
    assert_eq!(registry.resolve(2), Err(ClientError::IndexOutOfRange { count: 2 }));
    assert_eq!(registry.resolve(3), Err(ClientError::IndexOutOfRange { count: 2 }));
    assert_eq!(registry.resolve(usize::MAX), Err(ClientError::IndexOutOfRange { count: 2 }));
}

#[test]
fn resolve_on_an_empty_registry_reports_zero() {
    let registry = registry_of(Vec::new());
    assert_eq!(registry.resolve(0), Err(ClientError::IndexOutOfRange { count: 0 }));
    assert_eq!(registry.resolve(1), Err(ClientError::IndexOutOfRange { count: 0 }));
    assert_eq!(registry.resolve(usize::MAX), Err(ClientError::IndexOutOfRange { count: 0 }));
    assert_eq!(registry.select("0"), Err(ClientError::IndexOutOfRange { count: 0 }));
    assert_eq!(registry.select("17"), Err(ClientError::IndexOutOfRange { count: 0 }));
}

#[test]
fn select_reads_the_index_argument() {
    let registry = registry_of(vec![file("a", "1"), DirEntry::Other, file("b", "2")]);
    assert_eq!(registry.select("0"), Ok(&record("a", "1")));
    assert_eq!(registry.select("1"), Ok(&record("b", "2")));
    assert_eq!(registry.select("+1"), Ok(&record("b", "2")));
    assert_eq!(registry.select("001"), Ok(&record("b", "2")));
    assert_eq!(registry.select("2"), Err(ClientError::IndexOutOfRange { count: 2 }));
}

#[test]
fn select_refuses_text_that_is_no_number() {
    let empty = registry_of(Vec::new());
    let registry = registry_of(vec![file("work", "http://localhost:9000")]);
    assert_eq!(empty.select("abc"), Err(ClientError::NonNumericIndex));
    assert_eq!(registry.select("abc"), Err(ClientError::NonNumericIndex));
    assert_eq!(registry.select(""), Err(ClientError::NonNumericIndex));
    assert_eq!(registry.select("-1"), Err(ClientError::NonNumericIndex));
    assert_eq!(registry.select("0x0"), Err(ClientError::NonNumericIndex));
}
