use ebook_sort::metadata::{MetaEntry, MetaPair, Metadata};
use ebook_sort::plan::{join_path, plan};

fn pair(key: &str, value: &str) -> MetaPair {
    MetaPair { key: String::from(key), value: String::from(value) }
}

#[test]
fn single_creator_names_the_directory() {
    let m = Metadata::from_pairs(vec![pair("creator", "Jane Doe"), pair("title", "My Story")]);
    let p = plan(&m, "book1.epub");
    assert_eq!(p.author_dir, "Jane Doe");
    assert_eq!(p.dest_file, "My Story.epub");
}

#[test]
fn several_creators_join_with_comma_space() {
    let m = Metadata::from_pairs(vec![
        pair("creator", "Jane Doe"),
        pair("creator", "John Smith"),
        pair("creator", "A. Third"),
    ]);
    let p = plan(&m, "trio.epub");
    assert_eq!(p.author_dir, "Jane Doe, John Smith, A. Third");
}

#[test]
fn missing_creator_falls_back_to_unsorted() {
    let m = Metadata::from_pairs(vec![pair("title", "Nameless")]);
    let p = plan(&m, "x.epub");
    assert_eq!(p.author_dir, "Unsorted");
}

#[test]
fn empty_creator_list_falls_back_to_unsorted() {
    let m = Metadata {
        entries: vec![MetaEntry { key: String::from("creator"), values: vec![] }],
    };
    let p = plan(&m, "x.epub");
    assert_eq!(p.author_dir, "Unsorted");
}

#[test]
fn title_is_trimmed_and_gets_the_extension() {
    let m = Metadata::from_pairs(vec![pair("title", "  My Story \t")]);
    let p = plan(&m, "whatever-name.epub");
    assert_eq!(p.dest_file, "My Story.epub");
}

#[test]
fn first_title_value_wins() {
    let m = Metadata::from_pairs(vec![pair("title", "First"), pair("title", "Second")]);
    let p = plan(&m, "x.epub");
    assert_eq!(p.dest_file, "First.epub");
}

#[test]
fn missing_title_keeps_the_trimmed_original_name() {
    let m = Metadata::from_pairs(vec![pair("creator", "Jane Doe")]);
    let p = plan(&m, " noMeta.epub ");
    assert_eq!(p.dest_file, "noMeta.epub");
}

#[test]
fn empty_title_list_keeps_the_trimmed_original_name() {
    let m = Metadata {
        entries: vec![MetaEntry { key: String::from("title"), values: vec![] }],
    };
    let p = plan(&m, "kept.epub");
    assert_eq!(p.dest_file, "kept.epub");
}

#[test]
fn planned_destination_path_for_a_full_book() {
    let m = Metadata::from_pairs(vec![pair("creator", "Jane Doe"), pair("title", "My Story")]);
    let p = plan(&m, "book1.epub");
    let dir = join_path("root", p.author_dir.as_str());
    let dest = join_path(dir.as_str(), p.dest_file.as_str());
    assert_eq!(dest, "root/Jane Doe/My Story.epub");
}

#[test]
fn empty_metadata_goes_to_unsorted_under_its_own_name() {
    let m = Metadata::from_pairs(vec![]);
    let p = plan(&m, "noMeta.epub");
    let dir = join_path("output", p.author_dir.as_str());
    let dest = join_path(dir.as_str(), p.dest_file.as_str());
    assert_eq!(dest, "output/Unsorted/noMeta.epub");
}
