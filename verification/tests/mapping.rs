use ebook_sort::metadata::{MetaEntry, MetaPair, Metadata};

fn pair(key: &str, value: &str) -> MetaPair {
    MetaPair { key: String::from(key), value: String::from(value) }
}

#[test]
fn grouping_keeps_each_keys_values_in_order() {
    let m = Metadata::from_pairs(vec![
        pair("creator", "Jane"),
        pair("title", "T"),
        pair("creator", "John"),
        pair("date", "2001"),
    ]);
    let creators = m.get("creator").expect("creator is present");
    assert_eq!(creators.len(), 2);
    assert_eq!(creators[0], "Jane");
    assert_eq!(creators[1], "John");
    let titles = m.get("title").expect("title is present");
    assert_eq!(titles.len(), 1);
    assert_eq!(titles[0], "T");
}

#[test]
fn absent_key_answers_none() {
    let m = Metadata::from_pairs(vec![pair("creator", "Jane")]);
    assert!(m.get("isbn").is_none());
    assert!(Metadata::new().get("creator").is_none());
}

#[test]
fn present_empty_differs_from_absent() {
    let present_empty = Metadata {
        entries: vec![MetaEntry { key: String::from("creator"), values: vec![] }],
    };
    let vs = present_empty.get("creator").expect("key is present");
    assert!(vs.is_empty());
    assert!(Metadata::new().get("creator").is_none());
}

#[test]
fn add_value_appends_to_an_existing_key() {
    let mut m = Metadata::new();
    m.add_value(String::from("creator"), String::from("Jane"));
    m.add_value(String::from("creator"), String::from("John"));
    m.add_value(String::from("title"), String::from("T"));
    let creators = m.get("creator").expect("creator is present");
    assert_eq!(creators.len(), 2);
    assert_eq!(creators[0], "Jane");
    assert_eq!(creators[1], "John");
}
