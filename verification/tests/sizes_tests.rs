use icon_extractor::icons::IconData;
use icon_extractor::sizes::{keep_first_by_size, sort_first_per_size};

fn icon(size: u32, tag: &str) -> IconData {
    IconData { size, width: size, height: size, data_url: tag.to_string() }
}

#[test]
fn keep_first_inserts_in_order() {
    let mut list = Vec::new();
    keep_first_by_size(&mut list, icon(32, "a"));
    keep_first_by_size(&mut list, icon(16, "b"));
    keep_first_by_size(&mut list, icon(32, "c"));
    keep_first_by_size(&mut list, icon(256, "d"));
    keep_first_by_size(&mut list, icon(24, "e"));
    let got: Vec<(u32, &str)> = list.iter().map(|i| (i.size, i.data_url.as_str())).collect();
    assert_eq!(got, vec![(16, "b"), (24, "e"), (32, "a"), (256, "d")]);
}

#[test]
fn sorted_first_per_size_law_on_values() {
    let items = vec![icon(5, "p"), icon(3, "q"), icon(5, "r"), icon(1, "s"), icon(3, "t"), icon(9, "u")];
    let out = sort_first_per_size(items.clone());
    let sizes: Vec<u32> = out.iter().map(|i| i.size).collect();
    assert_eq!(sizes, vec![1, 3, 5, 9]);
    for o in &out {
        let first = items.iter().find(|i| i.size == o.size).unwrap();
        assert_eq!(first, o);
    }
    assert!(sort_first_per_size(Vec::<IconData>::new()).is_empty());
}
