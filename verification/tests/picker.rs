use openlogi_gui::picker::{
    PickerRow, filtered_action_rows, grouped_catalog, normalize_label, normalize_query, query_changed,
};

/// Catalog of six actions: categories 2, 0, 2, 1, 0, 2.
fn catalog() -> Vec<usize> {
    vec![2, 0, 2, 1, 0, 2]
}

#[test]
fn grouping_keeps_catalog_order() {
    let groups = grouped_catalog(&catalog());
    assert_eq!(groups, vec![(2, vec![0, 2, 5]), (0, vec![1, 4]), (1, vec![3])]);
    assert_eq!(grouped_catalog(&[]), vec![]);
}

#[test]
fn grouping_partitions_catalog() {
    let cats = vec![3, 3, 1, 0, 1, 3, 2, 0];
    let groups = grouped_catalog(&cats);
    let mut seen = vec![0; cats.len()];
    for (c, acts) in &groups {
        assert!(!acts.is_empty());
        for a in acts {
            assert_eq!(cats[*a], *c);
            seen[*a] += 1;
        }
        assert!(acts.windows(2).all(|w| w[0] < w[1]));
    }
    assert!(seen.iter().all(|n| *n == 1));
    let order: Vec<usize> = groups.iter().map(|g| g.0).collect();
    assert_eq!(order, vec![3, 1, 0, 2]);
}

fn labels() -> (Vec<String>, Vec<String>) {
    let actions = ["copy", "back", "paste", "volume up", "forward", "cut"];
    let categories = ["browser", "media", "editing"];
    (
        actions.iter().map(|s| s.to_string()).collect(),
        categories.iter().map(|s| s.to_string()).collect(),
    )
}

#[test]
fn empty_query_lists_everything() {
    let groups = grouped_catalog(&catalog());
    let (al, cl) = labels();
    let rows = filtered_action_rows(&groups, "", &al, &cl, Some(2));
    assert_eq!(
        rows,
        vec![
            PickerRow::Header { category: 2, first: true },
            PickerRow::Item { action: 0, row_id: 0, selected: false },
            PickerRow::Item { action: 2, row_id: 1, selected: true },
            PickerRow::Item { action: 5, row_id: 2, selected: false },
            PickerRow::Header { category: 0, first: false },
            PickerRow::Item { action: 1, row_id: 3, selected: false },
            PickerRow::Item { action: 4, row_id: 4, selected: false },
            PickerRow::Header { category: 1, first: false },
            PickerRow::Item { action: 3, row_id: 5, selected: false },
        ]
    );
}

#[test]
fn query_filters_by_action_or_category_label() {
    let groups = grouped_catalog(&catalog());
    let (al, cl) = labels();
    let rows = filtered_action_rows(&groups, "a", &al, &cl, None);
    assert_eq!(
        rows,
        vec![
            PickerRow::Header { category: 2, first: true },
            PickerRow::Item { action: 2, row_id: 0, selected: false },
            PickerRow::Header { category: 0, first: false },
            PickerRow::Item { action: 1, row_id: 1, selected: false },
            PickerRow::Item { action: 4, row_id: 2, selected: false },
            PickerRow::Header { category: 1, first: false },
            PickerRow::Item { action: 3, row_id: 3, selected: false },
        ]
    );
    let rows = filtered_action_rows(&groups, "media", &al, &cl, Some(3));
    assert_eq!(
        rows,
        vec![
            PickerRow::Header { category: 1, first: true },
            PickerRow::Item { action: 3, row_id: 0, selected: true },
        ]
    );
    assert!(filtered_action_rows(&groups, "zzz", &al, &cl, None).is_empty());
}

#[test]
fn normalization() {
    assert_eq!(normalize_query("  Copy \t"), "copy");
    assert_eq!(normalize_query("ÉDIT"), "édit");
    assert_eq!(normalize_label("Volume Up"), "volume up");
}

#[test]
fn scroll_resets_only_on_change() {
    let mut last = String::new();
    assert!(!query_changed(&mut last, ""));
    assert!(query_changed(&mut last, "co"));
    assert_eq!(last, "co");
    assert!(!query_changed(&mut last, "co"));
    assert!(query_changed(&mut last, "cop"));
}

#[test]
fn normalization_follows_unicode() {
    assert_eq!(normalize_query("\u{3000}Copy\u{a0}\u{2009}"), "copy");
    assert_eq!(normalize_query("\u{85}Zoom In\n"), "zoom in");
    assert_eq!(normalize_query("   "), "");
    assert_eq!(normalize_query("a\u{200b}"), "a\u{200b}");
    assert_eq!(normalize_label("ΟΔΟΣ"), "οδος");
    assert_eq!(normalize_label("  Mixed Case  "), "  mixed case  ");
}

use openlogi_gui::picker::{trim, white_space};

#[test]
fn trim_matches_std() {
    for s in ["", " ", "  a  ", "\u{3000}é\u{a0}", "a b", "\t\n\r\u{b}\u{c}x\u{2028}\u{2029}", "\u{200b}y\u{200b}", "ü"] {
        assert_eq!(trim(s), s.trim());
    }
    for c in ['\t', ' ', '\u{85}', '\u{a0}', '\u{1680}', '\u{2000}', '\u{200a}', '\u{202f}', '\u{205f}', '\u{3000}'] {
        assert!(white_space(c));
        assert_eq!(white_space(c), c.is_whitespace());
    }
    for c in ['a', '\u{200b}', '\u{180e}', '\u{feff}', '\u{1f}'] {
        assert!(!white_space(c));
        assert_eq!(white_space(c), c.is_whitespace());
    }
}
