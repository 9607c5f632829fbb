use lvn_fragment::convert::keyed_item_diff_to_keyed_item;
use lvn_fragment::statics::{decimal_chars, lookup_template, string_is};
use lvn_fragment::{
    Child, ChildDiff, ComponentDiff, Fragment, FragmentDiff, KeyedItem, KeyedItemDiff, KeyedItems,
    KeyedItemsDiff, MergeError, OneOrManyStrings, RootDiff, Statics, Stream, StreamAttribute,
    StreamConversionError, StreamItem, Templates,
};

fn s(v: &str) -> String {
    v.to_string()
}

fn strings(v: &[&str]) -> Vec<String> {
    v.iter().map(|x| x.to_string()).collect()
}

fn text(v: &str) -> Child {
    Child::String(OneOrManyStrings::One(s(v)))
}

fn text_diff(v: &str) -> ChildDiff {
    ChildDiff::String(OneOrManyStrings::One(s(v)))
}

fn templates(entries: &[(&str, &[&str])]) -> Templates {
    Some(entries.iter().map(|(k, v)| (s(k), strings(v))).collect())
}

fn regular(statics: Option<Statics>, children: Vec<(String, Child)>, templates: Templates) -> Fragment {
    Fragment::Regular { statics, is_root: None, children, templates, new_render: None }
}

fn get<'a, V>(entries: &'a [(String, V)], key: &str) -> Option<&'a V> {
    entries.iter().find(|(k, _)| k == key).map(|(_, v)| v)
}

fn regular_parts(f: &Fragment) -> (&Option<Statics>, &Vec<(String, Child)>, &Templates) {
    match f {
        Fragment::Regular { statics, children, templates, .. } => (statics, children, templates),
        other => panic!("Expected Regular fragment, got: {:?}", other),
    }
}

#[test]
fn test_replace() {
    let diff = FragmentDiff::UpdateRegular {
        children: vec![(s("1"), text_diff("foo"))],
        templates: None,
        statics: Some(Statics::Statics(strings(&["bar", "baz"]))),
        is_root: None,
        event: None,
    };

    let new = Fragment::Regular {
        statics: Some(Statics::Statics(strings(&["bar", "baz"]))),
        is_root: None,
        children: vec![(s("1"), text("foo"))],
        templates: None,
        new_render: None,
    };

    assert_eq!(Fragment::try_from(diff).expect("diff not equal to frag"), new);
}

#[test]
fn expand_statics_resolves_refs_and_deletes_templates() {
    let diff = FragmentDiff::UpdateRegular {
        children: vec![(
            s("0"),
            ChildDiff::Fragment(FragmentDiff::UpdateRegular {
                children: vec![(s("0"), text_diff("content"))],
                templates: None,
                statics: Some(Statics::TemplateRef(0)),
                is_root: None,
                event: None,
            }),
        )],
        templates: templates(&[("0", &["<Box>", "</Box>"])]),
        statics: Some(Statics::Statics(strings(&["<Root>", "</Root>"]))),
        is_root: None,
        event: None,
    };
    let mut fragment = Fragment::try_from(diff).expect("convert");
    fragment.expand_statics();

    let (_, children, templates) = regular_parts(&fragment);
    assert_eq!(*templates, None, "templates should be None after expand_statics");
    match get(children, "0") {
        Some(Child::Fragment(Fragment::Regular { statics, templates: child_templates, .. })) => {
            assert!(
                matches!(statics, Some(Statics::Statics(v)) if *v == vec!["<Box>".to_string(), "</Box>".to_string()]),
                "Child statics should be resolved to [\"<Box>\", \"</Box>\"]. Got: {:?}",
                statics
            );
            assert_eq!(*child_templates, None, "Child templates should also be None");
        }
        other => panic!("Expected Regular fragment child, got: {:?}", other),
    }
}

#[test]
fn decimal_rendering_of_template_ids() {
    let render = |n: i32| decimal_chars(n).into_iter().collect::<String>();
    assert_eq!(render(0), "0");
    assert_eq!(render(7), "7");
    assert_eq!(render(10), "10");
    assert_eq!(render(1234), "1234");
    assert_eq!(render(-1), "-1");
    assert_eq!(render(-305), "-305");
    assert_eq!(render(i32::MAX), "2147483647");
    assert_eq!(render(i32::MIN), "-2147483648");
}

#[test]
fn string_is_compares_characters() {
    assert!(string_is(&s("12"), &vec!['1', '2']));
    assert!(!string_is(&s("12"), &vec!['1']));
    assert!(!string_is(&s("13"), &vec!['1', '2']));
    assert!(string_is(&s(""), &vec![]));
}

#[test]
fn lookup_template_uses_decimal_key() {
    let table = vec![
        (s("1"), strings(&["a"])),
        (s("12"), strings(&["b", "c"])),
        (s("-3"), strings(&["d"])),
    ];
    assert_eq!(lookup_template(&table, 12), Some(&strings(&["b", "c"])));
    assert_eq!(lookup_template(&table, 1), Some(&strings(&["a"])));
    assert_eq!(lookup_template(&table, -3), Some(&strings(&["d"])));
    assert_eq!(lookup_template(&table, 2), None);
    assert_eq!(lookup_template(&vec![], 0), None);
}

#[test]
fn stream_from_update_collects_inserts() {
    let update = vec![
        StreamAttribute::StreamID(s("1")),
        StreamAttribute::Inserts(vec![(s("songs-486"), -1, None), (s("songs-487"), 0, Some(10))]),
        StreamAttribute::Inserts(vec![]),
        StreamAttribute::DeleteIDs(vec![s("songs-1")]),
        StreamAttribute::ResetStream(false),
    ];
    let stream = Stream::from_update(update).expect("stream");
    assert_eq!(
        stream,
        Stream {
            id: s("1"),
            stream_items: vec![
                StreamItem { id: s("songs-486"), index: -1, limit: None },
                StreamItem { id: s("songs-487"), index: 0, limit: Some(10) },
            ],
        }
    );
}

#[test]
fn stream_from_update_first_id_wins() {
    let update = vec![
        StreamAttribute::Inserts(vec![(s("a"), 0, None)]),
        StreamAttribute::StreamID(s("7")),
        StreamAttribute::StreamID(s("8")),
        StreamAttribute::Inserts(vec![(s("b"), 1, None)]),
    ];
    let stream = Stream::from_update(update).expect("stream");
    assert_eq!(stream.id, "7");
    assert_eq!(stream.stream_items.len(), 2);
    assert_eq!(stream.stream_items[1].id, "b");
}

#[test]
fn stream_from_update_without_id_fails() {
    let update = vec![StreamAttribute::Inserts(vec![(s("a"), 0, None)])];
    assert_eq!(Stream::from_update(update), Err(StreamConversionError::NoStreamID));
    assert_eq!(Stream::from_update(vec![]), Err(StreamConversionError::NoStreamID));
}

#[test]
fn comprehension_diff_converts_with_stream() {
    let diff = FragmentDiff::UpdateComprehension {
        dynamics: vec![vec![text_diff("a"), ChildDiff::ComponentID(3)], vec![]],
        templates: None,
        statics: Some(Statics::Statics(strings(&["<tr>", "</tr>"]))),
        is_root: Some(1),
        stream: Some(vec![
            StreamAttribute::StreamID(s("1")),
            StreamAttribute::Inserts(vec![(s("x"), -1, None)]),
        ]),
        event: Some(serde_json::Value::Bool(true)),
    };
    let fragment = Fragment::try_from(diff).expect("convert");
    assert_eq!(
        fragment,
        Fragment::Comprehension {
            dynamics: vec![vec![text("a"), Child::ComponentID(3)], vec![]],
            statics: Some(Statics::Statics(strings(&["<tr>", "</tr>"]))),
            is_root: Some(1),
            templates: None,
            stream: Some(Stream {
                id: s("1"),
                stream_items: vec![StreamItem { id: s("x"), index: -1, limit: None }],
            }),
            new_render: None,
        }
    );
}

#[test]
fn diff_with_stream_lacking_id_does_not_convert() {
    let inner = FragmentDiff::UpdateComprehension {
        dynamics: vec![],
        templates: None,
        statics: None,
        is_root: None,
        stream: Some(vec![StreamAttribute::DeleteIDs(vec![s("x")])]),
        event: None,
    };
    let diff = FragmentDiff::UpdateRegular {
        children: vec![(s("0"), text_diff("ok")), (s("1"), ChildDiff::Fragment(inner))],
        templates: None,
        statics: None,
        is_root: None,
        event: None,
    };
    assert_eq!(
        Fragment::try_from(diff),
        Err(MergeError::Stream(StreamConversionError::NoStreamID))
    );
}

#[test]
fn keyed_diff_converts_items() {
    let moved_diff = FragmentDiff::UpdateRegular {
        children: vec![(s("0"), text_diff("changed"))],
        templates: None,
        statics: None,
        is_root: None,
        event: None,
    };
    let new_item = FragmentDiff::UpdateRegular {
        children: vec![(s("0"), text_diff("Item 2"))],
        templates: None,
        statics: Some(Statics::TemplateRef(0)),
        is_root: None,
        event: None,
    };
    let diff = FragmentDiff::UpdateKeyedComprehension {
        keyed: KeyedItemsDiff {
            items: vec![
                (s("0"), KeyedItemDiff::MovedFrom(1)),
                (s("1"), KeyedItemDiff::MovedWithDiff(0, Box::new(moved_diff))),
                (s("2"), KeyedItemDiff::FragmentDiff(Box::new(new_item))),
            ],
            key_count: 3,
        },
        templates: templates(&[("0", &["<Text>", "</Text>"])]),
        statics: Some(Statics::Statics(strings(&["", ""]))),
        is_root: None,
        event: None,
    };
    let fragment = Fragment::try_from(diff).expect("convert");
    match fragment {
        Fragment::KeyedComprehension { keyed, statics, templates: t, new_render, .. } => {
            assert_eq!(keyed.key_count, 3);
            assert_eq!(keyed.items.len(), 3);
            assert_eq!(keyed.items[0], (s("0"), KeyedItem::MovedFrom(1)));
            assert!(matches!(&keyed.items[1].1, KeyedItem::MovedWithDiff(0, _)));
            assert_eq!(
                keyed.items[2],
                (
                    s("2"),
                    KeyedItem::Fragment(Box::new(regular(
                        Some(Statics::TemplateRef(0)),
                        vec![(s("0"), text("Item 2"))],
                        None
                    )))
                )
            );
            assert_eq!(statics, Some(Statics::Statics(strings(&["", ""]))));
            assert_eq!(t, templates(&[("0", &["<Text>", "</Text>"])]));
            assert_eq!(new_render, None);
        }
        other => panic!("Expected KeyedComprehension, got: {:?}", other),
    }
}

#[test]
fn keyed_item_diff_conversion() {
    assert_eq!(
        keyed_item_diff_to_keyed_item(KeyedItemDiff::MovedFrom(4)),
        Ok(KeyedItem::MovedFrom(4))
    );
    let d = FragmentDiff::UpdateRegular {
        children: vec![],
        templates: None,
        statics: None,
        is_root: Some(1),
        event: None,
    };
    assert_eq!(
        keyed_item_diff_to_keyed_item(KeyedItemDiff::FragmentDiff(Box::new(d))),
        Ok(KeyedItem::Fragment(Box::new(Fragment::Regular {
            statics: None,
            is_root: Some(1),
            children: vec![],
            templates: None,
            new_render: None,
        })))
    );
}

#[test]
fn child_statics_reports_lists_only() {
    let with_list = Child::Fragment(regular(Some(Statics::Statics(strings(&["a", "b"]))), vec![], None));
    assert_eq!(with_list.statics(), Some(strings(&["a", "b"])));
    let with_ref = Child::Fragment(regular(Some(Statics::TemplateRef(0)), vec![], None));
    assert_eq!(with_ref.statics(), None);
    let with_string = Child::Fragment(regular(Some(Statics::String(s("x"))), vec![], None));
    assert_eq!(with_string.statics(), None);
    assert_eq!(text("a").statics(), None);
    assert_eq!(Child::ComponentID(1).statics(), None);
    let comprehension = Child::Fragment(Fragment::Comprehension {
        dynamics: vec![],
        statics: Some(Statics::Statics(strings(&["c"]))),
        is_root: None,
        templates: None,
        stream: None,
        new_render: None,
    });
    assert_eq!(comprehension.statics(), Some(strings(&["c"])));
    let keyed = Child::Fragment(Fragment::KeyedComprehension {
        keyed: KeyedItems { items: vec![], key_count: 0 },
        statics: Some(Statics::Statics(strings(&["d", "e"]))),
        is_root: None,
        templates: None,
        new_render: None,
    });
    assert_eq!(keyed.statics(), Some(strings(&["d", "e"])));
}

#[test]
fn own_templates_replace_parent_templates() {
    // The nested fragment holds its own table without template 1: its
    // reference stays unresolved even though the parent has template 1.
    let nested = regular(
        Some(Statics::TemplateRef(1)),
        vec![(
            s("0"),
            Child::Fragment(regular(Some(Statics::TemplateRef(0)), vec![(s("0"), text("deep"))], None)),
        )],
        templates(&[("0", &["<Own>", "</Own>"])]),
    );
    let mut root = regular(
        Some(Statics::Statics(strings(&["<Root>", "</Root>"]))),
        vec![(s("0"), Child::Fragment(nested))],
        templates(&[("0", &["<Parent>", "</Parent>"]), ("1", &["<One>", "</One>"])]),
    );
    root.expand_statics();
    let (_, children, t) = regular_parts(&root);
    assert_eq!(*t, None);
    let nested = match get(children, "0") {
        Some(Child::Fragment(f)) => f,
        other => panic!("Expected fragment, got: {:?}", other),
    };
    let (statics, nested_children, nested_templates) = regular_parts(nested);
    assert_eq!(*statics, Some(Statics::TemplateRef(1)));
    assert_eq!(*nested_templates, None);
    match get(nested_children, "0") {
        Some(c) => assert_eq!(c.statics(), Some(strings(&["<Own>", "</Own>"]))),
        None => panic!("missing child"),
    }
}

#[test]
fn keyed_comprehension_resolves_with_parent_templates() {
    let keyed = Fragment::KeyedComprehension {
        keyed: KeyedItems {
            items: vec![(
                s("0"),
                KeyedItem::Fragment(Box::new(regular(Some(Statics::TemplateRef(0)), vec![], None))),
            )],
            key_count: 1,
        },
        statics: Some(Statics::TemplateRef(1)),
        is_root: None,
        templates: templates(&[("0", &["<OwnItem>"]), ("1", &["<Own>"])]),
        new_render: None,
    };
    let mut root = regular(
        None,
        vec![(s("0"), Child::Fragment(keyed))],
        templates(&[("0", &["<ParentItem>"]), ("1", &["<Parent>"])]),
    );
    root.expand_statics();
    let (_, children, _) = regular_parts(&root);
    match get(children, "0") {
        Some(Child::Fragment(Fragment::KeyedComprehension { keyed, statics, templates, .. })) => {
            assert_eq!(*statics, Some(Statics::Statics(strings(&["<Parent>"]))));
            assert_eq!(*templates, None);
            match &keyed.items[0].1 {
                KeyedItem::Fragment(f) => {
                    let (st, _, t) = regular_parts(f);
                    assert_eq!(*st, Some(Statics::Statics(strings(&["<ParentItem>"]))));
                    assert_eq!(*t, None);
                }
                other => panic!("Expected fragment item, got: {:?}", other),
            }
        }
        other => panic!("Expected keyed comprehension, got: {:?}", other),
    }
}

#[test]
fn keyed_comprehension_at_root_falls_back_to_own_templates() {
    let mut keyed = Fragment::KeyedComprehension {
        keyed: KeyedItems { items: vec![(s("0"), KeyedItem::MovedFrom(0))], key_count: 1 },
        statics: Some(Statics::TemplateRef(2)),
        is_root: None,
        templates: templates(&[("2", &["<Own>", "</Own>"])]),
        new_render: None,
    };
    keyed.expand_statics();
    match keyed {
        Fragment::KeyedComprehension { keyed, statics, templates, .. } => {
            assert_eq!(statics, Some(Statics::Statics(strings(&["<Own>", "</Own>"]))));
            assert_eq!(templates, None);
            assert_eq!(keyed.items, vec![(s("0"), KeyedItem::MovedFrom(0))]);
        }
        other => panic!("Expected keyed comprehension, got: {:?}", other),
    }
}

#[test]
fn comprehension_rows_are_expanded() {
    let row_child = Child::Fragment(regular(Some(Statics::TemplateRef(5)), vec![], None));
    let mut c = Fragment::Comprehension {
        dynamics: vec![vec![text("a"), row_child]],
        statics: Some(Statics::TemplateRef(9)),
        is_root: None,
        templates: templates(&[("5", &["<Row>"])]),
        stream: None,
        new_render: None,
    };
    c.expand_statics();
    match c {
        Fragment::Comprehension { dynamics, statics, templates, .. } => {
            assert_eq!(statics, Some(Statics::TemplateRef(9)), "missing template stays a reference");
            assert_eq!(templates, None);
            assert_eq!(dynamics[0][0], text("a"));
            assert_eq!(dynamics[0][1].statics(), Some(strings(&["<Row>"])));
        }
        other => panic!("Expected comprehension, got: {:?}", other),
    }
}

fn sample_tree() -> Fragment {
    regular(
        Some(Statics::TemplateRef(0)),
        vec![
            (s("0"), Child::Fragment(regular(Some(Statics::TemplateRef(1)), vec![], None))),
            (s("1"), Child::Fragment(regular(Some(Statics::TemplateRef(7)), vec![], None))),
            (s("2"), text("plain")),
        ],
        templates(&[("0", &["<A>"]), ("1", &["<B>", "</B>"])]),
    )
}

#[test]
fn expand_statics_is_idempotent() {
    let mut once = sample_tree();
    once.expand_statics();
    let mut twice = sample_tree();
    twice.expand_statics();
    twice.expand_statics();
    assert_eq!(once, twice);
    let (statics, children, t) = regular_parts(&once);
    assert_eq!(*statics, Some(Statics::Statics(strings(&["<A>"]))));
    assert_eq!(*t, None);
    assert_eq!(get(children, "0").unwrap().statics(), Some(strings(&["<B>", "</B>"])));
    assert_eq!(get(children, "2"), Some(&text("plain")));
}

#[test]
fn root_diff_event_of_regular_and_comprehension_only() {
    let regular_diff = RootDiff {
        new_render: None,
        fragment: FragmentDiff::UpdateRegular {
            children: vec![],
            templates: None,
            statics: None,
            is_root: None,
            event: Some(serde_json::Value::String(s("clicked"))),
        },
        components: vec![],
    };
    assert_eq!(regular_diff.event(), Some(&serde_json::Value::String(s("clicked"))));

    let comprehension_diff = RootDiff {
        new_render: None,
        fragment: FragmentDiff::UpdateComprehension {
            dynamics: vec![],
            templates: None,
            statics: None,
            is_root: None,
            stream: None,
            event: Some(serde_json::Value::Bool(true)),
        },
        components: vec![(
            s("1"),
            ComponentDiff::UpdateRegular { children: vec![], is_root: None },
        )],
    };
    assert_eq!(comprehension_diff.event(), Some(&serde_json::Value::Bool(true)));

    let keyed_diff = RootDiff {
        new_render: None,
        fragment: FragmentDiff::UpdateKeyedComprehension {
            keyed: KeyedItemsDiff { items: vec![], key_count: 0 },
            templates: None,
            statics: None,
            is_root: None,
            event: Some(serde_json::Value::Bool(true)),
        },
        components: vec![],
    };
    assert_eq!(keyed_diff.event(), None);

    let no_event = RootDiff {
        new_render: None,
        fragment: FragmentDiff::UpdateRegular {
            children: vec![],
            templates: None,
            statics: None,
            is_root: None,
            event: None,
        },
        components: vec![],
    };
    assert_eq!(no_event.event(), None);
}

#[test]
fn keyed_items_key_count_defaults_to_number_of_items() {
    let items = vec![(s("0"), KeyedItem::MovedFrom(0)), (s("1"), KeyedItem::MovedFrom(1))];
    let k = KeyedItems::from_entries(items, None);
    assert_eq!(k.key_count, 2);
    let k = KeyedItems::from_entries(vec![(s("0"), KeyedItem::MovedFrom(0))], Some(5));
    assert_eq!(k.key_count, 5);
    assert_eq!(k.items.len(), 1);
    let d = KeyedItemsDiff::from_entries(vec![], None);
    assert_eq!(d.key_count, 0);
    let d = KeyedItemsDiff::from_entries(vec![(s("3"), KeyedItemDiff::MovedFrom(2))], Some(9));
    assert_eq!(d.key_count, 9);
}

#[test]
fn one_or_many_strings_from_string() {
    assert_eq!(OneOrManyStrings::from(s("x")), OneOrManyStrings::One(s("x")));
}
