use std::collections::HashMap;

use rustdoc_types::{
    Abi, Crate, Function, FunctionHeader, FunctionSignature, Generics, Id, Impl, Item, ItemEnum,
    Path, Target, Type, Visibility, FORMAT_VERSION,
};
use std_traits::entry::{entries, Attribute, Documentation, Entry, Implementation, Kind};
use std_traits::listing::{find, functions_of, functions_of_entry, Line};
use std_traits::stability::Stability;

const STABLE: &str =
    "#[attr = Stability {stability: Stability {level: Stable {since: Version(1.0.0)}}}]";
const UNSTABLE: &str =
    "#[attr = Stability {stability: Stability {level: Unstable {reason: None, issue: 1}}}]";

fn function(id: u32, name: Option<&str>, attrs: &[&str]) -> Entry {
    Entry {
        id,
        name: name.map(str::to_string),
        attrs: attrs.iter().map(|a| Attribute::Other(a.to_string())).collect(),
        kind: Kind::Function,
    }
}

fn implementation(id: u32, primitive: Option<&str>, of_trait: bool, items: &[u32]) -> Entry {
    Entry {
        id,
        name: None,
        attrs: vec![Attribute::Structured],
        kind: Kind::Impl(Implementation {
            primitive: primitive.map(str::to_string),
            of_trait,
            items: items.to_vec(),
        }),
    }
}

fn other(id: u32, name: Option<&str>) -> Entry {
    Entry { id, name: name.map(str::to_string), attrs: Vec::new(), kind: Kind::Other }
}

fn sample() -> Vec<Entry> {
    vec![
        function(10, Some("count_ones"), &["#[inline]", STABLE]),
        implementation(1, Some("u32"), false, &[10, 11, 12]),
        other(11, Some("BITS")),
        function(12, Some("bit_width"), &[UNSTABLE, "#[must_use]", STABLE]),
        implementation(2, Some("u32"), true, &[13]),
        implementation(3, Some("u64"), false, &[14]),
        implementation(4, None, false, &[15]),
        implementation(5, Some("u32"), false, &[]),
        implementation(6, Some("u32"), false, &[20]),
        function(20, Some("plain"), &[]),
    ]
}

#[test]
fn lists_the_inherent_functions_of_a_primitive() {
    assert_eq!(
        functions_of(&sample(), "u32"),
        Some(vec![
            Line::Function(0),
            Line::Stated(Stability::Stable),
            Line::Function(3),
            Line::Stated(Stability::Unstable),
            Line::Stated(Stability::Stable),
            Line::Function(9),
        ])
    );
    assert_eq!(functions_of(&Vec::new(), "u32"), Some(Vec::new()));
    let alone = vec![function(10, Some("count_ones"), &["#[inline]", STABLE])];
    assert_eq!(functions_of(&alone, "u32"), Some(Vec::new()));
}

#[test]
fn there_is_no_listing_with_a_fault() {
    // the ids of the other types are looked up for that type only
    assert_eq!(functions_of(&sample(), "u64"), None);
    assert!(functions_of(&sample(), "i8").is_some());
    // an id of no entry
    let missing = vec![implementation(1, Some("u32"), false, &[7])];
    assert_eq!(functions_of(&missing, "u32"), None);
    // a listed entry without a name, whatever its kind
    let nameless = vec![implementation(1, Some("u32"), false, &[7]), other(7, None)];
    assert_eq!(functions_of(&nameless, "u32"), None);
    let nameless = vec![implementation(1, Some("u32"), false, &[7]), function(7, None, &[])];
    assert_eq!(functions_of(&nameless, "u32"), None);
    // a listed function with an attribute that is not readable
    let unreadable = vec![
        implementation(1, Some("u32"), false, &[7]),
        function(7, Some("f"), &[STABLE, "#[attr = Stability {}]"]),
    ];
    assert_eq!(functions_of(&unreadable, "u32"), None);
    // an entry that is no function may have such an attribute
    let fine = vec![
        implementation(1, Some("u32"), false, &[7]),
        Entry {
            id: 7,
            name: Some("X".to_string()),
            attrs: vec![Attribute::Other("#[attr = Stability {}]".to_string())],
            kind: Kind::Other,
        },
    ];
    assert_eq!(functions_of(&fine, "u32"), Some(Vec::new()));
}

#[test]
fn finds_the_first_entry_of_an_id() {
    let entries = sample();
    assert_eq!(find(&entries, 10), Some(0));
    assert_eq!(find(&entries, 20), Some(9));
    assert_eq!(find(&entries, 99), None);
    let twice = vec![other(5, None), other(6, None), other(5, Some("later"))];
    assert_eq!(find(&twice, 5), Some(0));
    assert_eq!(find(&Vec::new(), 5), None);
}

fn documented(id: u32, name: Option<&str>, attrs: Vec<rustdoc_types::Attribute>, inner: ItemEnum) -> Item {
    Item {
        id: Id(id),
        crate_id: 0,
        name: name.map(str::to_string),
        span: None,
        visibility: Visibility::Public,
        docs: None,
        links: HashMap::new(),
        attrs,
        deprecation: None,
        stability: None,
        const_stability: None,
        inner,
    }
}

fn empty_generics() -> Generics {
    Generics { params: Vec::new(), where_predicates: Vec::new() }
}

fn crate_of(items: Vec<Item>) -> Crate {
    Crate {
        root: Id(0),
        crate_version: None,
        includes_private: false,
        index: items.into_iter().map(|item| (item.id, item)).collect(),
        paths: HashMap::new(),
        external_crates: HashMap::new(),
        target: Target { triple: String::new(), target_features: Vec::new() },
        format_version: FORMAT_VERSION,
    }
}

fn sample_crate() -> Crate {
    let function = ItemEnum::Function(Function {
        sig: FunctionSignature { inputs: Vec::new(), output: None, is_c_variadic: false },
        generics: empty_generics(),
        header: FunctionHeader {
            is_const: false,
            is_unsafe: false,
            is_async: false,
            abi: Abi::Rust,
        },
        has_body: true,
        default_unstable: None,
    });
    let inherent = ItemEnum::Impl(Impl {
        is_unsafe: false,
        generics: empty_generics(),
        provided_trait_methods: Vec::new(),
        trait_: None,
        for_: Type::Primitive("u32".to_string()),
        items: vec![Id(7), Id(8)],
        is_negative: false,
        is_synthetic: false,
        blanket_impl: None,
    });
    let of_trait = ItemEnum::Impl(Impl {
        is_unsafe: false,
        generics: empty_generics(),
        provided_trait_methods: Vec::new(),
        trait_: Some(Path { path: "Clone".to_string(), id: Id(50), args: None }),
        for_: Type::Generic("T".to_string()),
        items: Vec::new(),
        is_negative: false,
        is_synthetic: false,
        blanket_impl: None,
    });
    crate_of(vec![
        documented(
            7,
            Some("count_ones"),
            vec![
                rustdoc_types::Attribute::MustUse { reason: None },
                rustdoc_types::Attribute::Other(STABLE.to_string()),
            ],
            function,
        ),
        documented(8, Some("BITS"), Vec::new(), ItemEnum::ExternCrate {
            name: "x".to_string(),
            rename: None,
        }),
        documented(1, None, vec![rustdoc_types::Attribute::NonExhaustive], inherent),
        documented(2, None, Vec::new(), of_trait),
    ])
}

fn check_entries(mut entries: Vec<Entry>) {
    entries.sort_by_key(|e| e.id);
    assert_eq!(entries.iter().map(|e| e.id).collect::<Vec<_>>(), vec![1, 2, 7, 8]);
    assert_eq!(entries[0].name, None);
    assert_eq!(entries[2].name.as_deref(), Some("count_ones"));
    assert_eq!(entries[3].name.as_deref(), Some("BITS"));
    assert!(matches!(entries[2].kind, Kind::Function));
    assert!(matches!(entries[3].kind, Kind::Other));
    match &entries[0].kind {
        Kind::Impl(i) => {
            assert_eq!(i.primitive.as_deref(), Some("u32"));
            assert!(!i.of_trait);
            assert_eq!(i.items, vec![7, 8]);
        }
        _ => panic!("an implementation was expected"),
    }
    match &entries[1].kind {
        Kind::Impl(i) => {
            assert_eq!(i.primitive, None);
            assert!(i.of_trait);
            assert!(i.items.is_empty());
        }
        _ => panic!("an implementation was expected"),
    }
    assert!(matches!(entries[0].attrs[..], [Attribute::Structured]));
    match &entries[2].attrs[..] {
        [Attribute::Structured, Attribute::Other(text)] => assert_eq!(text, STABLE),
        _ => panic!("two attributes were expected"),
    }
    assert!(entries[3].attrs.is_empty());
}

#[test]
fn takes_the_entries_of_a_crate() {
    check_entries(entries(&sample_crate()));
}

#[test]
fn reads_a_crate_from_its_description() {
    let krate = sample_crate();
    let json = serde_json::to_string(&krate).unwrap();
    let documentation = Documentation::read(&json).unwrap();
    assert_eq!(documentation.krate, krate);
    let lines = functions_of(&documentation.entries, "u32").unwrap();
    let at = find(&documentation.entries, 7).unwrap();
    assert_eq!(lines, vec![Line::Function(at), Line::Stated(Stability::Stable)]);
    check_entries(documentation.entries);
    assert!(Documentation::read("{").is_err());
    assert!(Documentation::read("[1, 2]").is_err());
}

#[test]
fn lists_entry_by_entry() {
    let entries = sample();
    assert_eq!(functions_of_entry(&entries, &entries[0], "u32"), Some(Vec::new()));
    assert_eq!(
        functions_of_entry(&entries, &entries[1], "u32"),
        Some(vec![
            Line::Function(0),
            Line::Stated(Stability::Stable),
            Line::Function(3),
            Line::Stated(Stability::Unstable),
            Line::Stated(Stability::Stable),
        ])
    );
    assert_eq!(functions_of_entry(&entries, &entries[1], "u64"), Some(Vec::new()));
    assert_eq!(functions_of_entry(&entries, &entries[4], "u32"), Some(Vec::new()));
    assert_eq!(functions_of_entry(&entries, &entries[5], "u64"), None);
    assert_eq!(functions_of_entry(&entries, &entries[7], "u32"), Some(Vec::new()));
    assert_eq!(functions_of_entry(&entries, &entries[8], "u32"), Some(vec![Line::Function(9)]));
    let all: Vec<Line> = entries
        .iter()
        .flat_map(|entry| functions_of_entry(&entries, entry, "u32").unwrap())
        .collect();
    assert_eq!(Some(all), functions_of(&entries, "u32"));
}
