use nstow::config::{
    find_key, join_path, traverse_value, ConfigEntry, ConfigValue, LinkDescriptor,
};
use nstow::error::StowError;
use nstow::filter::StowFilters;
use nstow::stow::Stowfile;
use nstow::vars::{Binding, Variables};

fn text(s: &str) -> ConfigValue {
    ConfigValue::Text(s.to_string())
}

fn entry(key: &str, value: ConfigValue) -> ConfigEntry {
    ConfigEntry { key: text(key), value }
}

fn leaf(src: &str, links: &[&str]) -> ConfigValue {
    ConfigValue::Mapping(vec![
        entry("src", text(src)),
        entry("links", ConfigValue::Sequence(links.iter().map(|l| text(l)).collect())),
    ])
}

fn pair(source: &str, target: &str) -> LinkDescriptor {
    LinkDescriptor { source: source.to_string(), target: target.to_string() }
}

fn strings(items: &[&str]) -> Vec<String> {
    items.iter().map(|s| s.to_string()).collect()
}

fn no_filters() -> StowFilters {
    StowFilters::new(None, None, None, None, None).unwrap()
}

fn resolve(
    tree: ConfigValue,
    vars: Option<Vec<String>>,
    filters: &StowFilters,
    base: &str,
) -> Result<Vec<LinkDescriptor>, StowError> {
    let mut stowfile = Stowfile::new(tree, vars, Vec::new(), filters)?;
    stowfile.get_links(base.to_string())
}

#[test]
fn join_path_puts_one_separator_between() {
    assert_eq!(join_path("/base", "dir"), "/base/dir");
    assert_eq!(join_path("/base/", "dir"), "/base/dir");
    assert_eq!(join_path("", "dir"), "dir");
    assert_eq!(join_path("/", "dir"), "/dir");
    assert_eq!(join_path("a", ""), "a/");
}

#[test]
fn join_path_lets_an_absolute_segment_stand() {
    assert_eq!(join_path("/base", "/etc/x"), "/etc/x");
}

#[test]
fn find_key_gives_the_first_entry_with_that_key() {
    let entries = vec![
        entry("a", ConfigValue::Scalar),
        ConfigEntry { key: ConfigValue::Scalar, value: ConfigValue::Scalar },
        entry("src", text("one")),
        entry("src", text("two")),
    ];
    assert_eq!(find_key(&entries, "src"), Some(2));
    assert_eq!(find_key(&entries, "a"), Some(0));
    assert_eq!(find_key(&entries, "links"), None);
}

#[test]
fn nested_mappings_accumulate_the_source_path() {
    let tree = ConfigValue::Mapping(vec![entry(
        "dots",
        ConfigValue::Mapping(vec![entry(
            "vim",
            ConfigValue::Sequence(vec![leaf("vimrc", &["/home/me/.vimrc"])]),
        )]),
    )]);
    let links = resolve(tree, None, &no_filters(), "/repo").unwrap();
    assert_eq!(links, vec![pair("/repo/dots/vim/vimrc", "/home/me/.vimrc")]);
}

#[test]
fn every_target_of_a_leaf_shares_one_source() {
    let tree = ConfigValue::Mapping(vec![entry(
        "dots",
        ConfigValue::Sequence(vec![leaf("vimrc", &["/a", "/b", "/c"])]),
    )]);
    let links = resolve(tree, None, &no_filters(), "/repo").unwrap();
    assert_eq!(
        links,
        vec![
            pair("/repo/dots/vimrc", "/a"),
            pair("/repo/dots/vimrc", "/b"),
            pair("/repo/dots/vimrc", "/c"),
        ]
    );
}

#[test]
fn siblings_do_not_see_each_others_segment() {
    let tree = ConfigValue::Mapping(vec![
        entry("one", ConfigValue::Sequence(vec![leaf("a", &["/t/a"]), leaf("b", &["/t/b"])])),
        entry("two", ConfigValue::Sequence(vec![leaf("c", &["/t/c"])])),
    ]);
    let links = resolve(tree, None, &no_filters(), "/r").unwrap();
    assert_eq!(
        links,
        vec![pair("/r/one/a", "/t/a"), pair("/r/one/b", "/t/b"), pair("/r/two/c", "/t/c")]
    );
}

#[test]
fn a_mapping_inside_a_sequence_without_src_adds_segments() {
    let tree = ConfigValue::Sequence(vec![ConfigValue::Mapping(vec![entry(
        "sub",
        ConfigValue::Sequence(vec![leaf("f", &["/t/f"])]),
    )])]);
    let links = resolve(tree, None, &no_filters(), "/r").unwrap();
    assert_eq!(links, vec![pair("/r/sub/f", "/t/f")]);
}

#[test]
fn sources_and_targets_are_interpolated() {
    let tree = ConfigValue::Mapping(vec![entry(
        "${PKG}",
        ConfigValue::Sequence(vec![leaf("rc", &["${DEST}/.rc"])]),
    )]);
    let vars = Some(strings(&["PKG=zsh", "DEST=/home/${WHO}", "WHO=me"]));
    let links = resolve(tree, vars, &no_filters(), "/r").unwrap();
    assert_eq!(links, vec![pair("/r/zsh/rc", "/home/me/.rc")]);
}

#[test]
fn declarations_overlay_the_environment() {
    let filters = no_filters();
    let environment = vec![
        Binding { name: "HOME".to_string(), value: "/home/env".to_string() },
        Binding { name: "SHELL".to_string(), value: "sh".to_string() },
    ];
    let tree = ConfigValue::Sequence(vec![leaf("${SHELL}rc", &["${HOME}/.rc"])]);
    let mut stowfile =
        Stowfile::new(tree, Some(strings(&["HOME=/home/declared"])), environment, &filters)
            .unwrap();
    assert_eq!(stowfile.depth, 3);
    let links = stowfile.get_links("/r".to_string()).unwrap();
    assert_eq!(links, vec![pair("/r/shrc", "/home/declared/.rc")]);
}

#[test]
fn declaration_without_equals_is_rejected() {
    let filters = no_filters();
    let err = Stowfile::new(
        ConfigValue::Mapping(Vec::new()),
        Some(strings(&["A=1", "broken", "alsobroken"])),
        Vec::new(),
        &filters,
    )
    .unwrap_err();
    assert_eq!(err, StowError::InvalidVariableSyntax("broken".to_string()));
}

#[test]
fn undefined_variable_stops_resolution() {
    let tree = ConfigValue::Sequence(vec![leaf("a", &["${NOWHERE}/a"])]);
    let err = resolve(tree, None, &no_filters(), "/r").unwrap_err();
    assert_eq!(err, StowError::UndefinedVariable("NOWHERE".to_string()));
}

#[test]
fn source_filter_skips_without_error() {
    let filters = StowFilters::new(Some(strings(&["vim"])), None, None, None, None).unwrap();
    let tree = ConfigValue::Sequence(vec![
        leaf("vimrc", &["/t/vimrc", "/t/other"]),
        leaf("zshrc", &["/t/zshrc"]),
    ]);
    let links = resolve(tree, None, &filters, "/r").unwrap();
    assert_eq!(links, vec![pair("/r/vimrc", "/t/vimrc"), pair("/r/vimrc", "/t/other")]);
}

#[test]
fn target_filter_skips_without_error() {
    let filters =
        StowFilters::new(None, None, Some(strings(&["^/home/"])), Some(strings(&["bak$"])), None)
            .unwrap();
    let tree = ConfigValue::Sequence(vec![leaf("f", &["/home/f", "/etc/f", "/home/f.bak"])]);
    let links = resolve(tree, None, &filters, "/r").unwrap();
    assert_eq!(links, vec![pair("/r/f", "/home/f")]);
}

#[test]
fn target_of_rejected_source_is_not_interpolated() {
    let filters = StowFilters::new(None, Some(strings(&["skip"])), None, None, None).unwrap();
    let tree = ConfigValue::Sequence(vec![leaf("skipme", &["${UNDEFINED}"])]);
    let links = resolve(tree, None, &filters, "/r").unwrap();
    assert_eq!(links, Vec::<LinkDescriptor>::new());
}

#[test]
fn leaf_without_links_is_malformed() {
    let tree = ConfigValue::Sequence(vec![
        leaf("good", &["/t/good"]),
        ConfigValue::Mapping(vec![entry("src", text("lonely"))]),
    ]);
    let filters = no_filters();
    let mut variables = Variables::new(Vec::new());
    let mut collected = vec![];
    let res = traverse_value(&filters, 0, &mut variables, &tree, "/r", &mut collected);
    assert_eq!(res, Err(StowError::Malformed("/r/lonely".to_string())));
    let tree = ConfigValue::Sequence(vec![ConfigValue::Mapping(vec![entry(
        "src",
        text("lonely"),
    )])]);
    let err = resolve(tree, None, &no_filters(), "/r");
    assert_eq!(err, Err(StowError::Malformed("/r/lonely".to_string())));
}

#[test]
fn malformed_shapes_are_rejected() {
    let filters = no_filters();
    let cases = vec![
        text("just a string"),
        ConfigValue::Scalar,
        ConfigValue::Mapping(vec![ConfigEntry {
            key: ConfigValue::Scalar,
            value: ConfigValue::Sequence(Vec::new()),
        }]),
        ConfigValue::Sequence(vec![text("not a mapping")]),
        ConfigValue::Sequence(vec![ConfigValue::Mapping(vec![
            entry("src", ConfigValue::Scalar),
            entry("links", ConfigValue::Sequence(Vec::new())),
        ])]),
    ];
    for tree in cases {
        assert_eq!(
            resolve(tree, None, &filters, "/r"),
            Err(StowError::Malformed("/r".to_string()))
        );
    }
    let not_a_sequence = ConfigValue::Sequence(vec![ConfigValue::Mapping(vec![
        entry("src", text("f")),
        entry("links", text("/t/f")),
    ])]);
    assert_eq!(
        resolve(not_a_sequence, None, &filters, "/r"),
        Err(StowError::Malformed("/r/f".to_string()))
    );
    let not_a_string = ConfigValue::Sequence(vec![ConfigValue::Mapping(vec![
        entry("src", text("f")),
        entry("links", ConfigValue::Sequence(vec![text("/t/f"), ConfigValue::Scalar])),
    ])]);
    assert_eq!(
        resolve(not_a_string, None, &filters, "/r"),
        Err(StowError::Malformed("/r/f".to_string()))
    );
}

#[test]
fn empty_tree_resolves_to_nothing() {
    let links = resolve(ConfigValue::Mapping(Vec::new()), None, &no_filters(), "/r").unwrap();
    assert!(links.is_empty());
    let links = resolve(ConfigValue::Sequence(Vec::new()), None, &no_filters(), "/r").unwrap();
    assert!(links.is_empty());
}
