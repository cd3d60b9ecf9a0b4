use ftkit::Args;

#[test]
fn caches_the_first_argument_vector() {
    let mut args = Args::new();
    let argv: Vec<String> = vec![
        String::from("prog"),
        String::from("alpha"),
        String::from("beta"),
    ];
    assert_eq!(args.force(argv.clone()), &argv);
    let other: Vec<String> = vec![String::from("other")];
    assert_eq!(args.force(other), &argv);
    assert_eq!(args.len(), 3);
    assert!(!args.is_empty());
    assert_eq!(args.get(0), Some(&String::from("prog")));
    assert_eq!(args.get(2), Some(&String::from("beta")));
    assert_eq!(args.get(3), None);
    assert_eq!(args.at(1).as_str(), "alpha");
}

#[test]
fn empty_argument_vector() {
    let mut args = Args::new();
    args.force(Vec::new());
    assert_eq!(args.len(), 0);
    assert!(args.is_empty());
    assert_eq!(args.get(0), None);
    let mut it = args.iter();
    assert_eq!(it.next(), None);
    assert_eq!(it.len(), 0);
}

#[test]
fn iterates_in_original_order() {
    let mut args = Args::new();
    args.force(vec![String::from("a"), String::from("b"), String::from("c")]);
    let mut it = args.iter();
    assert_eq!(it.size_hint(), (3, Some(3)));
    assert_eq!(it.next().map(String::as_str), Some("a"));
    assert_eq!(it.next().map(String::as_str), Some("b"));
    assert_eq!(it.next().map(String::as_str), Some("c"));
    assert_eq!(it.next(), None);
    assert_eq!(it.next(), None);
}

#[test]
fn iteration_is_restartable() {
    let mut args = Args::new();
    args.force(vec![String::from("x"), String::from("y")]);
    let mut first = args.iter();
    assert_eq!(first.next().map(String::as_str), Some("x"));
    let mut second = args.iter();
    assert_eq!(second.next().map(String::as_str), Some("x"));
    assert_eq!(second.next().map(String::as_str), Some("y"));
    assert_eq!(second.next(), None);
}

#[test]
fn iterates_from_both_ends() {
    let mut args = Args::new();
    args.force(vec![String::from("a"), String::from("b"), String::from("c")]);
    let mut it = args.iter();
    assert_eq!(it.next_back().map(String::as_str), Some("c"));
    assert_eq!(it.next().map(String::as_str), Some("a"));
    assert_eq!(it.len(), 1);
    assert_eq!(it.next_back().map(String::as_str), Some("b"));
    assert_eq!(it.next(), None);
    assert_eq!(it.next_back(), None);
}

#[test]
fn skips_with_nth_from_both_ends() {
    let mut args = Args::new();
    args.force(vec![
        String::from("a"),
        String::from("b"),
        String::from("c"),
        String::from("d"),
        String::from("e"),
    ]);
    let mut it = args.iter();
    assert_eq!(it.nth(1).map(String::as_str), Some("b"));
    assert_eq!(it.nth_back(1).map(String::as_str), Some("d"));
    assert_eq!(it.len(), 1);
    assert_eq!(it.next().map(String::as_str), Some("c"));
    assert_eq!(it.nth(0), None);
    let counted = args.iter().count();
    assert_eq!(counted, 5);
}
