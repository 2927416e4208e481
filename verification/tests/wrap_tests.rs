use heroic_library::library::{Install, LibraryGame, Manifest};
use heroic_library::wrap::{
    find_in_library, find_in_roots, listing_to_read, parse_heroic_2_9_2_environment_variables,
    HeroicEnvironment, Listing, Root, Runner, Store,
};

fn listed(app_name: &str, title: &str) -> LibraryGame {
    LibraryGame {
        app_name: app_name.to_string(),
        title: title.to_string(),
        install: Install { platform: "windows".to_string() },
        folder_name: title.to_string(),
    }
}

fn root(store: Store, gog: Vec<LibraryGame>, legendary: Vec<LibraryGame>) -> Root {
    Root {
        path: "/roots/heroic".to_string(),
        store,
        gog_library: Manifest::Parsed(gog),
        legendary_installed: Manifest::Parsed(legendary),
    }
}

fn environment(app_name: Option<&str>, app_runner: Option<&str>) -> HeroicEnvironment {
    HeroicEnvironment {
        app_name: app_name.map(|v| v.to_string()),
        app_runner: app_runner.map(|v| v.to_string()),
        app_source: Some("gog".to_string()),
    }
}

#[test]
fn runner_names_are_read_exactly() {
    assert_eq!(Runner::parse("gog"), Runner::Gog);
    assert_eq!(Runner::parse("legendary"), Runner::Legendary);
    assert_eq!(Runner::parse("nile"), Runner::Nile);
    assert_eq!(Runner::parse("sideload"), Runner::Sideload);
    assert_eq!(Runner::parse("GOG"), Runner::Unrecognized("GOG".to_string()));
    assert_eq!(Runner::parse("unknown-runner"), Runner::Unrecognized("unknown-runner".to_string()));
    assert_eq!(Runner::parse(""), Runner::Unrecognized(String::new()));
}

#[test]
fn only_two_runners_have_a_listing() {
    assert_eq!(Runner::Gog.listing(), Some(Listing::GogLibrary));
    assert_eq!(Runner::Legendary.listing(), Some(Listing::LegendaryInstalled));
    assert_eq!(Runner::Nile.listing(), None);
    assert_eq!(Runner::Sideload.listing(), None);
    assert_eq!(Runner::Unrecognized("unknown-runner".to_string()).listing(), None);
}

#[test]
fn find_in_library_gives_the_first_matching_title() {
    let records = vec![listed("a", "Alpha"), listed("b", "Beta"), listed("b", "Beta Again")];
    assert_eq!(find_in_library(&records, "b"), Some("Beta".to_string()));
    assert_eq!(find_in_library(&records, "a"), Some("Alpha".to_string()));
    assert_eq!(find_in_library(&records, "c"), None);
    assert_eq!(find_in_library(&vec![], "a"), None);
}

#[test]
fn find_in_roots_gives_the_raw_title_of_a_gog_game() {
    let roots = vec![root(Store::Heroic, vec![listed("1234", "foo  GAME")], vec![])];
    assert_eq!(find_in_roots(&roots, "1234", "gog"), Some("foo  GAME".to_string()));
    assert_eq!(find_in_roots(&roots, "4321", "gog"), None);
}

#[test]
fn find_in_roots_reads_the_listing_of_the_runner() {
    let roots = vec![root(Store::Heroic, vec![listed("id", "From Gog")], vec![listed("id", "From Legendary")])];
    assert_eq!(find_in_roots(&roots, "id", "gog"), Some("From Gog".to_string()));
    assert_eq!(find_in_roots(&roots, "id", "legendary"), Some("From Legendary".to_string()));
}

#[test]
fn find_in_roots_lets_the_first_root_win() {
    let roots = vec![
        root(Store::Heroic, vec![listed("id", "First")], vec![]),
        root(Store::Heroic, vec![listed("id", "Second")], vec![]),
    ];
    assert_eq!(find_in_roots(&roots, "id", "gog"), Some("First".to_string()));
    let only_first = vec![root(Store::Heroic, vec![listed("id", "First")], vec![])];
    assert_eq!(find_in_roots(&only_first, "id", "gog"), Some("First".to_string()));
}

#[test]
fn find_in_roots_goes_on_to_the_next_root_without_a_match() {
    let roots = vec![
        root(Store::Heroic, vec![listed("other", "First")], vec![]),
        root(Store::Heroic, vec![listed("id", "Second")], vec![]),
    ];
    assert_eq!(find_in_roots(&roots, "id", "gog"), Some("Second".to_string()));
}

#[test]
fn find_in_roots_skips_roots_of_other_stores() {
    let roots = vec![
        root(Store::Steam, vec![listed("id", "Steam")], vec![]),
        root(Store::Other, vec![listed("id", "Other")], vec![]),
        root(Store::Heroic, vec![listed("id", "Heroic")], vec![]),
    ];
    assert_eq!(find_in_roots(&roots, "id", "gog"), Some("Heroic".to_string()));
    assert_eq!(find_in_roots(&roots[..2], "id", "gog"), None);
}

#[test]
fn find_in_roots_takes_a_missing_or_malformed_listing_as_empty() {
    let mut first = root(Store::Heroic, vec![], vec![]);
    first.gog_library = Manifest::Missing;
    let mut second = root(Store::Heroic, vec![], vec![]);
    second.gog_library = Manifest::Malformed("EOF while parsing".to_string());
    let third = root(Store::Heroic, vec![listed("id", "Third")], vec![]);
    assert_eq!(find_in_roots(&[first.clone(), second.clone()], "id", "gog"), None);
    assert_eq!(find_in_roots(&[first, second, third], "id", "gog"), Some("Third".to_string()));
}

#[test]
fn find_in_roots_finds_nothing_for_unsupported_runners() {
    let roots = vec![root(Store::Heroic, vec![listed("id", "Gog")], vec![listed("id", "Legendary")])];
    assert_eq!(find_in_roots(&roots, "id", "nile"), None);
    assert_eq!(find_in_roots(&roots, "id", "sideload"), None);
}

#[test]
fn find_in_roots_finds_nothing_for_an_unknown_runner() {
    let roots = vec![root(Store::Heroic, vec![listed("id", "Gog")], vec![listed("id", "Legendary")])];
    assert_eq!(find_in_roots(&roots, "id", "unknown-runner"), None);
    assert_eq!(find_in_roots(&roots, "id", "Gog"), None);
}

#[test]
fn find_in_roots_finds_nothing_without_roots() {
    assert_eq!(find_in_roots(&[], "id", "gog"), None);
}

#[test]
fn environment_without_identifier_resolves_to_nothing() {
    let roots = vec![root(Store::Heroic, vec![listed("id", "Gog")], vec![])];
    assert_eq!(parse_heroic_2_9_2_environment_variables(&roots, &[], &environment(None, Some("gog"))), None);
}

#[test]
fn environment_without_runner_resolves_to_nothing() {
    let roots = vec![root(Store::Heroic, vec![listed("id", "Gog")], vec![])];
    assert_eq!(parse_heroic_2_9_2_environment_variables(&roots, &[], &environment(Some("id"), None)), None);
    assert_eq!(parse_heroic_2_9_2_environment_variables(&roots, &[], &environment(None, None)), None);
}

#[test]
fn environment_with_both_variables_searches_the_roots() {
    let roots = vec![root(Store::Heroic, vec![listed("id", "Gog")], vec![listed("id", "Epic")])];
    let commands = vec!["game.exe".to_string()];
    assert_eq!(
        parse_heroic_2_9_2_environment_variables(&roots, &commands, &environment(Some("id"), Some("gog"))),
        Some("Gog".to_string())
    );
    assert_eq!(
        parse_heroic_2_9_2_environment_variables(&roots, &commands, &environment(Some("id"), Some("legendary"))),
        Some("Epic".to_string())
    );
    assert_eq!(
        parse_heroic_2_9_2_environment_variables(&roots, &commands, &environment(Some("id"), Some("sideload"))),
        None
    );
}

#[test]
fn only_heroic_roots_are_read() {
    assert_eq!(listing_to_read(Store::Heroic, &Runner::Gog), Some(Listing::GogLibrary));
    assert_eq!(listing_to_read(Store::Heroic, &Runner::Legendary), Some(Listing::LegendaryInstalled));
    assert_eq!(listing_to_read(Store::Heroic, &Runner::Nile), None);
    assert_eq!(listing_to_read(Store::Heroic, &Runner::Sideload), None);
    assert_eq!(listing_to_read(Store::Heroic, &Runner::Unrecognized("unknown-runner".to_string())), None);
    assert_eq!(listing_to_read(Store::Steam, &Runner::Gog), None);
    assert_eq!(listing_to_read(Store::Legendary, &Runner::Legendary), None);
    assert_eq!(listing_to_read(Store::Other, &Runner::Gog), None);
}
