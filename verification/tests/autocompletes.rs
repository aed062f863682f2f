use fpl::autocompletes::{
    autocomplete_league_or_user, autocomplete_overall_or_week, autocomplete_player_or_club, contains_text,
    get_fuzzy_matches, get_registered_user_choices,
};

fn s(x: &str) -> String {
    x.to_string()
}

#[test]
fn fuzzy_matches_best_first_at_most_eight() {
    let rows = vec![(s("Arsenal"), 1), (s("Aston Villa"), 2), (s("Brentford"), 3), (s("Chelsea"), 4)];
    let choices = get_fuzzy_matches("ARS", rows.clone());
    assert_eq!(choices[0], (s("Arsenal"), 1));
    assert!(choices.iter().all(|(name, _)| name != "Chelsea"));
    let all = get_fuzzy_matches("", (0..20).map(|i| (format!("Club {i}"), i)).collect());
    assert_eq!(all.len(), 8);
    assert_eq!(all[0], (s("Club 0"), 0));
    assert!(get_fuzzy_matches("zzz", rows).is_empty());
}

#[test]
fn substring_search() {
    assert!(contains_text("max (maxjordan)", "jord"));
    assert!(contains_text("abc", ""));
    assert!(!contains_text("abc", "abcd"));
    assert!(!contains_text("abc", "ac"));
}

#[test]
fn registered_members_matching_the_text() {
    let members = vec![
        (s("Max"), s("maxjordan"), 1u64),
        (s("Sam"), s("samuel"), 2u64),
        (s("Maxine"), s("mx"), 3u64),
    ];
    let choices = get_registered_user_choices(&members, &vec![1, 2], "MAX");
    assert_eq!(choices, vec![(s("Max (maxjordan)"), 1)]);
    let many: Vec<(String, String, u64)> = (0..30).map(|i| (format!("User{i}"), s("u"), i)).collect();
    let registered: Vec<i64> = (0..30).collect();
    assert_eq!(get_registered_user_choices(&many, &registered, "user").len(), 25);
}

#[test]
fn fixed_choices() {
    assert_eq!(autocomplete_league_or_user(), vec![s("League"), s("User")]);
    assert_eq!(autocomplete_overall_or_week(), vec![s("Overall"), s("Current Gameweek")]);
    assert_eq!(autocomplete_player_or_club(), vec![s("Club"), s("Player")]);
}
