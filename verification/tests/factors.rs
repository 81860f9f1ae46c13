use skillbridge::factors::{
    any_mentions_project, experience_factor, lowercase_each, teaching_style_factor, text_is,
};
use skillbridge::location::{lies_in, location_match_of, region_table, same_region_lowered};
use skillbridge::reasoning::join;
use skillbridge::text::to_chars;
use skillbridge::matching::MentorMatcher;
use skillbridge::models::{CompatibilityFactors, Mentor, User};
use skillbridge::ratio::Ratio;
use skillbridge::score::weighted_score;
use uuid::Uuid;

fn value(r: Ratio) -> f64 {
    r.num as f64 / r.den as f64
}

fn words(list: &[&str]) -> Vec<String> {
    list.iter().map(|w| w.to_string()).collect()
}

fn learner_with(goals: &[&str], level: &str) -> User {
    User {
        id: Uuid::from_u128(1),
        skills: words(&["python"]),
        learning_goals: words(goals),
        location: "Nigeria".to_string(),
        availability: 10,
        experience_level: level.to_string(),
        preferred_languages: words(&["python"]),
    }
}

fn mentor_with(style: &str) -> Mentor {
    Mentor {
        id: Uuid::from_u128(2),
        expertise: words(&["python", "django"]),
        location: "Nigeria".to_string(),
        availability: 15,
        experience_years: 3,
        rating: 450,
        hourly_rate: 50,
        teaching_style: style.to_string(),
    }
}

#[test]
fn test_skill_overlap_calculation() {
    let matcher = MentorMatcher::new();

    let learner_skills = vec!["python".to_string(), "django".to_string()];
    let mentor_expertise = vec!["python".to_string(), "rust".to_string()];

    let overlap = matcher.calculate_skill_overlap(&learner_skills, &mentor_expertise);
    assert_eq!(value(overlap), 1.0 / 3.0); // 1 intersection, 3 union
    assert_eq!(overlap, Ratio { num: 1, den: 3 });
}

#[test]
fn test_location_match() {
    let matcher = MentorMatcher::new();

    assert!(matcher.calculate_location_match("Nigeria", "Nigeria"));
    assert!(matcher.is_same_region("Kenya", "South Africa"));
    assert!(!matcher.is_same_region("Nigeria", "Germany"));
}

#[test]
fn skill_overlap_is_zero_for_an_empty_list() {
    let matcher = MentorMatcher::new();
    let some = words(&["python"]);
    let none: Vec<String> = Vec::new();
    assert_eq!(matcher.calculate_skill_overlap(&none, &some), Ratio { num: 0, den: 1 });
    assert_eq!(matcher.calculate_skill_overlap(&some, &none), Ratio { num: 0, den: 1 });
    assert_eq!(matcher.calculate_skill_overlap(&none, &none), Ratio { num: 0, den: 1 });
}

#[test]
fn skill_overlap_is_zero_for_lists_without_a_common_tag() {
    let matcher = MentorMatcher::new();
    let overlap = matcher.calculate_skill_overlap(&words(&["python"]), &words(&["rust"]));
    assert_eq!(overlap, Ratio { num: 0, den: 2 });
    assert_eq!(value(overlap), 0.0);
}

#[test]
fn skill_overlap_is_one_for_the_same_tags() {
    let matcher = MentorMatcher::new();
    let overlap = matcher.calculate_skill_overlap(&words(&["a", "b"]), &words(&["b", "a"]));
    assert_eq!(overlap, Ratio { num: 2, den: 2 });
    assert_eq!(value(overlap), 1.0);
}

#[test]
fn skill_overlap_counts_each_tag_once() {
    let matcher = MentorMatcher::new();
    let overlap = matcher.calculate_skill_overlap(
        &words(&["a", "a", "b", "a"]),
        &words(&["b", "c", "c", "b"]),
    );
    assert_eq!(overlap, Ratio { num: 1, den: 3 });
}

#[test]
fn skill_overlap_tells_upper_from_lower_case() {
    let matcher = MentorMatcher::new();
    let overlap = matcher.calculate_skill_overlap(&words(&["Python"]), &words(&["python"]));
    assert_eq!(overlap, Ratio { num: 0, den: 2 });
}

#[test]
fn skill_overlap_stays_between_zero_and_one() {
    let matcher = MentorMatcher::new();
    let lists: [&[&str]; 4] = [&[], &["a"], &["a", "b", "c"], &["c", "d"]];
    for a in lists.iter() {
        for b in lists.iter() {
            let overlap = matcher.calculate_skill_overlap(&words(a), &words(b));
            assert!(overlap.den > 0);
            assert!(overlap.num <= overlap.den);
        }
    }
}

#[test]
fn location_match_ignores_case() {
    let matcher = MentorMatcher::new();
    assert!(matcher.calculate_location_match("NIGERIA", "nigeria"));
    assert!(matcher.calculate_location_match("Berlin", "bERLIN"));
    assert!(matcher.is_same_region("KENYA", "Ghana"));
}

#[test]
fn location_match_by_region() {
    let matcher = MentorMatcher::new();
    assert!(matcher.calculate_location_match("Kenya", "South Africa"));
    assert!(matcher.calculate_location_match("Lagos, Nigeria", "Nairobi, Kenya"));
    assert!(matcher.calculate_location_match("Germany", "France"));
    assert!(matcher.calculate_location_match("India", "Japan"));
    assert!(matcher.calculate_location_match("USA", "Mexico"));
    assert!(!matcher.calculate_location_match("Nigeria", "Germany"));
    assert!(!matcher.calculate_location_match("Atlantis", "Nigeria"));
    assert!(!matcher.calculate_location_match("Atlantis", "El Dorado"));
}

#[test]
fn location_match_is_symmetric() {
    let matcher = MentorMatcher::new();
    let places = ["Nigeria", "kenya", "Germany", "Paris, France", "Atlantis", "", "USA", "uk"];
    for a in places.iter() {
        for b in places.iter() {
            assert_eq!(
                matcher.calculate_location_match(a, b),
                matcher.calculate_location_match(b, a)
            );
            assert_eq!(matcher.is_same_region(a, b), matcher.is_same_region(b, a));
        }
    }
}

#[test]
fn location_in_lower_case_is_taken_as_given() {
    assert!(same_region_lowered("kenya", "ghana"));
    assert!(!same_region_lowered("Kenya", "ghana"));
    assert!(location_match_of(&"Kenya".to_string(), &"Kenya".to_string()));
    assert!(!location_match_of(&"Kenya".to_string(), &"kenya".to_string()));
}

#[test]
fn region_table_lists_four_regions() {
    let table = region_table();
    assert_eq!(table.len(), 4);
    assert_eq!(table[0], vec!["nigeria", "kenya", "south africa", "ghana", "uganda"]);
    assert_eq!(table[1], vec!["uk", "germany", "france", "spain", "italy"]);
    assert_eq!(table[2], vec!["india", "china", "japan", "singapore"]);
    assert_eq!(table[3], vec!["usa", "canada", "brazil", "mexico"]);
}

#[test]
fn availability_is_zero_for_a_mentor_without_hours() {
    let matcher = MentorMatcher::new();
    for hours in [0, 1, 10, 1000, i32::MAX] {
        assert_eq!(matcher.calculate_availability_match(hours, 0), Ratio { num: 0, den: 1 });
    }
}

#[test]
fn availability_is_one_within_capacity() {
    let matcher = MentorMatcher::new();
    assert_eq!(matcher.calculate_availability_match(10, 15), Ratio { num: 1, den: 1 });
    assert_eq!(matcher.calculate_availability_match(15, 15), Ratio { num: 1, den: 1 });
    assert_eq!(matcher.calculate_availability_match(0, 1), Ratio { num: 1, den: 1 });
}

#[test]
fn availability_is_the_share_covered_beyond_capacity() {
    let matcher = MentorMatcher::new();
    assert_eq!(matcher.calculate_availability_match(30, 10), Ratio { num: 10, den: 30 });
    assert_eq!(value(matcher.calculate_availability_match(20, 10)), 0.5);
    assert_eq!(matcher.calculate_availability_match(100, 10), Ratio { num: 10, den: 100 });
    assert_eq!(value(matcher.calculate_availability_match(100, 10)), 0.1);
}

#[test]
fn availability_is_never_below_a_tenth() {
    let matcher = MentorMatcher::new();
    assert_eq!(matcher.calculate_availability_match(101, 10), Ratio { num: 1, den: 10 });
    assert_eq!(matcher.calculate_availability_match(i32::MAX, 1), Ratio { num: 1, den: 10 });
    assert_eq!(value(matcher.calculate_availability_match(200, 10)), 0.1);
}

#[test]
fn availability_stays_between_zero_and_one() {
    let matcher = MentorMatcher::new();
    let hours = [0, 1, 2, 9, 10, 11, 40, 168, i32::MAX];
    for l in hours {
        for m in hours {
            let r = matcher.calculate_availability_match(l, m);
            assert!(r.den > 0 && r.num <= r.den);
            assert_eq!(r.num == 0, m == 0);
            if m > 0 && l <= m {
                assert_eq!(r.num, r.den);
            }
        }
    }
}

#[test]
fn availability_of_hours_below_zero_follows_the_quotient() {
    let matcher = MentorMatcher::new();
    assert_eq!(matcher.calculate_availability_match(-5, 10), Ratio { num: 1, den: 1 });
    assert_eq!(matcher.calculate_availability_match(5, -10), Ratio { num: 1, den: 1 });
    assert_eq!(matcher.calculate_availability_match(-20, -10), Ratio { num: 10, den: 20 });
    assert_eq!(matcher.calculate_availability_match(-5, -10), Ratio { num: 1, den: 1 });
    assert_eq!(
        matcher.calculate_availability_match(i32::MIN, -1),
        Ratio { num: 1, den: 10 }
    );
}

#[test]
fn experience_of_a_beginner() {
    let matcher = MentorMatcher::new();
    assert_eq!(matcher.calculate_experience_compatibility("beginner", 1), Ratio { num: 7, den: 10 });
    assert_eq!(value(matcher.calculate_experience_compatibility("beginner", 1)), 0.7);
    assert_eq!(matcher.calculate_experience_compatibility("beginner", 2), Ratio { num: 10, den: 10 });
    assert_eq!(value(matcher.calculate_experience_compatibility("beginner", 2)), 1.0);
    assert_eq!(matcher.calculate_experience_compatibility("beginner", 0), Ratio { num: 7, den: 10 });
}

#[test]
fn experience_of_an_intermediate() {
    let matcher = MentorMatcher::new();
    assert_eq!(value(matcher.calculate_experience_compatibility("intermediate", 3)), 1.0);
    assert_eq!(value(matcher.calculate_experience_compatibility("intermediate", 2)), 0.8);
    assert_eq!(value(matcher.calculate_experience_compatibility("intermediate", 1)), 0.8);
    assert_eq!(value(matcher.calculate_experience_compatibility("intermediate", 0)), 0.5);
}

#[test]
fn experience_of_an_advanced_learner() {
    let matcher = MentorMatcher::new();
    assert_eq!(value(matcher.calculate_experience_compatibility("advanced", 5)), 1.0);
    assert_eq!(value(matcher.calculate_experience_compatibility("advanced", 4)), 0.8);
    assert_eq!(value(matcher.calculate_experience_compatibility("advanced", 3)), 0.8);
    assert_eq!(value(matcher.calculate_experience_compatibility("advanced", 2)), 0.6);
}

#[test]
fn experience_of_an_unknown_level() {
    let matcher = MentorMatcher::new();
    assert_eq!(matcher.calculate_experience_compatibility("expert", 30), Ratio { num: 5, den: 10 });
    assert_eq!(matcher.calculate_experience_compatibility("", 30), Ratio { num: 5, den: 10 });
}

#[test]
fn experience_level_ignores_case() {
    let matcher = MentorMatcher::new();
    assert_eq!(matcher.calculate_experience_compatibility("BEGINNER", 2), Ratio { num: 10, den: 10 });
    assert_eq!(matcher.calculate_experience_compatibility("Advanced", 1), Ratio { num: 6, den: 10 });
}

#[test]
fn experience_level_in_lower_case_is_taken_as_given() {
    assert_eq!(experience_factor(&"beginner".to_string(), 1), Ratio { num: 7, den: 10 });
    assert_eq!(experience_factor(&"Beginner".to_string(), 5), Ratio { num: 5, den: 10 });
}

#[test]
fn experience_takes_its_values_from_the_table() {
    let matcher = MentorMatcher::new();
    let table = [10u128, 8, 7, 6, 5];
    for level in ["beginner", "intermediate", "advanced", "other"] {
        for years in -1..8 {
            let r = matcher.calculate_experience_compatibility(level, years);
            assert_eq!(r.den, 10);
            assert!(table.contains(&r.num));
        }
    }
}

#[test]
fn teaching_style_by_the_table() {
    let matcher = MentorMatcher::new();
    let learner = learner_with(&["web development"], "beginner");
    let of = |style: &str| matcher.calculate_teaching_style_match(&learner, &mentor_with(style));
    assert_eq!(of("structured"), Ratio { num: 90, den: 100 });
    assert_eq!(value(of("structured")), 0.9);
    assert_eq!(of("flexible"), Ratio { num: 80, den: 100 });
    assert_eq!(value(of("flexible")), 0.8);
    assert_eq!(of("hands-on"), Ratio { num: 70, den: 100 });
    assert_eq!(value(of("hands-on")), 0.7);
    assert_eq!(of("socratic"), Ratio { num: 60, den: 100 });
    assert_eq!(value(of("socratic")), 0.6);
    assert_eq!(of("STRUCTURED"), Ratio { num: 90, den: 100 });
}

#[test]
fn teaching_style_hands_on_suits_a_project() {
    let matcher = MentorMatcher::new();
    let learner = learner_with(&["web development", "Build a Project"], "beginner");
    let r = matcher.calculate_teaching_style_match(&learner, &mentor_with("Hands-On"));
    assert_eq!(r, Ratio { num: 95, den: 100 });
    assert_eq!(value(r), 0.95);
    let other = matcher.calculate_teaching_style_match(&learner, &mentor_with("flexible"));
    assert_eq!(other, Ratio { num: 80, den: 100 });
}

#[test]
fn teaching_style_in_lower_case_is_taken_as_given() {
    let goals = words(&["a project of my own"]);
    assert_eq!(
        teaching_style_factor(&"hands-on".to_string(), &goals),
        Ratio { num: 95, den: 100 }
    );
    assert_eq!(
        teaching_style_factor(&"hands-on".to_string(), &words(&["A PROJECT"])),
        Ratio { num: 70, den: 100 }
    );
    assert_eq!(
        teaching_style_factor(&"Hands-on".to_string(), &goals),
        Ratio { num: 60, den: 100 }
    );
    assert!(text_is(&"flexible".to_string(), "flexible"));
    assert!(!text_is(&"flexible".to_string(), "flexibl"));
}

#[test]
fn factors_of_a_pair() {
    let matcher = MentorMatcher::new();
    let learner = learner_with(&["web development"], "beginner");
    let mentor = mentor_with("structured");
    let f = matcher.calculate_compatibility_factors(&learner, &mentor);
    assert_eq!(
        f,
        CompatibilityFactors {
            skill_overlap: Ratio { num: 1, den: 2 },
            location_match: true,
            availability_match: Ratio { num: 1, den: 1 },
            experience_compatibility: Ratio { num: 10, den: 10 },
            teaching_style_match: Ratio { num: 90, den: 100 },
        }
    );
    assert!(f.is_wf());
}

#[test]
fn score_is_the_weighted_sum() {
    let matcher = MentorMatcher::new();
    let learner = learner_with(&["web development"], "beginner");
    let mentor = mentor_with("structured");
    let score = matcher.calculate_compatibility_score(&learner, &mentor);
    // 40 * 0.5 + 15 * (1 + 1 + 1 + 0.9)
    assert_eq!(score, Ratio { num: 157000, den: 2000 });
    assert_eq!(value(score), 78.5);
    let (again, factors) = matcher.evaluate(&learner, &mentor);
    assert_eq!(again, score);
    assert_eq!(weighted_score(&factors), score);
}

#[test]
fn score_reaches_a_hundred_and_no_more() {
    let best = CompatibilityFactors {
        skill_overlap: Ratio { num: 3, den: 3 },
        location_match: true,
        availability_match: Ratio { num: 1, den: 1 },
        experience_compatibility: Ratio { num: 10, den: 10 },
        teaching_style_match: Ratio { num: 100, den: 100 },
    };
    assert!(best.is_wf());
    let score = weighted_score(&best);
    assert_eq!(value(score), 100.0);
    assert_eq!(score.num, 100 * score.den);
}

#[test]
fn score_of_the_least_factors() {
    let least = CompatibilityFactors {
        skill_overlap: Ratio { num: 0, den: 1 },
        location_match: false,
        availability_match: Ratio { num: 0, den: 1 },
        experience_compatibility: Ratio { num: 5, den: 10 },
        teaching_style_match: Ratio { num: 60, den: 100 },
    };
    let score = weighted_score(&least);
    // 15 * 0.5 + 15 * 0.6
    assert_eq!(score, Ratio { num: 16500, den: 1000 });
    assert_eq!(value(score), 16.5);
    let nothing = CompatibilityFactors {
        skill_overlap: Ratio { num: 0, den: 1 },
        location_match: false,
        availability_match: Ratio { num: 0, den: 1 },
        experience_compatibility: Ratio { num: 0, den: 1 },
        teaching_style_match: Ratio { num: 0, den: 1 },
    };
    assert_eq!(weighted_score(&nothing), Ratio { num: 0, den: 1 });
}

#[test]
fn score_is_exact_for_the_widest_factors() {
    let wide = CompatibilityFactors {
        skill_overlap: Ratio { num: 0x1_ffff_ffff_ffff_fffe, den: 0x1_ffff_ffff_ffff_fffe },
        location_match: true,
        availability_match: Ratio { num: 0xffff_ffff, den: 0xffff_ffff },
        experience_compatibility: Ratio { num: 100, den: 100 },
        teaching_style_match: Ratio { num: 100, den: 100 },
    };
    assert!(wide.is_wf());
    let score = weighted_score(&wide);
    assert_eq!(score.den, 0x1_ffff_ffff_ffff_fffe * 0xffff_ffff * 10000);
    assert_eq!(score.num, 100 * score.den);
}

#[test]
fn factors_out_of_range_are_not_well_formed() {
    let mut f = CompatibilityFactors {
        skill_overlap: Ratio { num: 1, den: 2 },
        location_match: false,
        availability_match: Ratio { num: 1, den: 1 },
        experience_compatibility: Ratio { num: 10, den: 10 },
        teaching_style_match: Ratio { num: 90, den: 100 },
    };
    assert!(f.is_wf());
    f.skill_overlap = Ratio { num: 3, den: 2 };
    assert!(!f.is_wf());
    f.skill_overlap = Ratio { num: 0, den: 0 };
    assert!(!f.is_wf());
    f.skill_overlap = Ratio { num: 1, den: 2 };
    f.teaching_style_match = Ratio { num: 900, den: 1000 };
    assert!(!f.is_wf());
    f.teaching_style_match = Ratio { num: 90, den: 100 };
    f.availability_match = Ratio { num: 1, den: 0x1_0000_0000 };
    assert!(!f.is_wf());
}

#[test]
fn goals_are_put_in_lower_case_one_by_one() {
    assert_eq!(
        lowercase_each(&words(&["Build A PROJECT", "rust", "", "ÉCOLE"])),
        words(&["build a project", "rust", "", "école"])
    );
    assert_eq!(lowercase_each(&Vec::new()), Vec::<String>::new());
}

#[test]
fn a_project_is_found_among_the_goals() {
    assert!(any_mentions_project(&words(&["web", "my projects"])));
    assert!(any_mentions_project(&words(&["project"])));
    assert!(!any_mentions_project(&words(&["web", "Project"])));
    assert!(!any_mentions_project(&words(&["projec", "roject"])));
    assert!(!any_mentions_project(&Vec::new()));
}

#[test]
fn a_location_lies_in_a_region_by_one_of_its_names() {
    let table = region_table();
    assert!(lies_in(&to_chars("accra, ghana"), &table[0]));
    assert!(!lies_in(&to_chars("accra, ghana"), &table[1]));
    assert!(lies_in(&to_chars("uk"), &table[1]));
    // a name is found wherever it stands, in the middle of a word too
    assert!(lies_in(&to_chars("lusaka"), &table[3]));
    assert!(!lies_in(&to_chars(""), &table[2]));
}

#[test]
fn wordings_are_joined_with_the_separator_between() {
    assert_eq!(join(&vec![], ", "), "");
    assert_eq!(join(&vec!["one"], ", "), "one");
    assert_eq!(join(&vec!["one", "two", "three"], ", "), "one, two, three");
    assert_eq!(join(&vec!["a", "b"], ""), "ab");
}
