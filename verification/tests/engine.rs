use skillbridge::handlers::{match_mentors, DEFAULT_LIMIT};
use skillbridge::matching::MentorMatcher;
use skillbridge::models::{CompatibilityFactors, MatchResult, MatchingRequest, Mentor, User};
use skillbridge::ratio::{Order, Ratio};
use uuid::Uuid;

fn value(r: Ratio) -> f64 {
    r.num as f64 / r.den as f64
}

fn words(list: &[&str]) -> Vec<String> {
    list.iter().map(|w| w.to_string()).collect()
}

fn learner() -> User {
    User {
        id: Uuid::from_u128(100),
        skills: words(&["python", "django"]),
        learning_goals: words(&["web development"]),
        location: "Nigeria".to_string(),
        availability: 10,
        experience_level: "beginner".to_string(),
        preferred_languages: words(&["python"]),
    }
}

fn mentor(id: u128, expertise: &[&str]) -> Mentor {
    Mentor {
        id: Uuid::from_u128(id),
        expertise: words(expertise),
        location: "Germany".to_string(),
        availability: 15,
        experience_years: 3,
        rating: 450,
        hourly_rate: 50,
        teaching_style: "structured".to_string(),
    }
}

fn factors(skill: (u128, u128), location: bool, hours: (u128, u128), years: u128) -> CompatibilityFactors {
    CompatibilityFactors {
        skill_overlap: Ratio { num: skill.0, den: skill.1 },
        location_match: location,
        availability_match: Ratio { num: hours.0, den: hours.1 },
        experience_compatibility: Ratio { num: years, den: 10 },
        teaching_style_match: Ratio { num: 90, den: 100 },
    }
}

fn ids(results: &[MatchResult]) -> Vec<u128> {
    results.iter().map(|r| r.mentor_id.as_u128()).collect()
}

const PHRASES: [&str; 5] = [
    "Excellent skill alignment",
    "Good skill overlap",
    "Location match",
    "Availability compatibility",
    "Experience level match",
];

#[test]
fn test_matching_request() {
    let learner = User {
        id: Uuid::new_v4(),
        skills: vec!["python".to_string()],
        learning_goals: vec!["web development".to_string()],
        location: "Nigeria".to_string(),
        availability: 10,
        experience_level: "beginner".to_string(),
        preferred_languages: vec!["python".to_string()],
    };

    let mentor = Mentor {
        id: Uuid::new_v4(),
        expertise: vec!["python".to_string(), "django".to_string()],
        location: "Nigeria".to_string(),
        availability: 15,
        experience_years: 3,
        rating: 450,
        hourly_rate: 50,
        teaching_style: "structured".to_string(),
    };
    let mentor_id = mentor.id;

    let request = MatchingRequest { learner, mentors: vec![mentor], limit: Some(5) };

    let matches = match_mentors(&request);
    assert_eq!(matches.len(), 1);
    assert_eq!(matches[0].mentor_id, mentor_id);
    assert_eq!(value(matches[0].score), 78.5);
    assert_eq!(
        matches[0].reasoning,
        "Rank 1 match: Good skill overlap, Location match, Availability compatibility, Experience level match"
    );
}

#[test]
fn a_copy_of_a_record_keeps_its_identifier() {
    let m = mentor(77, &["python"]);
    let copy = m.clone();
    assert_eq!(copy.id, m.id);
    assert_eq!(copy.id.as_u128(), 77);
    assert_eq!(copy.expertise, m.expertise);
}

#[test]
fn matcher_names_its_version() {
    assert_eq!(MentorMatcher::new().algorithm_version(), "1.0.0");
}

#[test]
fn one_candidate_gives_one_result() {
    let matcher = MentorMatcher::new();
    let out = matcher.find_matches(&learner(), &[mentor(1, &["rust"])], 5);
    assert_eq!(out.len(), 1);
    let text = &out[0].reasoning;
    assert!(
        text == "Rank 1 match based on overall compatibility"
            || PHRASES.iter().any(|p| text.contains(p))
    );
    assert!(text.starts_with("Rank 1 match"));
}

#[test]
fn no_candidates_give_no_results() {
    let matcher = MentorMatcher::new();
    assert!(matcher.find_matches(&learner(), &[], 5).is_empty());
    assert!(matcher.find_matches(&learner(), &[], 0).is_empty());
}

#[test]
fn results_come_best_first() {
    let matcher = MentorMatcher::new();
    let mentors = vec![
        mentor(1, &["rust"]),
        mentor(2, &["python", "django"]),
        mentor(3, &["python"]),
        mentor(4, &["django", "python", "rust", "go"]),
    ];
    let out = matcher.find_matches(&learner(), &mentors, 10);
    // candidates 3 and 4 both share half of the tags: 1/2 and 2/4
    assert_eq!(ids(&out), vec![2, 3, 4, 1]);
    // 40 * 1 + 15 * (0 + 1 + 1 + 0.9)
    assert_eq!(out[0].score, Ratio { num: 167000, den: 2000 });
    assert_eq!(value(out[0].score), 83.5);
    assert_eq!(value(out[1].score), 63.5);
    assert_eq!(value(out[2].score), 63.5);
    assert_eq!(value(out[3].score), 43.5);
    for k in 1..out.len() {
        assert!(out[k].score.compare(&out[k - 1].score) != Order::Above);
    }
}

#[test]
fn results_carry_rank_factors_and_reasoning() {
    let matcher = MentorMatcher::new();
    let mentors = vec![mentor(1, &["rust"]), mentor(2, &["python", "django"])];
    let out = matcher.find_matches(&learner(), &mentors, 10);
    assert_eq!(ids(&out), vec![2, 1]);
    assert_eq!(
        out[0].reasoning,
        "Rank 1 match: Excellent skill alignment, Availability compatibility, Experience level match"
    );
    assert_eq!(
        out[1].reasoning,
        "Rank 2 match: Availability compatibility, Experience level match"
    );
    for (result, index) in out.iter().zip([1usize, 0]) {
        let f = matcher.calculate_compatibility_factors(&learner(), &mentors[index]);
        assert_eq!(result.compatibility_factors, f);
        assert_eq!(result.score, matcher.calculate_compatibility_score(&learner(), &mentors[index]));
    }
}

#[test]
fn equal_scores_keep_the_order_given() {
    let matcher = MentorMatcher::new();
    let mentors = vec![
        mentor(7, &["python"]),
        mentor(3, &["django"]),
        mentor(9, &["python", "django"]),
        mentor(1, &["python"]),
        // the same overlap written over another denominator: 2/4 against 1/2
        mentor(5, &["python", "django", "rust", "go"]),
    ];
    let out = matcher.find_matches(&learner(), &mentors, 20);
    assert_eq!(ids(&out), vec![9, 7, 3, 1, 5]);
    let cut = matcher.find_matches(&learner(), &mentors, 3);
    assert_eq!(ids(&cut), vec![9, 7, 3]);
}

#[test]
fn the_limit_is_held_between_one_and_twenty() {
    let matcher = MentorMatcher::new();
    let mentors: Vec<Mentor> = (0..25).map(|i| mentor(i, &["python"])).collect();
    assert_eq!(matcher.find_matches(&learner(), &mentors, 0).len(), 1);
    assert_eq!(matcher.find_matches(&learner(), &mentors, 1).len(), 1);
    assert_eq!(matcher.find_matches(&learner(), &mentors, 5).len(), 5);
    assert_eq!(matcher.find_matches(&learner(), &mentors, 20).len(), 20);
    assert_eq!(matcher.find_matches(&learner(), &mentors, 21).len(), 20);
    assert_eq!(matcher.find_matches(&learner(), &mentors, usize::MAX).len(), 20);
    assert_eq!(matcher.find_matches(&learner(), &mentors[..3], 20).len(), 3);
    let all = matcher.find_matches(&learner(), &mentors, 100);
    assert_eq!(ids(&all), (0..20).collect::<Vec<u128>>());
    assert_eq!(all[19].reasoning, "Rank 20 match: Good skill overlap, Availability compatibility, Experience level match");
}

#[test]
fn a_request_without_a_limit_asks_for_five() {
    assert_eq!(DEFAULT_LIMIT, 5);
    let mentors: Vec<Mentor> = (0..7).map(|i| mentor(i, &["python"])).collect();
    let mut request = MatchingRequest { learner: learner(), mentors, limit: None };
    assert_eq!(match_mentors(&request).len(), 5);
    request.limit = Some(6);
    assert_eq!(match_mentors(&request).len(), 6);
    request.limit = Some(0);
    assert_eq!(match_mentors(&request).len(), 1);
    request.limit = Some(50);
    assert_eq!(match_mentors(&request).len(), 7);
}

#[test]
fn ranking_twice_gives_the_same() {
    let matcher = MentorMatcher::new();
    let mentors: Vec<Mentor> = (0..200)
        .map(|i| {
            let mut m = mentor(i, &[["python", "rust", "django", "go"][(i % 4) as usize], "sql"]);
            m.availability = (i % 13) as i32;
            m.experience_years = (i % 7) as i32;
            m.location = ["Kenya", "Germany", "Atlantis"][(i % 3) as usize].to_string();
            m.teaching_style = ["structured", "flexible", "hands-on", "other"][(i % 4) as usize].to_string();
            m
        })
        .collect();
    let first = matcher.find_matches(&learner(), &mentors, 20);
    let second = matcher.find_matches(&learner(), &mentors, 20);
    assert_eq!(first.len(), 20);
    assert_eq!(format!("{:?}", first), format!("{:?}", second));
    for k in 1..first.len() {
        let order = first[k].score.compare(&first[k - 1].score);
        assert!(order != Order::Above);
        if order == Order::Same {
            assert!(first[k - 1].mentor_id.as_u128() < first[k].mentor_id.as_u128());
        }
    }
    for (k, result) in first.iter().enumerate() {
        let m = &mentors[result.mentor_id.as_u128() as usize];
        assert_eq!(result.score, matcher.calculate_compatibility_score(&learner(), m));
        assert!(result.score.num <= 100 * result.score.den);
        assert!(result.reasoning.starts_with(&format!("Rank {} match", k + 1)));
    }
}

#[test]
fn reasoning_without_a_phrase() {
    let matcher = MentorMatcher::new();
    let f = factors((0, 1), false, (0, 1), 5);
    assert_eq!(matcher.generate_reasoning(&f, 1), "Rank 1 match based on overall compatibility");
    assert_eq!(matcher.generate_reasoning(&f, 17), "Rank 17 match based on overall compatibility");
}

#[test]
fn reasoning_with_every_phrase() {
    let matcher = MentorMatcher::new();
    let f = factors((3, 4), true, (1, 1), 10);
    assert_eq!(
        matcher.generate_reasoning(&f, 2),
        "Rank 2 match: Excellent skill alignment, Location match, Availability compatibility, Experience level match"
    );
}

#[test]
fn reasoning_with_single_phrases() {
    let matcher = MentorMatcher::new();
    assert_eq!(
        matcher.generate_reasoning(&factors((1, 2), false, (0, 1), 5), 12),
        "Rank 12 match: Good skill overlap"
    );
    assert_eq!(
        matcher.generate_reasoning(&factors((0, 1), true, (0, 1), 5), 3),
        "Rank 3 match: Location match"
    );
    assert_eq!(
        matcher.generate_reasoning(&factors((0, 1), false, (9, 10), 5), 3),
        "Rank 3 match: Availability compatibility"
    );
    assert_eq!(
        matcher.generate_reasoning(&factors((0, 1), false, (0, 1), 10), 3),
        "Rank 3 match: Experience level match"
    );
    assert_eq!(
        matcher.generate_reasoning(&factors((0, 1), true, (0, 1), 10), 4),
        "Rank 4 match: Location match, Experience level match"
    );
}

#[test]
fn reasoning_at_the_thresholds() {
    let matcher = MentorMatcher::new();
    let fallback = "Rank 1 match based on overall compatibility";
    // exactly 0.7 is good, not excellent; exactly 0.4 earns nothing
    assert_eq!(
        matcher.generate_reasoning(&factors((7, 10), false, (0, 1), 5), 1),
        "Rank 1 match: Good skill overlap"
    );
    assert_eq!(
        matcher.generate_reasoning(&factors((71, 100), false, (0, 1), 5), 1),
        "Rank 1 match: Excellent skill alignment"
    );
    assert_eq!(matcher.generate_reasoning(&factors((2, 5), false, (0, 1), 5), 1), fallback);
    assert_eq!(
        matcher.generate_reasoning(&factors((41, 100), false, (0, 1), 5), 1),
        "Rank 1 match: Good skill overlap"
    );
    // exactly 0.8 earns nothing for availability and experience
    assert_eq!(matcher.generate_reasoning(&factors((0, 1), false, (4, 5), 8), 1), fallback);
    assert_eq!(
        matcher.generate_reasoning(&factors((0, 1), false, (81, 100), 9), 1),
        "Rank 1 match: Availability compatibility, Experience level match"
    );
}
