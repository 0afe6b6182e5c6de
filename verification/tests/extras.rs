use raft_core::decision::{ProjectRequirements, TechDecisionFramework};
use raft_core::dispatch::{process_dynamic, process_static, ComponentA, ComponentB, Renderer};
use raft_core::numeric::{fibonacci, fibonacci_iterative, process_data, sum_of_squares};
use raft_core::sensor::{raw_reading, Tmp102};
use raft_core::summary::{NewsArticle, Summary, Tweet};
use raft_core::textfmt::{
    format_u32, format_u64, format_user, format_user_list_idiomatic, format_user_list_naive,
    format_user_list_single_string, longest,
};
use raft_core::telemetry::MemDataPoint;
use raft_core::types::{LogEntry, StepOutput};
use raft_core::users::{create_user, get_user_by_id, get_users, User};

#[test]
fn process_data_doubles_even_elements() {
    assert_eq!(process_data(&[1, 2, 3, 4]), 12);
    assert_eq!(process_data(&[]), 0);
    assert_eq!(process_data(&[-2, 3]), -4);
    assert_eq!(process_data(&[1, 3, 5]), 0);
}

#[test]
fn sum_of_squares_values() {
    assert_eq!(sum_of_squares(&[]), 0);
    assert_eq!(sum_of_squares(&[1, 2, 3]), 14);
    let numbers: Vec<u64> = (0..=100).collect();
    // n(n+1)(2n+1)/6 for n = 100.
    assert_eq!(sum_of_squares(&numbers), 338350);
}

#[test]
fn fibonacci_small_values() {
    assert_eq!(fibonacci(0), 0);
    assert_eq!(fibonacci(1), 1);
    assert_eq!(fibonacci(10), 55);
    assert_eq!(fibonacci_iterative(0), 0);
    assert_eq!(fibonacci_iterative(1), 1);
    assert_eq!(fibonacci_iterative(10), 55);
}

#[test]
fn fibonacci_recursive_and_iterative_agree() {
    for n in 0..20u64 {
        assert_eq!(fibonacci(n), fibonacci_iterative(n));
    }
    // The largest Fibonacci number that fits in 64 bits.
    assert_eq!(fibonacci_iterative(93), 12200160415121876738);
}

#[test]
fn dispatch_static_and_dynamic() {
    let a = ComponentA { data: 5 };
    let b = ComponentB { data: 3 };
    assert_eq!(a.render(), 5);
    assert_eq!(b.render(), 6);
    assert_eq!(process_static(&a), 5);
    assert_eq!(process_static(&b), 6);
    assert_eq!(process_dynamic(&a), 5);
    assert_eq!(process_dynamic(&b), 6);
}

#[test]
fn summaries() {
    let tweet = Tweet {
        username: String::from("horse_ebooks"),
        content: String::from("of course, as you probably already know, people"),
        reply: false,
        retweet: false,
    };
    assert_eq!(tweet.summarize_author(), "@horse_ebooks");
    assert_eq!(tweet.summarize(), "(Read more from @horse_ebooks)");

    let article = NewsArticle {
        headline: String::from("Penguins win the Stanley Cup Championship!"),
        location: String::from("Pittsburgh, PA, USA"),
        author: String::from("Iceburgh"),
        content: String::from("The Pittsburgh Penguins once again are the best hockey team."),
    };
    assert_eq!(article.summarize_author(), "Iceburgh");
    assert_eq!(article.summarize(), "(Read more from Iceburgh)");
}

#[test]
fn decimal_formatting() {
    assert_eq!(format_u32(0), "0");
    assert_eq!(format_u32(7), "7");
    assert_eq!(format_u32(12345), "12345");
    assert_eq!(format_u32(u32::MAX), "4294967295");
    assert_eq!(format_u64(u64::MAX), "18446744073709551615");
    assert_eq!(format_user(42, "Zoe"), "User 42: Zoe");
}

#[test]
fn user_list_formatting() {
    let users = [(1u32, "Alice"), (2u32, "Bob")];
    let naive = format_user_list_naive(&users);
    assert_eq!(naive, vec!["User 1: Alice".to_string(), "User 2: Bob".to_string()]);
    let idiomatic = format_user_list_idiomatic(&users);
    assert_eq!(idiomatic, naive);
    let single = format_user_list_single_string(&users);
    assert_eq!(single, "User 1: Alice\nUser 2: Bob\n");
    assert_eq!(format_user_list_single_string(&[]), "");
}

#[test]
fn longest_picks_longer_string() {
    assert_eq!(longest("abcd", "xyz"), "abcd");
    assert_eq!(longest("ab", "wxyz"), "wxyz");
    // Ties go to the second argument.
    assert_eq!(longest("abc", "xyz"), "xyz");
}

#[test]
fn sensor_raw_reading() {
    assert_eq!(raw_reading(0, 0), 0);
    // 0x1F / 0x80: high byte 31, upper half of low byte 8.
    assert_eq!(raw_reading(0x1F, 0x80), 16 * 31 + 8);
    assert_eq!(raw_reading(0xFF, 0xF0), 4095);
    // The low four bits of the second byte are ignored.
    assert_eq!(raw_reading(1, 0x0F), 16);
}

#[test]
fn sensor_driver_owns_its_bus() {
    let bus: u8 = 77;
    let driver = Tmp102::new(bus);
    assert_eq!(driver.i2c, 77);
    assert_eq!(driver.release(), 77);
}

#[test]
fn entry_duplicate_copies_value() {
    let e = LogEntry { term: 3, command: vec![1, 2, 3] };
    let d = e.duplicate();
    assert_eq!(d.term, 3);
    assert_eq!(d.command, vec![1, 2, 3]);
}

#[test]
fn empty_step_output() {
    let out = StepOutput::empty();
    assert!(out.messages.is_empty());
    assert!(out.committed.is_empty());
}

#[test]
fn memory_sample_json() {
    let p = MemDataPoint { timestamp: 1700000000, memory_kb: 2048 };
    assert_eq!(p.to_json(), "{\"timestamp\":1700000000,\"memory_kb\":2048}");
    let zero = MemDataPoint { timestamp: 0, memory_kb: 0 };
    assert_eq!(zero.to_json(), "{\"timestamp\":0,\"memory_kb\":0}");
}

#[test]
fn user_directory_operations() {
    let mut db: Vec<User> = Vec::new();
    let ada = create_user(&mut db, String::from("ada"));
    assert_eq!(ada.id, 0);
    assert_eq!(ada.name, "ada");
    let grace = create_user(&mut db, String::from("grace"));
    assert_eq!(grace.id, 1);

    let all = get_users(&db);
    assert_eq!(all.len(), 2);
    assert_eq!(all[0].name, "ada");
    assert_eq!(all[1].name, "grace");

    let found = get_user_by_id(&db, 1).unwrap();
    assert_eq!(found.name, "grace");
    assert!(get_user_by_id(&db, 7).is_none());
}

#[test]
fn decision_framework_high_performance_service() {
    let req = ProjectRequirements {
        performance_critical: true,
        memory_constraints: true,
        team_experience: vec![
            (String::from("java"), 3),
            (String::from("python"), 2),
            (String::from("rust"), 1),
            (String::from("cpp"), 0),
            (String::from("go"), 2),
        ],
        development_timeline: 8,
        maintenance_period: 10,
        concurrent_users: 50000,
        data_volume_gb: 500,
    };
    let r = TechDecisionFramework::recommend_language(&req);
    assert_eq!(r.len(), 5);
    // Rust and Java tie at 32.0 points; Go, Python and C++ follow.
    assert_eq!(r[0].total_score, 320);
    assert_eq!(r[1].total_score, 320);
    let mut top: Vec<&str> = vec![&r[0].language, &r[1].language];
    top.sort();
    assert_eq!(top, vec!["Java", "Rust"]);
    assert_eq!((r[2].language.as_str(), r[2].total_score), ("Go", 305));
    assert_eq!((r[3].language.as_str(), r[3].total_score), ("Python", 260));
    assert_eq!((r[4].language.as_str(), r[4].total_score), ("C++", 195));
}

#[test]
fn decision_framework_rapid_prototype() {
    let req = ProjectRequirements {
        performance_critical: false,
        memory_constraints: false,
        team_experience: vec![
            (String::from("python"), 3),
            (String::from("java"), 1),
            (String::from("rust"), 0),
            (String::from("cpp"), 0),
            (String::from("go"), 1),
        ],
        development_timeline: 2,
        maintenance_period: 1,
        concurrent_users: 100,
        data_volume_gb: 10,
    };
    let r = TechDecisionFramework::recommend_language(&req);
    let ranked: Vec<(&str, u32)> =
        r.iter().map(|s| (s.language.as_str(), s.total_score)).collect();
    assert_eq!(
        ranked,
        vec![("Java", 330), ("Go", 320), ("Python", 310), ("C++", 215), ("Rust", 210)]
    );
}

#[test]
fn experience_lookup_uses_first_entry() {
    // An unknown language counts as no experience: C++ scores its
    // inexperienced bands.
    let req = ProjectRequirements {
        performance_critical: false,
        memory_constraints: false,
        team_experience: vec![],
        development_timeline: 12,
        maintenance_period: 1,
        concurrent_users: 0,
        data_volume_gb: 0,
    };
    let r = TechDecisionFramework::recommend_language(&req);
    let cpp = r.iter().find(|s| s.language == "C++").unwrap();
    assert_eq!(cpp.development_speed_score, 20);
    assert_eq!(cpp.risk_score, 30);
}
