use podcast_studio::datetime::chrono_today;
use podcast_studio::datetime::days_to_date;
use podcast_studio::datetime::today_from_secs;
use podcast_studio::recent::RecentPaths;
use podcast_studio::settings::Settings;
use podcast_studio::text::contains_sub;
use podcast_studio::text::i32_dec;
use podcast_studio::text::split_lines;
use podcast_studio::text::trim;
use podcast_studio::text::u64_dec;

fn loaded(content: &str) -> Settings {
    Settings::load(String::from("/proj/.env"), Some(String::from(content)))
}

#[test]
fn load_parses_env_content() {
    let s = loaded("# comment\nLLM_MODEL=gpt-4o\n  LLM_API_KEY =  sk-123  \n\nBROKEN LINE\n");
    assert_eq!(s.get("LLM_MODEL"), "gpt-4o");
    assert_eq!(s.get("LLM_API_KEY"), "sk-123");
    assert_eq!(s.get("MISSING"), "");
    assert!(!s.dirty);
    assert_eq!(s.env_path, "/proj/.env");
}

#[test]
fn load_without_content_is_empty() {
    let s = Settings::load(String::from("/proj/.env"), None);
    assert_eq!(s.get("ANYTHING"), "");
    assert!(!s.dirty);
}

#[test]
fn later_assignment_overrides_earlier() {
    let s = loaded("KEY=first\nKEY=second\n");
    assert_eq!(s.get("KEY"), "second");
}

#[test]
fn get_bool_accepts_true_one_yes_ignoring_case() {
    let s = loaded("A=true\nB=TRUE\nC=1\nD=Yes\nE=no\nF=0\nG=\n");
    assert!(s.get_bool("A"));
    assert!(s.get_bool("B"));
    assert!(s.get_bool("C"));
    assert!(s.get_bool("D"));
    assert!(!s.get_bool("E"));
    assert!(!s.get_bool("F"));
    assert!(!s.get_bool("G"));
    assert!(!s.get_bool("MISSING"));
}

#[test]
fn set_marks_dirty_only_on_change() {
    let mut s = loaded("KEY=old\n");
    s.set("KEY", String::from("old"));
    assert!(!s.dirty);
    s.set("KEY", String::from("new"));
    assert!(s.dirty);
    assert_eq!(s.get("KEY"), "new");
    // Setting an absent key to the empty string stores nothing.
    let mut t = loaded("");
    t.set("EMPTY", String::new());
    assert!(!t.dirty);
    assert_eq!(t.get("EMPTY"), "");
}

#[test]
fn set_bool_stores_words() {
    let mut s = loaded("");
    s.set_bool("FLAG", true);
    assert_eq!(s.get("FLAG"), "true");
    assert!(s.get_bool("FLAG"));
    s.set_bool("FLAG", false);
    assert_eq!(s.get("FLAG"), "false");
    assert!(!s.get_bool("FLAG"));
}

#[test]
fn render_keeps_comments_rewrites_known_keys_appends_new() {
    let content = "# settings\nKEY=old\nOTHER=stays\n";
    let mut s = loaded(content);
    s.set("KEY", String::from("new"));
    s.set("ADDED", String::from("v"));
    s.set("EMPTYNEW", String::new());
    let original: Vec<String> = split_lines(content);
    let out = s.render_env(&original);
    assert_eq!(
        out,
        vec![
            String::from("# settings"),
            String::from("KEY=new"),
            String::from("OTHER=stays"),
            String::from("ADDED=v"),
        ]
    );
}

#[test]
fn text_helpers() {
    assert_eq!(trim("  hello \t\r\n"), "hello");
    assert_eq!(trim(""), "");
    assert_eq!(trim(" \t "), "");
    assert!(contains_sub("abcdef", "cde"));
    assert!(!contains_sub("abcdef", "xyz"));
    assert_eq!(split_lines("a\r\nb\n\nc"), vec![
        String::from("a"),
        String::from("b"),
        String::from(""),
        String::from("c"),
    ]);
    let none: Vec<String> = vec![];
    assert_eq!(split_lines(""), none);
    assert_eq!(u64_dec(0), "0");
    assert_eq!(u64_dec(90210), "90210");
    assert_eq!(i32_dec(-305), "-305");
}

#[test]
fn days_to_date_exact_values() {
    assert_eq!(days_to_date(0), (1970, 1, 1));
    assert_eq!(days_to_date(19782), (2024, 2, 29));
    assert_eq!(days_to_date(11017), (2000, 3, 1));
    assert_eq!(days_to_date(20453), (2025, 12, 31));
}

#[test]
fn today_from_secs_renders_at_utc_plus_eight() {
    assert_eq!(today_from_secs(0), "1970-01-01");
    // 16:00 UTC is already the next day at UTC+8.
    assert_eq!(today_from_secs(57600), "1970-01-02");
    assert_eq!(today_from_secs(1718380800), "2024-06-15");
}

#[test]
fn chrono_today_has_date_shape() {
    let today = chrono_today();
    let chars: Vec<char> = today.chars().collect();
    assert!(chars.len() >= 10);
    assert_eq!(chars[chars.len() - 3], '-');
    assert_eq!(chars[chars.len() - 6], '-');
    for (i, c) in chars.iter().enumerate() {
        if i != chars.len() - 3 && i != chars.len() - 6 {
            assert!(c.is_ascii_digit());
        }
    }
}

#[test]
fn recent_paths_config_location() {
    assert_eq!(RecentPaths::config_path("/proj"), "/proj/podcast-studio.json");
    let r = RecentPaths::new();
    assert!(r.last_pdf_dir.is_none());
    assert!(r.last_output_dir.is_none());
}
