use sharp::skills::{
    escape_for_powershell, new_skill, skill_command, skill_command_for, skill_file_name, skill_listing_line,
    skill_not_found_message, skill_saved_message, skills_listing, SkillDef, SkillParam,
};
use sharp::web::{fetched_page_text, page_excerpt_of, search_results_text, typing_preview, SearchHit};

fn skill(name: &str, params: &[&str], description: &str) -> SkillDef {
    SkillDef {
        name: name.to_string(),
        description: description.to_string(),
        parameters: params.iter().map(|s| s.to_string()).collect(),
        powershell_code: String::new(),
    }
}

#[test]
fn skill_lines_and_listing() {
    assert_eq!(skill_listing_line(&skill("ping", &[], "Ping a host")), "ping: Ping a host");
    assert_eq!(
        skill_listing_line(&skill("search", &["query", "count"], "Search")),
        "search (params: query, count): Search"
    );
    assert_eq!(skills_listing(&vec![]), "No skills saved yet.");
    assert_eq!(
        skills_listing(&vec![skill("a", &[], "A"), skill("b", &["x"], "B")]),
        "a: A\nb (params: x): B"
    );
}

#[test]
fn new_skill_reads_parameter_array() {
    let s = new_skill("greet", "Say hi", "[\"name\", \"times\"]", "Write-Host $name");
    assert_eq!(s.name, "greet");
    assert_eq!(s.description, "Say hi");
    assert_eq!(s.parameters, vec!["name".to_string(), "times".to_string()]);
    assert_eq!(s.powershell_code, "Write-Host $name");
    assert!(new_skill("x", "", "not json", "").parameters.is_empty());
    assert!(new_skill("x", "", "[1, 2]", "").parameters.is_empty());
}

#[test]
fn skill_messages() {
    assert_eq!(skill_file_name("greet"), "greet.json");
    assert_eq!(skill_saved_message("greet"), "Skill 'greet' saved.");
    assert_eq!(skill_not_found_message("nope"), "Skill 'nope' not found.");
}

#[test]
fn powershell_escaping() {
    assert_eq!(escape_for_powershell("a\"$b`"), "a`\"`$b``");
    assert_eq!(escape_for_powershell("plain"), "plain");
}

#[test]
fn skill_command_sets_parameters_first() {
    let params = vec![
        ("name".to_string(), SkillParam::Text("Bob \"B\"".to_string())),
        ("count".to_string(), SkillParam::Json("3".to_string())),
    ];
    assert_eq!(
        skill_command(&params, "Write-Host $name"),
        "$name = \"Bob `\"B`\"\";\n$count = 3;\nWrite-Host $name"
    );
    assert_eq!(skill_command(&vec![], "Get-Date"), "Get-Date");
}

#[test]
fn search_results_listing() {
    assert_eq!(search_results_text(&None), "No results found.");
    assert_eq!(search_results_text(&Some(vec![])), "No results found.");
    let hits = vec![
        SearchHit {
            title: Some("Rust".to_string()),
            url: Some("https://rust-lang.org".to_string()),
            description: Some("A language".to_string()),
        },
        SearchHit { title: None, url: None, description: None },
    ];
    assert_eq!(
        search_results_text(&Some(hits)),
        "1. Rust (https://rust-lang.org)\n   A language\n\n2. (no title) ()\n   "
    );
}

#[test]
fn page_excerpt_cuts_at_3000_chars() {
    assert_eq!(page_excerpt_of("short"), "short");
    let exact = "a".repeat(3000);
    assert_eq!(page_excerpt_of(&exact), exact);
    let long = "b".repeat(3005);
    assert_eq!(
        page_excerpt_of(&long),
        format!("{}... [truncated — 5 chars remaining]", "b".repeat(3000))
    );
}

#[test]
fn page_excerpt_counts_characters_not_bytes() {
    let accented = format!("{}a", "é".repeat(1500));
    assert_eq!(page_excerpt_of(&accented), accented);
    let long = "é".repeat(3002);
    assert_eq!(
        page_excerpt_of(&long),
        format!("{}... [truncated — 2 chars remaining]", "é".repeat(3000))
    );
}

#[test]
fn fetched_page_text_strips_then_cuts() {
    assert_eq!(fetched_page_text("<h1>Title</h1><p>Body</p>"), "Title Body");
    let html = format!("<p>{}</p>", "c".repeat(3010));
    assert_eq!(
        fetched_page_text(&html),
        format!("{}... [truncated — 10 chars remaining]", "c".repeat(3000))
    );
}

#[test]
fn typing_preview_cuts_at_40_bytes() {
    assert_eq!(typing_preview("hello"), "hello");
    let long = "x".repeat(41);
    assert_eq!(typing_preview(&long), format!("{}…", "x".repeat(40)));
    assert_eq!(typing_preview(&"y".repeat(40)), "y".repeat(40));
}

#[test]
fn skill_parameters_are_read_from_their_json_text() {
    assert_eq!(
        skill_command_for("{\"name\": \"a$b\", \"count\": 3, \"on\": true}", "Run"),
        "$count = 3;\n$name = \"a`$b\";\n$on = true;\nRun"
    );
    assert_eq!(skill_command_for("not json", "Run"), "Run");
    assert_eq!(skill_command_for("[1]", "Run"), "Run");
    assert_eq!(skill_command_for("{\"list\": [1, \"x\"]}", "Run"), "$list = [1,\"x\"];\nRun");
}
