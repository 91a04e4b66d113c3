use repo_info::{
    accept_header_value, fetch_error_message, info_url, languages_url, user_agent_value,
    LangStat, Repository, RepositoryInfo,
};

fn sample_info() -> RepositoryInfo {
    RepositoryInfo {
        name: String::from("repo"),
        full_name: String::from("owner/repo"),
        description: Some(String::from("A tool")),
        language: Some(String::from("Rust")),
        stargazers_count: 42,
        size: 1024,
        forks: 3,
        open_issues: 7,
        default_branch: String::from("main"),
        updated_at: String::from("2024-01-02T03:04:05Z"),
        html_url: String::from("https://github.com/owner/repo"),
    }
}

#[test]
fn request_urls() {
    assert_eq!(
        info_url("owner/repo"),
        "https://api.github.com/repos/owner/repo"
    );
    assert_eq!(
        languages_url("owner/repo"),
        "https://api.github.com/repos/owner/repo/languages"
    );
}

#[test]
fn request_headers() {
    assert_eq!(accept_header_value(), "application/vnd.github+json");
    assert_eq!(user_agent_value(), "silentdusk_repo_info");
}

#[test]
fn fetch_failure_message() {
    assert_eq!(
        fetch_error_message("connection refused"),
        "Sorry, Can't find what you are looking for.\nError : connection refused"
    );
}

#[test]
fn info_block_lines() {
    let info = sample_info();
    let lines = info.info_lines(20);
    assert_eq!(lines.len(), 11);
    assert_eq!(lines[0], format!("repo{}", " ".repeat(16)));
    assert_eq!(lines[1], "Full Name: owner/repo");
    assert_eq!(lines[2], "Description: A tool");
    assert_eq!(lines[3], "Language: Rust");
    assert_eq!(lines[4], "Default branch: main");
    assert_eq!(lines[5], "Stars: 42");
    assert_eq!(lines[6], "Size: 1024");
    assert_eq!(lines[7], "Forks: 3");
    assert_eq!(lines[8], "Open issues: 7");
    assert_eq!(lines[9], "Last updated: 2024-01-02T03:04:05Z");
    assert_eq!(lines[10], "Link: https://github.com/owner/repo");
}

#[test]
fn absent_optional_fields_render_empty() {
    let mut info = sample_info();
    info.description = None;
    info.language = None;
    let lines = info.info_lines(4);
    assert_eq!(lines[0], "repo");
    assert_eq!(lines[2], "Description: ");
    assert_eq!(lines[3], "Language: ");
}

#[test]
fn repository_pairs_info_and_languages() {
    let repo = Repository::from(
        sample_info(),
        vec![LangStat { name: String::from("Rust"), bytes: 300 }],
    );
    assert_eq!(repo.info.name, "repo");
    assert_eq!(repo.languages.len(), 1);
    assert_eq!(repo.languages[0].name, "Rust");
    assert_eq!(repo.languages[0].bytes, 300);
}
