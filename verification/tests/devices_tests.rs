use elowen_api::device_models::{DeviceRecord, DeviceTrustMetadata};
use elowen_api::devices::{
    repository_options, sanitize_device_repositories, selectable_repo_names,
    selectable_repositories,
};
use elowen_api::models::DeviceRepository;
use elowen_api::time::now;

fn sample_device() -> DeviceRecord {
    DeviceRecord {
        id: "device-1".to_string(),
        name: "Laptop".to_string(),
        primary_flag: true,
        allowed_repos: vec!["elowen-api".to_string()],
        allowed_repo_roots: vec!["D:\\Projects".to_string()],
        hidden_repos: vec!["elowen-ui".to_string()],
        excluded_repo_paths: vec!["D:\\Projects\\archive".to_string()],
        discovered_repos: vec![
            "elowen-api".to_string(),
            "elowen-ui".to_string(),
            "elowen-platform".to_string(),
        ],
        repositories: vec![
            DeviceRepository {
                name: "elowen-api".to_string(),
                branches: vec!["main".to_string()],
            },
            DeviceRepository {
                name: "elowen-ui".to_string(),
                branches: vec!["main".to_string()],
            },
            DeviceRepository {
                name: "elowen-platform".to_string(),
                branches: vec!["main".to_string()],
            },
        ],
        capabilities: vec!["codex".to_string()],
        registered_at: now(),
        last_seen_at: now(),
        last_probe: None,
        trust: DeviceTrustMetadata::default(),
        created_at: now(),
        updated_at: now(),
    }
}

#[test]
fn selectable_repo_names_hide_hidden_repositories() {
    let names = selectable_repo_names(&sample_device());

    assert_eq!(
        names,
        vec!["elowen-api".to_string(), "elowen-platform".to_string()]
    );
}

fn strings(values: &[&str]) -> Vec<String> {
    values.iter().map(|value| value.to_string()).collect()
}

fn repository(name: &str, branches: &[&str]) -> DeviceRepository {
    DeviceRepository { name: name.to_string(), branches: strings(branches) }
}

fn plain(repositories: &[DeviceRepository]) -> Vec<(String, Vec<String>)> {
    repositories.iter().map(|r| (r.name.clone(), r.branches.clone())).collect()
}

#[test]
fn sanitized_repositories_are_clean_and_stay_so() {
    let clean = sanitize_device_repositories(vec![
        repository(" b ", &["main", " dev ", "", "main"]),
        repository("a", &["x"]),
        repository("  ", &["x"]),
        repository("b", &["dev", "main"]),
        repository("a", &[]),
    ]);
    let expected = vec![
        ("a".to_string(), strings(&[])),
        ("a".to_string(), strings(&["x"])),
        ("b".to_string(), strings(&["dev", "main"])),
    ];
    assert_eq!(plain(&clean), expected);
    assert_eq!(plain(&sanitize_device_repositories(clean)), expected);
}

#[test]
fn names_without_branches_are_offered_too() {
    let mut device = sample_device();
    device.allowed_repos = strings(&["extra", " elowen-ui ", ""]);
    let offered = selectable_repositories(&device);
    assert_eq!(
        plain(&offered),
        vec![
            ("elowen-api".to_string(), strings(&[])),
            ("elowen-api".to_string(), strings(&["main"])),
            ("elowen-platform".to_string(), strings(&[])),
            ("elowen-platform".to_string(), strings(&["main"])),
            ("extra".to_string(), strings(&[])),
        ]
    );
    assert_eq!(
        selectable_repo_names(&device),
        strings(&["elowen-api", "elowen-platform", "extra"])
    );
}

#[test]
fn hidden_names_are_never_offered() {
    let mut device = sample_device();
    device.hidden_repos = strings(&["elowen-api", "elowen-platform", "elowen-ui"]);
    assert_eq!(selectable_repo_names(&device), Vec::<String>::new());
}

#[test]
fn options_count_the_offers() {
    let mut second = sample_device();
    second.hidden_repos = strings(&["elowen-api"]);
    second.allowed_repos = strings(&[]);
    second.discovered_repos = strings(&[]);
    let options: Vec<(String, usize)> = repository_options(&[sample_device(), second])
        .into_iter()
        .map(|option| (option.name, option.device_count))
        .collect();
    assert_eq!(
        options,
        vec![
            ("elowen-api".to_string(), 2),
            ("elowen-platform".to_string(), 3),
            ("elowen-ui".to_string(), 1),
        ]
    );
}
