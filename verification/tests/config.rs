use gt_tool::config::{
    default_paths, get_config, get_maybe_property, get_property, get_table, Error, PartialConfig,
    Result,
};
use toml::Value;

const SAMPLE_CONFIG: &str = "[all]
gitea_url = \"https://demo.gitea.com/\"
owner = \"robert\"
# no `repo = ` section because that must be project specific.
token = \"fake-token\"

# Override Gitea target so I can test my uploads privately.
[\"/home/robert/projects/gt-tool\"]
gitea_url = \"http://localhost:3000\"
repo = \"gt-tool\"
";

fn text(s: &str) -> String {
    String::from(s)
}

fn some(s: &str) -> Option<String> {
    Some(String::from(s))
}

fn empty_config() -> PartialConfig {
    PartialConfig { project_path: None, gitea_url: None, owner: None, repo: None, token: None }
}

#[test]
fn read_single_prop() -> Result<()> {
    let fx_input_str = "owner = \"dingus\"";
    let fx_value = fx_input_str.parse::<Value>()?;
    let fx_value = fx_value.as_table().ok_or(Error::NoSuchTable)?;
    let expected = "dingus";

    let res = get_property(&fx_value, &String::from("owner"))?;
    assert_eq!(res, expected);
    Ok(())
}

// The property is given the value of empty-string `""`
#[test]
fn read_single_prop_empty_quotes() -> Result<()> {
    let fx_input_str = "owner = \"\"";
    let fx_value = fx_input_str.parse::<Value>()?;
    let fx_value = fx_value.as_table().ok_or(Error::NoSuchTable)?;
    let expected = "";

    let res = get_property(&fx_value, &String::from("owner"))?;
    assert_eq!(res, expected);
    Ok(())
}

#[test]
fn read_table() -> Result<()> {
    let fx_input_str = "[tab]\nwith_a_garbage = \"value\"";
    let fx_value = fx_input_str.parse::<Value>()?;
    let fx_value = fx_value.as_table().ok_or(Error::BadFormat)?;
    let mut expected: toml::map::Map<String, Value> = toml::map::Map::new();
    expected.insert(
        String::from("with_a_garbage"),
        Value::String(String::from("value")),
    );

    let res = get_table(&fx_value, &String::from("tab"))?;
    assert_eq!(res, &expected);
    Ok(())
}

#[test]
fn check_get_config() -> Result<()> {
    let search_texts = vec![String::from(SAMPLE_CONFIG)];
    let load_result = get_config("/home/robert/projects/gt-tool", &search_texts)?;
    let expected = PartialConfig {
        project_path: Some(String::from("/home/robert/projects/gt-tool")),
        owner: Some(String::from("robert")),
        repo: Some(String::from("gt-tool")),
        gitea_url: Some(String::from("http://localhost:3000")),
        token: Some(String::from("fake-token")),
    };

    assert_eq!(load_result, expected);
    Ok(())
}

#[test]
fn property_errors_tell_missing_from_malformed() {
    let table = "owner = 7\n[sub]\nx = \"y\"".parse::<toml::Table>().unwrap();
    assert!(matches!(get_property(&table, "repo"), Err(Error::NoSuchProperty)));
    assert!(matches!(get_property(&table, "owner"), Err(Error::BadFormat)));
    assert!(matches!(get_property(&table, "sub"), Err(Error::BadFormat)));
}

#[test]
fn maybe_property_tolerates_absence_only() {
    let table = "owner = \"o\"\nrepo = [1, 2]".parse::<toml::Table>().unwrap();
    assert_eq!(get_maybe_property(&table, "owner").unwrap(), Some(&String::from("o")));
    assert_eq!(get_maybe_property(&table, "token").unwrap(), None);
    assert!(matches!(get_maybe_property(&table, "repo"), Err(Error::BadFormat)));
}

#[test]
fn table_errors_tell_missing_from_malformed() {
    let table = "name = \"x\"\n[tab]\n".parse::<toml::Table>().unwrap();
    assert!(matches!(get_table(&table, "other"), Err(Error::NoSuchTable)));
    assert!(matches!(get_table(&table, "name"), Err(Error::BadFormat)));
    assert!(get_table(&table, "tab").unwrap().is_empty());
}

#[test]
fn try_from_reads_the_four_settings() {
    let table = "gitea_url = \"u\"\nowner = \"o\"\nextra = 3\n".parse::<toml::Table>().unwrap();
    let config = PartialConfig::try_from(&table).unwrap();
    assert_eq!(
        config,
        PartialConfig { project_path: None, gitea_url: some("u"), owner: some("o"), repo: None, token: None }
    );
    let bad = "token = false".parse::<toml::Table>().unwrap();
    assert!(matches!(PartialConfig::try_from(&bad), Err(Error::BadFormat)));
}

#[test]
fn merge_prefers_the_right_hand_side() {
    let left = PartialConfig {
        project_path: some("p"),
        gitea_url: some("left-url"),
        owner: some("left-owner"),
        repo: None,
        token: None,
    };
    let right = PartialConfig {
        project_path: None,
        gitea_url: some("right-url"),
        owner: None,
        repo: some("right-repo"),
        token: None,
    };
    let merged = left.merge(right);
    assert_eq!(
        merged,
        PartialConfig {
            project_path: some("p"),
            gitea_url: some("right-url"),
            owner: some("left-owner"),
            repo: some("right-repo"),
            token: None,
        }
    );
}

#[test]
fn merge_laws_on_values() {
    let a = PartialConfig { project_path: None, gitea_url: some("a"), owner: None, repo: some("ra"), token: None };
    let b = PartialConfig { project_path: None, gitea_url: None, owner: some("b"), repo: some("rb"), token: None };
    let c = PartialConfig { project_path: some("c"), gitea_url: some("c"), owner: None, repo: None, token: None };
    let copy = |x: &PartialConfig| PartialConfig {
        project_path: x.project_path.clone(),
        gitea_url: x.gitea_url.clone(),
        owner: x.owner.clone(),
        repo: x.repo.clone(),
        token: x.token.clone(),
    };
    let left = copy(&a).merge(copy(&b)).merge(copy(&c));
    let right = copy(&a).merge(copy(&b).merge(copy(&c)));
    assert_eq!(left, right);
    assert_eq!(PartialConfig::default().merge(copy(&a)), copy(&a));
    assert_eq!(copy(&a).merge(PartialConfig::default()), copy(&a));
    assert_eq!(copy(&a).merge(copy(&a)), a);
}

#[test]
fn project_path_sets_only_the_path() {
    let config = empty_config().project_path("/srv/project");
    assert_eq!(config, PartialConfig { project_path: some("/srv/project"), ..empty_config() });
}

#[test]
fn default_config_is_empty() {
    assert_eq!(PartialConfig::default(), empty_config());
}

#[test]
fn earlier_files_are_preferred() {
    let user = text("[\"/p\"]\nowner = \"user\"\n");
    let machine = text("[all]\nowner = \"machine\"\ngitea_url = \"http://machine\"\n");
    let config = get_config("/p", &vec![user, machine]).unwrap();
    assert_eq!(config.owner, some("user"));
    assert_eq!(config.gitea_url, some("http://machine"));
    assert_eq!(config.project_path, some("/p"));
}

#[test]
fn unusable_files_are_skipped() {
    let broken = text("this is = = not toml");
    let malformed = text("[\"/p\"]\nowner = 5\n");
    let good = text("[\"/p\"]\nrepo = \"r\"\n");
    let config = get_config("/p", &vec![broken, malformed, good]).unwrap();
    assert_eq!(config, PartialConfig { project_path: some("/p"), repo: some("r"), ..empty_config() });
}

#[test]
fn tables_of_other_projects_and_unknown_keys_are_ignored() {
    let file = text("[\"/q\"]\nowner = \"q\"\n[\"/p\"]\nowner = \"p\"\ncolour = \"blue\"\n");
    let config = get_config("/p", &vec![file]).unwrap();
    assert_eq!(config, PartialConfig { project_path: some("/p"), owner: some("p"), ..empty_config() });
}

#[test]
fn only_all_table_applies_to_every_project() {
    let file = text("[all]\ntoken = \"t\"\n");
    let config = get_config("/anything", &vec![file]).unwrap();
    assert_eq!(config, PartialConfig { token: some("t"), ..empty_config() });
}

#[test]
fn a_project_entry_that_is_not_a_table_spoils_the_file() {
    let file = text("\"/p\" = \"oops\"\n[all]\nowner = \"o\"\n");
    assert_eq!(get_config("/p", &vec![file]).unwrap(), empty_config());
}

#[test]
fn no_files_give_nothing() {
    assert_eq!(get_config("/p", &vec![]).unwrap(), empty_config());
}

#[test]
fn default_paths_follow_xdg_then_etc() {
    assert_eq!(
        default_paths("/home/u/.config:/etc/xdg/"),
        vec![
            text("/home/u/.config/gt-tool.toml"),
            text("/etc/xdg/gt-tool.toml"),
            text("/etc/gt-tool.toml"),
        ]
    );
}

#[test]
fn default_paths_without_xdg() {
    assert_eq!(default_paths(""), vec![text("/etc/gt-tool.toml")]);
    assert_eq!(
        default_paths("a::b"),
        vec![text("a/gt-tool.toml"), text("b/gt-tool.toml"), text("/etc/gt-tool.toml")]
    );
    assert_eq!(default_paths(":"), vec![text("/etc/gt-tool.toml")]);
}

#[test]
fn toml_errors_convert_into_config_errors() {
    let err = "= broken".parse::<toml::Table>().unwrap_err();
    assert!(matches!(Error::from(err), Error::TomlWrap(_)));
}
