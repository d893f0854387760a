use bodyfile::Bodyfile3Line;
use es4forensics::{PosixFile, TimeZone};
use serde_json::Value;

fn posix_file_from_line(line: &str) -> PosixFile {
    let bf = Bodyfile3Line::try_from(line).unwrap();
    PosixFile::try_from_values(
        bf.get_name().to_string(),
        bf.get_inode().to_string(),
        bf.get_uid(),
        bf.get_gid(),
        bf.get_size(),
        bf.get_atime(),
        bf.get_mtime(),
        bf.get_ctime(),
        bf.get_crtime(),
        &TimeZone::utc(),
    )
    .unwrap()
}

#[test]
pub fn test_bodyfile_single() {
    let str_line = "0|/Users/Administrator ($FILE_NAME)|93552-48-2|d/drwxrwxrwx|0|0|92|1577092511|1577092511|1577092511|-1";
    let pfile = posix_file_from_line(str_line);
    let values: Vec<Value> = pfile
        .documents()
        .iter()
        .map(|(_, d)| serde_json::from_slice(&d.to_bytes()).unwrap())
        .collect();
    let actual = Value::Array(values);
    let expected: Value = serde_json::from_str(
        r#"[{
        "@timestamp":1577092511000,
        "ecs":{"version":"8.4"},
        "message": "/Users/Administrator ($FILE_NAME)",
        "tags": ["bodyfile"],
        "file":{
            "accessed":1577092511000,
            "ctime":1577092511000,
            "gid":0,
            "inode":"93552-48-2",
            "mtime":1577092511000,
            "path":"/Users/Administrator ($FILE_NAME)",
            "name":"Administrator ($FILE_NAME)",
            "directory":"/Users",
            "mode": "",
            "size":92,
            "uid":0,
            "macb_long": ["modified", "accessed", "changed"],
            "macb_short": "mac."
        }
    }]"#,
    )
    .unwrap();
    assert_eq!(actual, expected);
}

#[test]
fn bodyfile_document_bytes_are_canonical() {
    let str_line = "0|/Users/Administrator ($FILE_NAME)|93552-48-2|d/drwxrwxrwx|0|0|92|1577092511|1577092511|1577092511|-1";
    let pfile = posix_file_from_line(str_line);
    let docs = pfile.documents();
    assert_eq!(docs.len(), 1);
    let text = String::from_utf8(docs[0].1.to_bytes()).unwrap();
    assert_eq!(
        text,
        "{\"@timestamp\":1577092511000,\"ecs\":{\"version\":\"8.4\"},\"file\":{\"accessed\":1577092511000,\
\"ctime\":1577092511000,\"directory\":\"/Users\",\"gid\":0,\"inode\":\"93552-48-2\",\
\"macb_long\":[\"modified\",\"accessed\",\"changed\"],\"macb_short\":\"mac.\",\"mode\":\"\",\
\"mtime\":1577092511000,\"name\":\"Administrator ($FILE_NAME)\",\
\"path\":\"/Users/Administrator ($FILE_NAME)\",\"size\":92,\"uid\":0},\
\"message\":\"/Users/Administrator ($FILE_NAME)\",\"tags\":[\"bodyfile\"]}"
    );
    // the same bytes as serde_json writes for the parsed value
    let parsed: Value = serde_json::from_str(&text).unwrap();
    assert_eq!(serde_json::to_string(&parsed).unwrap(), text);
}

#[test]
fn shared_instant_collapses_into_one_document() {
    let line = "0|/etc/passwd|12|r/rrw-r--r--|0|0|100|1577092511|1577092512|1577092513|1577092511";
    let pfile = posix_file_from_line(line);
    let docs = pfile.documents();
    assert_eq!(docs.len(), 3);
    let shared = docs.iter().find(|(t, _)| t.timestamp_millis() == 1577092511000).unwrap();
    let v: Value = serde_json::from_slice(&shared.1.to_bytes()).unwrap();
    assert_eq!(v["file"]["macb_short"], Value::String(".a.b".to_string()));
    let long: Vec<&str> = v["file"]["macb_long"].as_array().unwrap().iter().map(|x| x.as_str().unwrap()).collect();
    assert_eq!(long, vec!["accessed", "born"]);
    let times: Vec<i64> = docs.iter().map(|(t, _)| t.timestamp_millis()).collect();
    // M, A, C, B order of first appearance: mtime is 1577092512
    assert_eq!(times, vec![1577092512000, 1577092511000, 1577092513000]);
}

#[test]
fn all_times_absent_gives_no_document() {
    let pfile = posix_file_from_line("0|/x|1|r|0|0|0|-1|-1|-1|-1");
    assert_eq!(pfile.documents().len(), 0);
}

#[test]
fn documents_are_reproducible_with_equal_identifiers() {
    let line = "0|/tmp/a.txt|7|r|1|2|3|1600000000|1600000001|1600000002|1600000003";
    let first = posix_file_from_line(line);
    let second = posix_file_from_line(line);
    let ids = |p: &PosixFile| -> Vec<String> {
        p.documents()
            .iter()
            .map(|(_, d)| es4forensics::ContentDocument::new(d).id().to_string())
            .collect()
    };
    let a = ids(&first);
    assert_eq!(a.len(), 4);
    assert_eq!(a, ids(&second));
    assert_eq!(a, ids(&first));
}

#[test]
fn extension_comes_from_the_last_component() {
    let pfile = posix_file_from_line("0|/tmp/a.txt|7|r|1|2|3|1600000000|-1|-1|-1");
    let docs = pfile.documents();
    let v: Value = serde_json::from_slice(&docs[0].1.to_bytes()).unwrap();
    assert_eq!(v["file"]["extension"], Value::String("txt".to_string()));
    assert_eq!(v["file"]["name"], Value::String("a.txt".to_string()));
    assert_eq!(v["file"]["directory"], Value::String("/tmp".to_string()));
    assert_eq!(v["@timestamp"], Value::from(1600000000000i64));
    assert_eq!(v["file"]["macb_short"], Value::String(".a..".to_string()));
}
