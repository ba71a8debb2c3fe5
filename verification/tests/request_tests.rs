use fileid_store::fileid::dispatch;
use fileid_store::request::{read_plan, storage_dir, write_path, FileIdError, ReadPlan};

fn serve(path: &str, length: usize) -> Result<ReadPlan, FileIdError> {
    Ok(ReadPlan::Serve { path: path.to_string(), length })
}

fn same(a: Result<ReadPlan, FileIdError>, b: Result<ReadPlan, FileIdError>) -> bool {
    match (a, b) {
        (Ok(ReadPlan::Serve { path: p, length: l }), Ok(ReadPlan::Serve { path: q, length: m })) => {
            p == q && l == m
        }
        (Ok(ReadPlan::Reject), Ok(ReadPlan::Reject)) => true,
        (Err(e), Err(f)) => e == f,
        _ => false,
    }
}

#[test]
fn read_plan_serves_an_issued_id() {
    let a = dispatch([0, 0, 0, 70], 3);
    assert_eq!(a.fid, "fileid/70/3/12276111653151681929");
    assert!(same(read_plan(&a.fid), serve("data/6/12276111653151681929", 3)));
}

#[test]
fn read_plan_keeps_the_extension_in_the_name() {
    assert!(same(
        read_plan("fileid/70/3/12276111653151681929.png"),
        serve("data/6/12276111653151681929.png", 3)
    ));
}

#[test]
fn read_plan_negative_number_bucket() {
    assert!(same(read_plan("fileid/-5/2/2575200662169635207"), serve("data/-5/2575200662169635207", 2)));
}

#[test]
fn read_plan_rejects_a_wrong_digest() {
    assert!(same(read_plan("fileid/70/3/12276111653151681928"), Ok(ReadPlan::Reject)));
    assert!(same(read_plan("fileid/70/4/12276111653151681929"), Ok(ReadPlan::Reject)));
}

#[test]
fn read_plan_errors() {
    assert!(same(read_plan("fileid"), Err(FileIdError::MissingField)));
    assert!(same(read_plan("fileid/x/3/1"), Err(FileIdError::BadIndex)));
    assert!(same(read_plan("fileid/70"), Err(FileIdError::MissingField)));
    assert!(same(read_plan("fileid/70/-3/1"), Err(FileIdError::BadLength)));
    assert!(same(read_plan("fileid/70/3"), Err(FileIdError::MissingField)));
}

#[test]
fn write_path_of_an_issued_id() {
    let a = dispatch([0, 0, 0, 70], 3);
    assert_eq!(write_path(&a.fid), Ok("data//6/12276111653151681929".to_string()));
}

#[test]
fn write_path_errors() {
    assert_eq!(write_path("fileid"), Err(FileIdError::MissingField));
    assert_eq!(write_path("fileid/-5/2/1"), Err(FileIdError::BadIndex));
    assert_eq!(write_path("fileid/5/2"), Err(FileIdError::MissingField));
    assert_eq!(write_path("fileid/5/zz/name"), Ok("data//5/name".to_string()));
}

#[test]
fn storage_dirs() {
    assert_eq!(storage_dir(0), "data/0");
    assert_eq!(storage_dir(63), "data/63");
}
