use fileid_store::transfer::{classify_request, download_step, upload_step, ClientRequest};

#[test]
fn request_kinds() {
    assert_eq!(classify_request([0, 0, 1, 0], 0), ClientRequest::Upload { length: 256 });
    assert_eq!(classify_request([0, 0, 1, 0], 1), ClientRequest::Download);
    assert_eq!(classify_request([0xff, 0xff, 0xff, 0xff], 0), ClientRequest::Upload { length: -1 });
    assert_eq!(classify_request([0, 0, 0, 0], 7), ClientRequest::Download);
}

#[test]
fn download_steps() {
    assert_eq!(download_step(10, 4), (4, Some(6)));
    assert_eq!(download_step(4, 4), (4, Some(0)));
    assert_eq!(download_step(3, 5), (3, None));
    assert_eq!(download_step(3, 0), (0, Some(3)));
}

#[test]
fn upload_steps() {
    assert_eq!(upload_step(100, 30), Some(70));
    assert_eq!(upload_step(10, 30), Some(-20));
    assert_eq!(upload_step(i32::MIN, 1), None);
    assert_eq!(upload_step(5, 0x1_0000_0005), Some(0));
}
