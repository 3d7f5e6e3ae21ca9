use pup_commands::json::{str_field, Json};
use pup_commands::notebook_images::{
    image_status_attributes, image_status_path, infer_format, mime_for, normalize_format,
    put_result, put_succeeded, resolve_image_path, upload_request, upload_result, upload_target,
    FormatError, PutOutcome, UploadError,
};

fn obj(entries: Vec<(&str, Json)>) -> Json {
    Json::Object(entries.into_iter().map(|(k, v)| (k.to_string(), v)).collect())
}

#[test]
fn test_resolve_image_path_accepts_uuid_content_url_or_full_url() {
    assert_eq!(
        resolve_image_path("11111111-1111-1111-1111-111111111111"),
        "/api/v2/images/11111111-1111-1111-1111-111111111111"
    );
    assert_eq!(
        resolve_image_path("/api/v2/images/11111111-1111-1111-1111-111111111111"),
        "/api/v2/images/11111111-1111-1111-1111-111111111111"
    );
    assert_eq!(
        resolve_image_path(
            "https://api.datadoghq.com/api/v2/images/11111111-1111-1111-1111-111111111111"
        ),
        "/api/v2/images/11111111-1111-1111-1111-111111111111"
    );
}

#[test]
fn normalize_format_strips_dots_and_lowercases() {
    assert_eq!(normalize_format("..PNG").unwrap(), "png");
    assert_eq!(normalize_format("Jpeg").unwrap(), "jpeg");
    assert_eq!(normalize_format("gif").unwrap(), "gif");
    let err = normalize_format(".BMP").unwrap_err();
    assert_eq!(err, FormatError::Unsupported("bmp".to_string()));
    assert_eq!(
        err.to_string(),
        "unsupported image format \"bmp\"; supported formats: png, jpeg, jpg, gif"
    );
}

#[test]
fn infer_format_prefers_explicit_format_then_extension() {
    assert_eq!(infer_format("chart.gif", Some("png")).unwrap(), "png");
    assert_eq!(infer_format("dir/chart.JPG", None).unwrap(), "jpg");
    assert!(matches!(
        infer_format("chart", None),
        Err(FormatError::NotInferable(f)) if f == "chart"
    ));
    assert!(matches!(
        infer_format("chart.tiff", None),
        Err(FormatError::Unsupported(f)) if f == "tiff"
    ));
}

#[test]
fn mime_for_maps_each_supported_format() {
    assert_eq!(mime_for("png"), "image/png");
    assert_eq!(mime_for("jpeg"), "image/jpeg");
    assert_eq!(mime_for("jpg"), "image/jpg");
    assert_eq!(mime_for("gif"), "image/gif");
}

#[test]
fn upload_target_reads_url_and_uuid() {
    let created = obj(vec![(
        "data",
        obj(vec![(
            "attributes",
            obj(vec![
                ("upload_url", Json::Str("https://storage/put".to_string())),
                ("img_uuid", Json::Str("abc".to_string())),
            ]),
        )]),
    )]);
    assert_eq!(
        upload_target(&created, "{}").unwrap(),
        ("https://storage/put".to_string(), "abc".to_string())
    );
    let err = upload_target(&obj(vec![]), "{}").unwrap_err();
    assert_eq!(err.to_string(), "unexpected image upload response: {}");
    let no_url = obj(vec![("data", obj(vec![("attributes", obj(vec![]))]))]);
    assert_eq!(upload_target(&no_url, "").unwrap_err(), UploadError::MissingUploadUrl);
    let no_id = obj(vec![(
        "data",
        obj(vec![("attributes", obj(vec![("upload_url", Json::Str("u".to_string()))]))]),
    )]);
    assert_eq!(
        upload_target(&no_id, "").unwrap_err().to_string(),
        "image upload response missing img_uuid"
    );
}

#[test]
fn upload_requests_and_result() {
    assert_eq!(str_field(&upload_request("png"), "img_format"), Some("png".to_string()));
    assert_eq!(image_status_path("abc"), "/api/ui/image_status/abc");
    assert_eq!(str_field(&image_status_attributes(true), "status"), Some("success".to_string()));
    assert_eq!(str_field(&image_status_attributes(false), "status"), Some("failure".to_string()));
    let result = upload_result("abc", "jpeg");
    assert_eq!(str_field(&result, "content_url"), Some("/api/v2/images/abc".to_string()));
    assert_eq!(str_field(&result, "img_format"), Some("jpeg".to_string()));
}

#[test]
fn storage_answers() {
    let ok = PutOutcome::Response { success: true, status: "200 OK".to_string(), body: String::new() };
    assert!(put_succeeded(&ok));
    assert_eq!(put_result(ok), Ok(()));
    let denied = PutOutcome::Response {
        success: false,
        status: "403 Forbidden".to_string(),
        body: "SignatureDoesNotMatch".to_string(),
    };
    assert!(!put_succeeded(&denied));
    assert_eq!(
        put_result(denied).unwrap_err().to_string(),
        "uploading image bytes failed (HTTP 403 Forbidden): SignatureDoesNotMatch"
    );
    let failed = PutOutcome::Failed("connection reset".to_string());
    assert!(!put_succeeded(&failed));
    assert_eq!(put_result(failed).unwrap_err().to_string(), "uploading image bytes failed: connection reset");
}

#[test]
fn infer_format_reads_the_file_name_extension() {
    assert_eq!(infer_format("a.PNG", None).unwrap(), "png");
    assert_eq!(
        infer_format("notes.txt", None).unwrap_err().to_string(),
        "unsupported image format \"txt\"; supported formats: png, jpeg, jpg, gif"
    );
    assert_eq!(infer_format("shots/v1.2/chart.gif", None).unwrap(), "gif");
    assert_eq!(
        infer_format("say \"hi\"", None).unwrap_err().to_string(),
        "could not infer image format from \"say \\\"hi\\\"\"; pass --format explicitly"
    );
}
