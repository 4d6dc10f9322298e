use rustfaas::error::ErrorKind;
use rustfaas::multipart::{
    boundary_of, decode, decode_parts, eq_ignoring_case, read_headers, select_file, FilePart,
    Header, MultipartPart,
};

fn header(name: &[u8], value: &[u8]) -> Header {
    Header { name: name.to_vec(), value: value.to_vec() }
}

#[test]
fn boundary_is_read_from_content_type() {
    assert_eq!(boundary_of(b"multipart/form-data; boundary=abc123"), Ok(b"abc123".to_vec()));
}

#[test]
fn quoted_boundary_loses_its_quotes() {
    assert_eq!(
        boundary_of(b"multipart/form-data; boundary=\"a b;c\"; charset=utf-8"),
        Ok(b"a b;c".to_vec())
    );
}

#[test]
fn unquoted_boundary_ends_at_semicolon() {
    assert_eq!(
        boundary_of(b"multipart/form-data; boundary=xyz; charset=utf-8"),
        Ok(b"xyz".to_vec())
    );
}

#[test]
fn other_content_type_is_malformed() {
    assert_eq!(boundary_of(b"application/json"), Err(ErrorKind::MalformedContentType));
    assert_eq!(boundary_of(b"text/plain; boundary=abc"), Err(ErrorKind::MalformedContentType));
    assert_eq!(boundary_of(b""), Err(ErrorKind::MalformedContentType));
}

#[test]
fn missing_boundary_is_malformed() {
    assert_eq!(boundary_of(b"multipart/form-data"), Err(ErrorKind::MalformedContentType));
    assert_eq!(
        boundary_of(b"multipart/form-data; charset=utf-8"),
        Err(ErrorKind::MalformedContentType)
    );
}

#[test]
fn empty_or_unclosed_boundary_is_malformed() {
    assert_eq!(boundary_of(b"multipart/form-data; boundary="), Err(ErrorKind::MalformedContentType));
    assert_eq!(
        boundary_of(b"multipart/form-data; boundary=\"\""),
        Err(ErrorKind::MalformedContentType)
    );
    assert_eq!(
        boundary_of(b"multipart/form-data; boundary=\"abc"),
        Err(ErrorKind::MalformedContentType)
    );
}

#[test]
fn headers_are_split_at_first_colon() {
    let headers = read_headers(b"Content-Disposition: form-data; name=\"f\"\r\nX-Time:12:30\r\nBare");
    assert_eq!(
        headers,
        vec![
            header(b"Content-Disposition", b"form-data; name=\"f\""),
            header(b"X-Time", b"12:30"),
            header(b"Bare", b""),
        ]
    );
}

#[test]
fn header_value_loses_leading_blanks_only() {
    let headers = read_headers(b"A: \t  b c \r\n");
    assert_eq!(headers, vec![header(b"A", b"b c ")]);
}

#[test]
fn empty_header_block_has_no_headers() {
    assert_eq!(read_headers(b""), Vec::<Header>::new());
}

#[test]
fn single_file_part_is_decoded() {
    let body = b"--B\r\nContent-Disposition: form-data; name=\"file\"; filename=\"sum.so\"\r\nContent-Type: application/octet-stream\r\n\r\nDATA\r\n--B--\r\n";
    let parts = decode_parts(b"B", body);
    assert_eq!(
        parts,
        vec![MultipartPart {
            headers: vec![
                header(b"Content-Disposition", b"form-data; name=\"file\"; filename=\"sum.so\""),
                header(b"Content-Type", b"application/octet-stream"),
            ],
            body: b"DATA".to_vec(),
        }]
    );
}

#[test]
fn parts_keep_their_order() {
    let body = b"preamble\r\n--B\r\nA: 1\r\n\r\none\r\n--B\r\nA: 2\r\n\r\ntwo\r\n--B\r\n\r\nthree\r\n--B--epilogue";
    let parts = decode_parts(b"B", body);
    assert_eq!(parts.len(), 3);
    assert_eq!(parts[0].body, b"one".to_vec());
    assert_eq!(parts[0].headers, vec![header(b"A", b"1")]);
    assert_eq!(parts[1].body, b"two".to_vec());
    assert_eq!(parts[2].headers, Vec::<Header>::new());
    assert_eq!(parts[2].body, b"three".to_vec());
}

#[test]
fn binary_content_is_kept_byte_for_byte() {
    let mut content: Vec<u8> = Vec::new();
    content.extend_from_slice(b"\x7fELF\n\n--\r\n\r\n-B--B\r--B");
    content.extend_from_slice(&[0u8, 255u8, 10u8, 13u8, 10u8, 45u8, 45u8]);
    content.extend_from_slice(b"filename=\"x\"\n--Bx");
    let mut body: Vec<u8> = Vec::new();
    body.extend_from_slice(b"--B\r\nContent-Disposition: form-data; filename=\"f.so\"\r\n\r\n");
    body.extend_from_slice(&content);
    body.extend_from_slice(b"\r\n--B--\r\n");
    let parts = decode_parts(b"B", &body);
    assert_eq!(parts.len(), 1);
    assert_eq!(parts[0].body, content);
}

#[test]
fn trailing_part_without_closing_marker_is_kept() {
    let body = b"--B\r\nA: 1\r\n\r\none\r\n--B\r\nA: 2\r\n\r\ntwo";
    let parts = decode_parts(b"B", body);
    assert_eq!(parts.len(), 2);
    assert_eq!(parts[1].headers, vec![header(b"A", b"2")]);
    assert_eq!(parts[1].body, b"two".to_vec());
}

#[test]
fn body_without_marker_has_no_parts() {
    assert_eq!(decode_parts(b"B", b"no marker here"), Vec::<MultipartPart>::new());
    assert_eq!(decode_parts(b"B", b""), Vec::<MultipartPart>::new());
}

#[test]
fn closing_marker_alone_has_no_parts() {
    assert_eq!(decode_parts(b"B", b"--B--\r\n"), Vec::<MultipartPart>::new());
}

#[test]
fn segment_without_blank_line_has_no_content() {
    let parts = decode_parts(b"B", b"--B\r\nA: 1\r\n--B--");
    assert_eq!(parts, vec![MultipartPart { headers: vec![header(b"A", b"1")], body: Vec::new() }]);
}

#[test]
fn decode_reads_boundary_from_content_type() {
    let body = b"--xyz\r\nA: 1\r\n\r\npayload\r\n--xyz--";
    let parts = decode(b"multipart/form-data; boundary=xyz", body).unwrap();
    assert_eq!(parts.len(), 1);
    assert_eq!(parts[0].body, b"payload".to_vec());
}

#[test]
fn decode_without_boundary_is_malformed_content_type() {
    assert_eq!(decode(b"multipart/form-data", b"--xyz\r\n\r\nx"), Err(ErrorKind::MalformedContentType));
    assert_eq!(decode(b"text/plain", b""), Err(ErrorKind::MalformedContentType));
}

#[test]
fn header_names_match_without_regard_to_case() {
    assert!(eq_ignoring_case(b"Content-Disposition", b"content-disposition"));
    assert!(eq_ignoring_case(b"CONTENT-DISPOSITION", b"content-disposition"));
    assert!(!eq_ignoring_case(b"Content-Dispositio", b"content-disposition"));
    assert!(!eq_ignoring_case(b"Content_Disposition", b"content-disposition"));
    assert!(eq_ignoring_case(b"", b""));
}

#[test]
fn first_part_with_filename_is_selected() {
    let parts = vec![
        MultipartPart {
            headers: vec![header(b"Content-Disposition", b"form-data; name=\"note\"")],
            body: b"hello".to_vec(),
        },
        MultipartPart {
            headers: vec![header(b"content-disposition", b"form-data; name=\"f\"; filename=\"sum.so\"")],
            body: b"CODE".to_vec(),
        },
        MultipartPart {
            headers: vec![header(b"Content-Disposition", b"form-data; filename=\"other.so\"")],
            body: b"OTHER".to_vec(),
        },
    ];
    assert_eq!(
        select_file(&parts),
        Ok(FilePart { filename: b"sum.so".to_vec(), bytes: b"CODE".to_vec() })
    );
}

#[test]
fn no_parts_is_no_file_part() {
    assert_eq!(select_file(&[]), Err(ErrorKind::NoFilePart));
}

#[test]
fn part_without_disposition_is_no_file_part() {
    let parts = vec![MultipartPart {
        headers: vec![header(b"Content-Type", b"text/plain; filename=\"x.so\"")],
        body: b"x".to_vec(),
    }];
    assert_eq!(select_file(&parts), Err(ErrorKind::NoFilePart));
}

#[test]
fn disposition_other_than_form_data_is_no_file_part() {
    let parts = vec![MultipartPart {
        headers: vec![header(b"Content-Disposition", b"attachment; filename=\"x.so\"")],
        body: b"x".to_vec(),
    }];
    assert_eq!(select_file(&parts), Err(ErrorKind::NoFilePart));
}

#[test]
fn form_data_without_filename_is_missing_filename() {
    let parts = vec![MultipartPart {
        headers: vec![header(b"Content-Disposition", b"form-data; name=\"f\"")],
        body: b"x".to_vec(),
    }];
    assert_eq!(select_file(&parts), Err(ErrorKind::MissingFilename));
}

#[test]
fn unclosed_filename_is_missing_filename() {
    let parts = vec![MultipartPart {
        headers: vec![header(b"Content-Disposition", b"form-data; filename=\"x.so")],
        body: b"x".to_vec(),
    }];
    assert_eq!(select_file(&parts), Err(ErrorKind::MissingFilename));
}

#[test]
fn empty_file_content_is_selected_with_its_name() {
    let parts = decode_parts(b"B", b"--B\r\nContent-Disposition: form-data; filename=\"e.so\"\r\n\r\n\r\n--B--");
    assert_eq!(select_file(&parts), Ok(FilePart { filename: b"e.so".to_vec(), bytes: Vec::new() }));
}
