//! Payslips that are locked with a password.

use lopdf::{Dictionary, Document, Object, Stream, StringFormat};
use shaon::payslip::{payslip_lock_settings, seal_pdf, unseal_pdf, PdfError};

fn dictionary(pairs: Vec<(&str, Object)>) -> Dictionary {
    let mut dictionary = Dictionary::new();
    for (key, value) in pairs {
        dictionary.set(key, value);
    }
    dictionary
}

fn name(text: &str) -> Object {
    Object::Name(text.as_bytes().to_vec())
}

fn sample_pdf_bytes() -> Vec<u8> {
    let mut doc = Document::with_version("1.5");
    let id1 = vec![1_u8, 2, 3, 4, 5, 6, 7, 8, 9, 10, 11, 12, 13, 14, 15, 16];
    let id2 = vec![16_u8, 15, 14, 13, 12, 11, 10, 9, 8, 7, 6, 5, 4, 3, 2, 1];
    doc.trailer.set(
        "ID",
        Object::Array(vec![
            Object::String(id1, StringFormat::Literal),
            Object::String(id2, StringFormat::Literal),
        ]),
    );

    let pages_id = doc.new_object_id();
    let page_id = doc.new_object_id();
    let content_id = doc.new_object_id();

    let catalog_id = doc.add_object(Object::Dictionary(dictionary(vec![
        ("Type", name("Catalog")),
        ("Pages", Object::Reference(pages_id)),
    ])));
    doc.trailer.set("Root", Object::Reference(catalog_id));

    doc.objects.insert(
        pages_id,
        Object::Dictionary(dictionary(vec![
            ("Type", name("Pages")),
            ("Kids", Object::Array(vec![Object::Reference(page_id)])),
            ("Count", Object::Integer(1)),
        ])),
    );

    doc.objects.insert(
        page_id,
        Object::Dictionary(dictionary(vec![
            ("Type", name("Page")),
            ("Parent", Object::Reference(pages_id)),
            (
                "MediaBox",
                Object::Array(vec![
                    Object::Integer(0),
                    Object::Integer(0),
                    Object::Integer(612),
                    Object::Integer(792),
                ]),
            ),
            ("Contents", Object::Reference(content_id)),
        ])),
    );

    let content = b"BT\n/F1 12 Tf\n100 700 Td\n(Protected Payslip) Tj\nET\n";
    doc.objects.insert(
        content_id,
        Object::Stream(Stream::new(Dictionary::new(), content.to_vec())),
    );

    let mut out = Vec::new();
    doc.save_to(&mut out).unwrap();
    out
}

#[test]
fn seal_and_unseal_pdf_roundtrip() {
    let original = sample_pdf_bytes();
    let sealed = seal_pdf(&original, "s3cret").unwrap();

    assert_ne!(sealed, original);
    let sealed_text = String::from_utf8_lossy(&sealed);
    assert!(sealed_text.contains("/V 4"), "sealed PDF should use /V 4");

    let unsealed = unseal_pdf(&sealed, "s3cret").unwrap();
    let doc = Document::load_mem(&unsealed).unwrap();
    assert_eq!(doc.get_pages().len(), 1);
}

#[test]
fn unseal_pdf_with_wrong_password_fails() {
    let sealed = seal_pdf(&sample_pdf_bytes(), "s3cret").unwrap();
    let err = unseal_pdf(&sealed, "wrong-password").unwrap_err();
    assert!(
        err.text().contains("decrypt")
            || err.text().contains("password")
            || err.text().contains("authentication"),
        "unexpected error: {}",
        err.text()
    );
}

#[test]
fn what_is_no_pdf_is_not_sealed() {
    let bytes = b"no document".to_vec();
    assert_eq!(seal_pdf(&bytes, "s3cret"), Err(PdfError::Parse));
    assert_eq!(unseal_pdf(&bytes, "s3cret"), Err(PdfError::Decrypt));
}

#[test]
fn payslips_are_locked_with_one_password() {
    let settings = payslip_lock_settings("s3cret");
    assert_eq!(settings.version, 4);
    assert_eq!(settings.method, "AESV2");
    assert_eq!(settings.filter, "StdCF");
    assert!(settings.encrypt_metadata);
    assert_eq!(settings.owner_password, "s3cret");
    assert_eq!(settings.user_password, "s3cret");
    assert_eq!(settings.permissions, lopdf::Permissions::all().bits());
}

#[test]
fn what_is_locked_is_not_locked_again() {
    let sealed = seal_pdf(&sample_pdf_bytes(), "s3cret").unwrap();
    assert_eq!(seal_pdf(&sealed, "other"), Err(PdfError::Encrypt));
}

#[test]
fn a_document_without_an_id_is_not_locked() {
    let mut document = Document::load_mem(&sample_pdf_bytes()).unwrap();
    document.trailer.remove(b"ID");
    let mut bytes = Vec::new();
    document.save_to(&mut bytes).unwrap();
    assert_eq!(seal_pdf(&bytes, "s3cret"), Err(PdfError::State));
}

#[test]
fn an_unlocked_document_opens_with_any_password() {
    let opened = unseal_pdf(&sample_pdf_bytes(), "any").unwrap();
    assert_eq!(Document::load_mem(&opened).unwrap().get_pages().len(), 1);
}

#[test]
fn a_lock_that_cannot_be_read_back_does_not_open() {
    let sample = sample_pdf_bytes();
    let mark = b"obj\n<<";
    let at = sample.windows(mark.len()).rposition(|window| window == mark).unwrap() + mark.len();
    let mut bytes = sample[..at].to_vec();
    bytes.extend_from_slice(b"/X ");
    bytes.extend_from_slice(&vec![b'9'; 60]);
    bytes.extend_from_slice(b".0");
    bytes.extend_from_slice(&sample[at..]);
    let sealed = seal_pdf(&bytes, "s3cret").unwrap();
    assert!(Document::load_mem(&sealed).is_err());
    assert_eq!(unseal_pdf(&sealed, "s3cret"), Err(PdfError::Decrypt));
}
