//! Payslip files: locking a PDF with a password, and opening it again.

use lopdf::encryption::crypt_filters::{Aes128CryptFilter, CryptFilter};
use lopdf::{EncryptionState, EncryptionVersion, Permissions};
use std::sync::Arc;
use vstd::prelude::*;

verus! {

/// A PDF document of `lopdf`.
#[verifier::external_type_specification]
#[verifier::external_body]
pub struct ExDocument(lopdf::Document);

/// Why a payslip could not be locked or opened.
#[derive(Debug, Clone, Copy, PartialEq, Eq, Structural)]
pub enum PdfError {
    /// It is no PDF.
    Parse,
    /// It cannot be locked with this password.
    State,
    /// It could not be encrypted.
    Encrypt,
    /// It could not be written.
    Serialize,
    /// It could not be opened with this password.
    Decrypt,
    /// What was opened could not be written.
    SerializeOpened,
}

/// An error in words.
pub open spec fn pdf_error_text(error: PdfError) -> Seq<char> {
    match error {
        PdfError::Parse => "parse payslip PDF"@,
        PdfError::State => "build PDF encryption state"@,
        PdfError::Encrypt => "encrypt payslip PDF"@,
        PdfError::Serialize => "serialize encrypted payslip PDF"@,
        PdfError::Decrypt => "decrypt password-protected payslip PDF"@,
        PdfError::SerializeOpened => "serialize decrypted payslip PDF"@,
    }
}

impl PdfError {
    /// The error in words.
    pub fn text(&self) -> (text: String)
        ensures
            text@ == pdf_error_text(*self),
    {
        match self {
            PdfError::Parse => "parse payslip PDF".to_owned(),
            PdfError::State => "build PDF encryption state".to_owned(),
            PdfError::Encrypt => "encrypt payslip PDF".to_owned(),
            PdfError::Serialize => "serialize encrypted payslip PDF".to_owned(),
            PdfError::Decrypt => "decrypt password-protected payslip PDF".to_owned(),
            PdfError::SerializeOpened => "serialize decrypted payslip PDF".to_owned(),
        }
    }
}

/// All that a document of `lopdf` holds - its version, its numbered objects
/// and its trailer - written out as bytes in some fixed way.
pub uninterp spec fn document_contents(document: lopdf::Document) -> Seq<u8>;

/// Whether `lopdf::Document::load_mem` reads some bytes as a document.
pub uninterp spec fn pdf_loads(bytes: Seq<u8>) -> bool;

/// Whether a document with these contents can come out when `lopdf` reads some
/// bytes with a password or without one. A file with errors may be read in
/// more than one way: the object streams of a locked file are walked in no
/// fixed order.
pub uninterp spec fn pdf_reads(
    bytes: Seq<u8>,
    password: Option<Seq<char>>,
    contents: Seq<u8>,
) -> bool;

/// The lock of a document: its file id and its `Encrypt` entry with the
/// dictionary that this names; `None` where there is no such entry.
pub uninterp spec fn contents_lock(contents: Seq<u8>) -> Option<Seq<u8>>;

/// The lock of a file: that of the document which `lopdf::Document::load_mem`
/// reads. A file that opens with no password has none.
pub uninterp spec fn file_lock(bytes: Seq<u8>) -> Option<Seq<u8>>;

/// Whether a lock takes a password, as `lopdf::Document::authenticate_password`
/// and `lopdf::EncryptionState::decode` decide of a document with this lock.
pub uninterp spec fn lock_takes(lock: Seq<u8>, password: Seq<char>) -> bool;

/// Whether a document with some contents can be locked, and which step fails
/// where it cannot.
pub uninterp spec fn lock_outcome(contents: Seq<u8>, settings: LockView) -> LockOutcome;

/// Whether `lopdf::Document::encrypt` can turn one document into another under
/// a state that `lopdf` makes of some settings. The other is open to chance.
pub uninterp spec fn encrypts_to(before: Seq<u8>, settings: LockView, after: Seq<u8>) -> bool;

/// The bytes that `lopdf::Document::save_to` writes of a document with some
/// contents.
pub uninterp spec fn pdf_written(contents: Seq<u8>) -> Option<Seq<u8>>;

/// Whether some bytes open with a password: they are a PDF, and if it is
/// locked, the lock takes the password.
pub open spec fn pdf_opens(bytes: Seq<u8>, password: Seq<char>) -> bool {
    pdf_loads(bytes) && (file_lock(bytes) matches Some(lock) ==> lock_takes(lock, password))
}

/// Whether a document is one locked with some settings: the lock takes the
/// user's password.
pub open spec fn is_locked_form(before: Seq<u8>, settings: LockView, after: Seq<u8>) -> bool {
    &&& encrypts_to(before, settings, after)
    &&& contents_lock(after) matches Some(lock) && lock_takes(lock, settings.user_password)
}

/// How a document is locked.
pub struct LockSettings {
    /// The version of the algorithm.
    pub version: u32,
    /// The method of the one crypt filter.
    pub method: String,
    /// The name of that filter, used for streams and for strings.
    pub filter: String,
    pub encrypt_metadata: bool,
    pub owner_password: String,
    pub user_password: String,
    /// The permissions, one bit each.
    pub permissions: u64,
}

/// How a document is locked, as characters and numbers.
pub struct LockView {
    pub version: u32,
    pub method: Seq<char>,
    pub filter: Seq<char>,
    pub encrypt_metadata: bool,
    pub owner_password: Seq<char>,
    pub user_password: Seq<char>,
    pub permissions: u64,
}

impl View for LockSettings {
    type V = LockView;

    open spec fn view(&self) -> LockView {
        LockView {
            version: self.version,
            method: self.method@,
            filter: self.filter@,
            encrypt_metadata: self.encrypt_metadata,
            owner_password: self.owner_password@,
            user_password: self.user_password@,
            permissions: self.permissions,
        }
    }
}

/// What became of locking a document.
#[derive(Debug, Clone, Copy, PartialEq, Eq, Structural)]
pub enum LockOutcome {
    /// No keys could be made, since the document has no file id.
    NoState,
    /// It was not encrypted: it is locked already, or out of object numbers.
    Refused,
    /// It is locked.
    Locked,
}

/// All permissions of a document: printing, changing, copying, annotating,
/// filling in, reading aloud, assembling and printing well.
pub const ALL_PERMISSIONS: u64 = 0b1111_0011_1100;

/// How a payslip is locked: version 4 with AES of 128 bits, for the metadata
/// too, with one password for owner and user, and with all permissions.
pub open spec fn payslip_lock(password: Seq<char>) -> LockView {
    LockView {
        version: 4,
        method: "AESV2"@,
        filter: "StdCF"@,
        encrypt_metadata: true,
        owner_password: password,
        user_password: password,
        permissions: ALL_PERMISSIONS,
    }
}

/// How a payslip is locked with a password.
pub fn payslip_lock_settings(password: &str) -> (settings: LockSettings)
    ensures
        settings@ == payslip_lock(password@),
{
    LockSettings {
        version: 4,
        method: "AESV2".to_owned(),
        filter: "StdCF".to_owned(),
        encrypt_metadata: true,
        owner_password: password.to_owned(),
        user_password: password.to_owned(),
        permissions: ALL_PERMISSIONS,
    }
}

/// Calls `lopdf::Document::load_mem`. The document is one that `lopdf` can
/// read of the bytes, and its lock is the file's. What is no PDF, or is locked
/// with no password by a handler that `lopdf` does not know, is refused.
#[verifier::external_body]
fn load(bytes: &Vec<u8>) -> (document: Option<lopdf::Document>)
    ensures
        document is Some == pdf_loads(bytes@),
        document matches Some(read) ==> pdf_reads(bytes@, None, document_contents(read)),
        document matches Some(read) ==> contents_lock(document_contents(read)) == file_lock(bytes@),
{
    lopdf::Document::load_mem(bytes).ok()
}

/// Calls `lopdf::Document::load_mem_with_options` with a password. There is a
/// document if and only if the bytes are a PDF that is not locked or whose
/// lock takes the password; it is one that `lopdf` can read of the bytes.
#[verifier::external_body]
fn open(bytes: &Vec<u8>, password: &str) -> (document: Option<lopdf::Document>)
    ensures
        document is Some == pdf_opens(bytes@, password@),
        document matches Some(read) ==> pdf_reads(
            bytes@,
            Some(password@),
            document_contents(read),
        ),
{
    let options = lopdf::LoadOptions::with_password(password);
    lopdf::Document::load_mem_with_options(bytes, options).ok()
}

/// Calls `lopdf::EncryptionState::try_from` for version 4 with the AES filter
/// of 128 bits, and `lopdf::Document::encrypt` with the state. Whether that
/// succeeds is a matter of the document and the settings; the keys and the
/// encrypted bytes hold random ones. A document that was locked takes the
/// user's password, since the lock is checked as it was made: from the file
/// id, the permissions and the owner's entry.
#[verifier::external_body]
fn lock_document(document: &mut lopdf::Document, settings: &LockSettings) -> (outcome: LockOutcome)
    requires
        settings.version == 4,
        settings.method@ == "AESV2"@,
    ensures
        outcome == lock_outcome(document_contents(*old(document)), settings@),
        outcome == LockOutcome::Locked ==> encrypts_to(
            document_contents(*old(document)),
            settings@,
            document_contents(*final(document)),
        ),
        outcome == LockOutcome::Locked ==> contents_lock(
            document_contents(*final(document)),
        ) is Some,
        outcome == LockOutcome::Locked ==> lock_takes(
            contents_lock(document_contents(*final(document)))->0,
            settings@.user_password,
        ),
{
    let aes: Arc<dyn CryptFilter> = Arc::new(Aes128CryptFilter);
    let filter = settings.filter.clone().into_bytes();
    let state = EncryptionState::try_from(EncryptionVersion::V4 {
        document, encrypt_metadata: settings.encrypt_metadata,
        crypt_filters: [(filter.clone(), aes)].into(),
        stream_filter: filter.clone(), string_filter: filter,
        owner_password: &settings.owner_password, user_password: &settings.user_password,
        permissions: Permissions::from_bits_retain(settings.permissions),
    });
    match state.map(|state| document.encrypt(&state)) {
        Err(_) => LockOutcome::NoState,
        Ok(Err(_)) => LockOutcome::Refused,
        Ok(Ok(())) => LockOutcome::Locked,
    }
}

/// Calls `lopdf::Document::save_to`. The bytes are a function of what the
/// document holds.
#[verifier::external_body]
fn save(document: &mut lopdf::Document) -> (bytes: Option<Vec<u8>>)
    ensures
        bytes_of(bytes) == pdf_written(document_contents(*old(document))),
{
    let mut bytes = Vec::new();
    document.save_to(&mut bytes).ok().map(|_| bytes)
}

/// The bytes of an optional list.
pub open spec fn bytes_of(bytes: Option<Vec<u8>>) -> Option<Seq<u8>> {
    match bytes {
        Some(bytes) => Some(bytes@),
        None => None,
    }
}

/// Whether writing a document came out like this, with the error for one that
/// cannot be written.
pub open spec fn is_written(
    contents: Seq<u8>,
    result: Result<Vec<u8>, PdfError>,
    error: PdfError,
) -> bool {
    match (pdf_written(contents), result) {
        (Some(bytes), Ok(own)) => own@ == bytes,
        (None, Err(own)) => own == error,
        _ => false,
    }
}

/// Whether locking a document and writing it came out like this.
pub open spec fn is_sealed(
    contents: Seq<u8>,
    settings: LockView,
    sealed: Result<Vec<u8>, PdfError>,
) -> bool {
    match lock_outcome(contents, settings) {
        LockOutcome::NoState => sealed == Err::<Vec<u8>, PdfError>(PdfError::State),
        LockOutcome::Refused => sealed == Err::<Vec<u8>, PdfError>(PdfError::Encrypt),
        LockOutcome::Locked => exists|after: Seq<u8>| #[trigger]
            is_locked_form(contents, settings, after) && is_written(
                after,
                sealed,
                PdfError::Serialize,
            ),
    }
}

/// Locks a PDF with a password. What is no PDF is refused as such; else the
/// result is what is written of a document that `lopdf` reads of the bytes,
/// locked as payslips are. Which bytes that gives is left to chance. That they
/// open again says [`what_was_locked_opens`].
pub fn seal_pdf(bytes: &Vec<u8>, password: &str) -> (sealed: Result<Vec<u8>, PdfError>)
    ensures
        !pdf_loads(bytes@) <==> sealed == Err::<Vec<u8>, PdfError>(PdfError::Parse),
        pdf_loads(bytes@) ==> exists|contents: Seq<u8>| #[trigger]
            pdf_reads(bytes@, None, contents) && contents_lock(contents) == file_lock(bytes@)
                && is_sealed(contents, payslip_lock(password@), sealed),
{
    let mut document = match load(bytes) {
        Some(document) => document,
        None => {
            return Err(PdfError::Parse);
        },
    };
    let ghost contents = document_contents(document);
    let settings = payslip_lock_settings(password);
    match lock_document(&mut document, &settings) {
        LockOutcome::NoState => Err(PdfError::State),
        LockOutcome::Refused => Err(PdfError::Encrypt),
        LockOutcome::Locked => {
            assert(is_locked_form(contents, settings@, document_contents(document)));
            match save(&mut document) {
                Some(sealed) => Ok(sealed),
                None => Err(PdfError::Serialize),
            }
        },
    }
}

/// Opens a PDF that was locked with a password. What does not open with it is
/// refused as such; else the result is what is written of a document that
/// `lopdf` reads of the bytes with the password.
pub fn unseal_pdf(bytes: &Vec<u8>, password: &str) -> (opened: Result<Vec<u8>, PdfError>)
    ensures
        !pdf_opens(bytes@, password@) <==> opened == Err::<Vec<u8>, PdfError>(PdfError::Decrypt),
        pdf_opens(bytes@, password@) ==> exists|contents: Seq<u8>| #[trigger]
            pdf_reads(bytes@, Some(password@), contents) && is_written(
                contents,
                opened,
                PdfError::SerializeOpened,
            ),
{
    let mut document = match open(bytes, password) {
        Some(document) => document,
        None => {
            return Err(PdfError::Decrypt);
        },
    };
    let ghost contents = document_contents(document);
    assert(pdf_reads(bytes@, Some(password@), contents));
    match save(&mut document) {
        Some(opened) => Ok(opened),
        None => Err(PdfError::SerializeOpened),
    }
}

/// Whether the lock of a file is read from it as it was put on the document
/// that was written. It is not where the trailer holds a number too large for
/// `lopdf`, which writes it as a word that it cannot read, or where the random
/// bytes of the lock spell `endobj`, at which `lopdf` ends the object that it
/// reads.
pub open spec fn lock_reads_back(bytes: Seq<u8>) -> bool {
    &&& pdf_loads(bytes)
    &&& forall|after: Seq<u8>| #[trigger]
        pdf_written(after) == Some(bytes) ==> file_lock(bytes) == contents_lock(after)
}

/// What was locked opens again with the password it was locked with, wherever
/// its lock is read back.
pub proof fn what_was_locked_opens(contents: Seq<u8>, password: Seq<char>, sealed: Vec<u8>)
    requires
        is_sealed(contents, payslip_lock(password), Ok(sealed)),
        lock_reads_back(sealed@),
    ensures
        pdf_opens(sealed@, password),
{
}

/// What was locked is not what was there before, wherever that had no lock and
/// the new one is read back.
pub proof fn what_was_locked_differs(
    bytes: Seq<u8>,
    contents: Seq<u8>,
    password: Seq<char>,
    sealed: Vec<u8>,
)
    requires
        file_lock(bytes) is None,
        is_sealed(contents, payslip_lock(password), Ok(sealed)),
        lock_reads_back(sealed@),
    ensures
        sealed@ != bytes,
{
}

} // verus!
