//! Talking to the service: signing in, sending again, keeping the session,
//! payslips and salaries.

use crate::config::{payslip_pattern, random_bytes, Config};
use crate::date::{
    formatted_date, is_date, month_text, parsed_date, CalendarDate, NaiveDate,
};
use crate::dom::{
    page_of, positions, select, select_in, spaced_text, Dom, Page, Selector,
};
use crate::fields::{pair_texts, sorted_pairs, FormFields};
use crate::hr_core::{row_texts, SalaryEntry, SalarySummary};
use crate::months::{
    date_views, month_range, month_shifted, months_from, previous_month_start, shift_month,
};
use crate::text::{
    chars_of, contains, contains_text, lowercased, opt_text, padded, padded_text, parse_up_to,
    parsed_up_to, push_char, same, signed_padded, signed_padded_text, texts, to_lowercase,
};
use vstd::prelude::*;

verus! {

// ---------------------------------------------------------------------------
// Addresses
// ---------------------------------------------------------------------------

/// The address of the attendance calendar.
pub fn calendar_page_url(base_url: &str) -> (url: String)
    ensures
        url@ == base_url@ + "/Hilannetv2/Attendance/calendarpage.aspx?isOnSelf=true"@,
{
    let mut url = base_url.to_owned();
    url.append("/Hilannetv2/Attendance/calendarpage.aspx?isOnSelf=true");
    url
}

/// The address of a method of the service's JSON interface.
pub fn asmx_url(base_url: &str, service: &str, method: &str) -> (url: String)
    ensures
        url@ == base_url@ + "/Hilannetv2/Services/Public/WS/"@ + service@ + ".asmx/"@ + method@,
{
    let mut url = base_url.to_owned();
    url.append("/Hilannetv2/Services/Public/WS/");
    url.append(service);
    url.append(".asmx/");
    url.append(method);
    url
}

/// The address at which one signs in.
pub fn login_url(base_url: &str) -> (url: String)
    ensures
        url@ == base_url@ + "/HilanCenter/Public/api/LoginApi/LoginRequest"@,
{
    let mut url = base_url.to_owned();
    url.append("/HilanCenter/Public/api/LoginApi/LoginRequest");
    url
}

/// The address of the salary page.
pub fn salary_url(base_url: &str) -> (url: String)
    ensures
        url@ == base_url@ + "/Hilannetv2/PersonalFile/SalaryAllSummary.aspx"@,
{
    let mut url = base_url.to_owned();
    url.append("/Hilannetv2/PersonalFile/SalaryAllSummary.aspx");
    url
}

/// Whether a character may stand in a subdomain: an ASCII letter or digit, a
/// hyphen or a dot.
pub open spec fn is_subdomain_char(c: char) -> bool {
    ('0' <= c && c <= '9') || ('A' <= c && c <= 'Z') || ('a' <= c && c <= 'z') || c == '-' || c
        == '.'
}

/// Whether a text may be a subdomain, so that it cannot bend an address.
pub open spec fn is_subdomain(text: Seq<char>) -> bool {
    forall|i: int| 0 <= i < text.len() ==> is_subdomain_char(#[trigger] text[i])
}

/// The address of an organization's portal.
pub fn base_url_of(subdomain: &str) -> (url: Result<String, String>)
    ensures
        match url {
            Ok(url) => is_subdomain(subdomain@) && url@ == "https://"@ + subdomain@
                + ".hilan.co.il"@,
            Err(message) => !is_subdomain(subdomain@) && message@ == "subdomain '"@ + subdomain@
                + "' contains invalid characters (only alphanumeric, hyphens, and dots allowed)"@,
        },
{
    let chars = chars_of(subdomain);
    let mut i: usize = 0;
    while i < chars.len()
        invariant
            i <= chars.len(),
            chars@ == subdomain@,
            forall|j: int| 0 <= j < i ==> is_subdomain_char(#[trigger] subdomain@[j]),
        decreases chars.len() - i,
    {
        let c = chars[i];
        let fits = ('0' <= c && c <= '9') || ('A' <= c && c <= 'Z') || ('a' <= c && c <= 'z') || c
            == '-' || c == '.';
        if !fits {
            assert(!is_subdomain_char(subdomain@[i as int]));
            let mut message = "subdomain '".to_owned();
            message.append(subdomain);
            message.append(
                "' contains invalid characters (only alphanumeric, hyphens, and dots allowed)",
            );
            return Err(message);
        }
        i = i + 1;
    }
    let mut url = "https://".to_owned();
    url.append(subdomain);
    url.append(".hilan.co.il");
    Ok(url)
}

/// Whether the cookies that are kept may be those of a session: where there is
/// more than one.
pub fn may_be_session(cookies: usize) -> (answer: bool)
    ensures
        answer == (cookies > 1),
{
    cookies > 1
}

/// The address of a month's payslip.
pub open spec fn payslip_address(
    base_url: Seq<char>,
    month: CalendarDate,
    org_id: Seq<char>,
    username: Seq<char>,
) -> Seq<char> {
    base_url + "/Hilannetv2/PersonalFile/PdfPaySlip.aspx?Date=01/"@ + padded(month.month as nat, 2)
        + "/"@ + signed_padded(month.year, 4) + "&UserId="@ + org_id + username
}

/// The address of a month's payslip.
pub fn payslip_url(base_url: &str, month: NaiveDate, org_id: &str, username: &str) -> (url: String)
    ensures
        url@ == payslip_address(base_url@, month@, org_id@, username@),
{
    let mut url = base_url.to_owned();
    url.append("/Hilannetv2/PersonalFile/PdfPaySlip.aspx?Date=01/");
    let number = padded_text(month.month() as u64, 2);
    url.append(number.as_str());
    url.append("/");
    let year = signed_padded_text(month.year() as i64, 4);
    url.append(year.as_str());
    url.append("&UserId=");
    url.append(org_id);
    url.append(username);
    url
}

/// The bytes that a PDF begins with.
pub open spec fn pdf_mark() -> Seq<u8> {
    seq![37u8, 80u8, 68u8, 70u8]
}

/// Whether some bytes begin as a PDF does.
pub fn is_pdf(bytes: &Vec<u8>) -> (answer: bool)
    ensures
        answer == (bytes@.len() >= 4 && bytes@.take(4) == pdf_mark()),
{
    if bytes.len() < 4 {
        return false;
    }
    let answer = bytes[0] == 37 && bytes[1] == 80 && bytes[2] == 68 && bytes[3] == 70;
    proof {
        if answer {
            assert(bytes@.take(4) == pdf_mark());
        } else {
            assert(bytes@.take(4)[0] == bytes@[0] && bytes@.take(4)[1] == bytes@[1]
                && bytes@.take(4)[2] == bytes@[2] && bytes@.take(4)[3] == bytes@[3]);
        }
    }
    answer
}

/// The words for a payslip that is no PDF.
pub fn not_a_payslip(month: NaiveDate) -> (text: String)
    ensures
        text@ == "Payslip download did not return a PDF for "@ + month_text(month@)
            + ". The session may be invalid or the payslip is unavailable."@,
{
    let mut text = "Payslip download did not return a PDF for ".to_owned();
    let name = month.year_month();
    text.append(name.as_str());
    text.append(". The session may be invalid or the payslip is unavailable.");
    text
}

/// Where a payslip is stored, as the parts of a path: in the directory that is
/// named, else in the file that is named, else in the usual folder.
pub open spec fn payslip_parts(
    name: Seq<char>,
    output: Option<(Seq<char>, bool)>,
    folder: Option<Seq<char>>,
) -> Seq<Seq<char>> {
    match output {
        Some(output) => if output.1 {
            seq![output.0, name]
        } else {
            seq![output.0]
        },
        None => match folder {
            Some(folder) => seq![folder, name],
            None => seq![name],
        },
    }
}

/// Where a month's payslip is stored, as the parts of a path; `output` is what
/// is named, and whether it is a directory. There is no place where the name's
/// pattern is none that a date can be written after.
pub fn payslip_path(config: &Config, month: NaiveDate, output: Option<(String, bool)>) -> (parts:
    Option<Vec<String>>)
    ensures
        match (parts, formatted_date(month@, payslip_pattern(config@))) {
            (Some(parts), Some(name)) => texts(parts@) == payslip_parts(
                name,
                match output {
                    Some(output) => Some((output.0@, output.1)),
                    None => None,
                },
                config@.payslip_folder,
            ),
            (None, None) => true,
            _ => false,
        },
{
    let name = match month.format(config.payslip_fmt()) {
        Some(name) => name,
        None => {
            return None;
        },
    };
    let ghost written = name@;
    let mut parts: Vec<String> = Vec::new();
    match output {
        Some((path, is_directory)) => {
            let ghost place = path@;
            parts.push(path);
            if is_directory {
                parts.push(name);
                assert(texts(parts@) == seq![place, written]);
            } else {
                assert(texts(parts@) == seq![place]);
            }
        },
        None => {
            match &config.payslip_folder {
                Some(folder) => {
                    parts.push(folder.clone());
                    parts.push(name);
                    assert(texts(parts@) == seq![folder@, written]);
                },
                None => {
                    parts.push(name);
                    assert(texts(parts@) == seq![written]);
                },
            }
        },
    }
    Some(parts)
}

// ---------------------------------------------------------------------------
// Signing in
// ---------------------------------------------------------------------------

/// What the pattern of an organization's id first captures in a text, by
/// `regex::Regex::captures`.
pub uninterp spec fn org_id_capture(text: Seq<char>, pattern: Seq<char>) -> Option<Seq<char>>;

/// The pattern of an organization's id in the service's home page.
pub const ORG_ID_PATTERN: &'static str = "\\\\?\"OrgId\\\\?\"[:\\s]*\\\\?\"(\\d+)\\\\?\"";

/// Calls `regex::Regex::new` and `regex::Regex::captures`: the first group of
/// the first match of a pattern, which is the one of an organization's id.
#[verifier::external_body]
fn capture(text: &str, pattern: &str) -> (found: Option<String>)
    requires
        pattern@ == ORG_ID_PATTERN@,
    ensures
        opt_text(found) == org_id_capture(text@, pattern@),
{
    let pattern = regex::Regex::new(pattern).expect("valid pattern");
    pattern.captures(text).and_then(|found| found.get(1)).map(|group| group.as_str().to_string())
}

/// The organization's id in the service's home page.
pub fn org_id_in(text: &str) -> (found: Result<String, String>)
    ensures
        match found {
            Ok(id) => org_id_capture(text@, ORG_ID_PATTERN@) == Some(id@),
            Err(message) => org_id_capture(text@, ORG_ID_PATTERN@) is None && message@
                == "Could not find OrgId in Hilanet homepage. Is the subdomain correct?"@,
        },
{
    match capture(text, ORG_ID_PATTERN) {
        Some(id) => Ok(id),
        None => Err(
            "Could not find OrgId in Hilanet homepage. Is the subdomain correct?".to_owned(),
        ),
    }
}

/// What the service answers to one who signs in.
#[derive(Debug)]
pub struct LoginResponse {
    pub is_fail: bool,
    pub is_show_captcha: Option<bool>,
    pub code: Option<i32>,
    pub error_message: Option<String>,
}

/// What is wrong with a sign-in.
pub open spec fn login_error(
    is_fail: bool,
    is_show_captcha: Option<bool>,
    code: Option<i32>,
    error_message: Option<Seq<char>>,
    base_url: Seq<char>,
) -> Option<Seq<char>> {
    if is_show_captcha == Some(true) {
        Some(
            "CAPTCHA required. Please log in via browser at "@ + base_url
                + " and solve the captcha, then try again."@,
        )
    } else if !is_fail {
        None
    } else if code == Some(18i32) {
        Some("Temporary login error. Please try again in a few minutes."@)
    } else if code == Some(6i32) {
        Some("Password change required. Please update your password at "@ + base_url + "."@)
    } else {
        Some(
            "Login failed: "@ + match error_message {
                Some(message) => message,
                None => "Unknown login error"@,
            },
        )
    }
}

/// What is wrong with a sign-in, where something is.
pub fn check_login(login: &LoginResponse, base_url: &str) -> (error: Option<String>)
    ensures
        opt_text(error) == login_error(
            login.is_fail,
            login.is_show_captcha,
            login.code,
            opt_text(login.error_message),
            base_url@,
        ),
{
    if let Some(true) = login.is_show_captcha {
        let mut text = "CAPTCHA required. Please log in via browser at ".to_owned();
        text.append(base_url);
        text.append(" and solve the captcha, then try again.");
        return Some(text);
    }
    if !login.is_fail {
        return None;
    }
    match login.code {
        Some(18) => Some("Temporary login error. Please try again in a few minutes.".to_owned()),
        Some(6) => {
            let mut text = "Password change required. Please update your password at ".to_owned();
            text.append(base_url);
            text.append(".");
            Some(text)
        },
        _ => {
            let mut text = "Login failed: ".to_owned();
            match &login.error_message {
                Some(message) => text.append(message.as_str()),
                None => text.append("Unknown login error"),
            }
            Some(text)
        },
    }
}

// ---------------------------------------------------------------------------
// Sending again
// ---------------------------------------------------------------------------

/// How often a request is sent again at most.
pub const MAX_RETRIES: u32 = 3;

/// A request that is being sent.
#[derive(Debug, Clone, Copy, PartialEq, Eq, Structural)]
pub struct Sending {
    /// Whether it may be sent again.
    pub retryable: bool,
    /// How often it was sent again.
    pub attempt: u32,
}

/// What came of a request.
#[derive(Debug, Clone, Copy, PartialEq, Eq, Structural)]
pub enum SendEvent {
    /// It failed, for a reason that may pass or not.
    Failed { transient: bool },
    /// It was answered, from a page to sign in at or not, with a status.
    Answered { login_page: bool, status: u16 },
}

/// What is done about it.
#[derive(Debug, Clone, Copy, PartialEq, Eq, Structural)]
pub enum SendStep {
    /// Wait this many milliseconds and send it again.
    WaitAndSend { sending: Sending, millis: u64 },
    /// Sign in and send it again.
    SignInAndSend { sending: Sending },
    /// It failed.
    Fail,
    /// Take the answer.
    Take,
}

/// What a failure to send was caused by.
#[derive(Debug, Clone, Copy, PartialEq, Eq, Structural)]
pub enum FailureCause {
    /// The request failed, and these are its marks.
    Request { timeout: bool, connect: bool, request: bool },
    /// Reading or writing failed.
    Io(IoFailure),
    /// Something else.
    Other,
}

/// How reading or writing failed.
#[derive(Debug, Clone, Copy, PartialEq, Eq, Structural)]
pub enum IoFailure {
    ConnectionReset,
    ConnectionRefused,
    BrokenPipe,
    TimedOut,
    Other,
}

/// Whether a request failed in a way that may pass.
pub open spec fn passing_request(cause: FailureCause) -> bool {
    cause matches FailureCause::Request { timeout, connect, request } && (timeout || connect
        || request)
}

/// Whether a failure may pass: the causes are gone through from the outermost,
/// and the first that tells decides.
pub open spec fn may_pass(causes: Seq<FailureCause>) -> bool
    decreases causes.len(),
{
    if causes.len() == 0 {
        false
    } else if passing_request(causes[0]) {
        true
    } else {
        match causes[0] {
            FailureCause::Io(failure) => failure != IoFailure::Other,
            _ => may_pass(causes.skip(1)),
        }
    }
}

/// Whether a failure may pass, given its causes from the outermost.
pub fn is_transient(causes: &Vec<FailureCause>) -> (answer: bool)
    ensures
        answer == may_pass(causes@),
{
    let mut i: usize = 0;
    assert(causes@.skip(0) == causes@);
    while i < causes.len()
        invariant
            i <= causes.len(),
            may_pass(causes@) == may_pass(causes@.skip(i as int)),
        decreases causes.len() - i,
    {
        assert(causes@.skip(i as int).skip(1) == causes@.skip(i + 1));
        assert(causes@.skip(i as int)[0] == causes@[i as int]);
        match causes[i] {
            FailureCause::Request { timeout, connect, request } => {
                if timeout || connect || request {
                    return true;
                }
            },
            FailureCause::Io(failure) => {
                return failure != IoFailure::Other;
            },
            FailureCause::Other => {},
        }
        i = i + 1;
    }
    false
}

/// Whether a status is that of a server that may recover.
pub open spec fn transient_status(status: u16) -> bool {
    status == 500 || status == 502 || status == 503
}

/// Whether a status is that of a server that may recover.
pub fn is_transient_status(status: u16) -> (answer: bool)
    ensures
        answer == transient_status(status),
{
    status == 500 || status == 502 || status == 503
}

/// Whether an address is one to sign in at.
pub open spec fn login_address(url: Seq<char>) -> bool {
    let lower = lowercased(url);
    contains(lower, "/login"@) || contains(lower, "/signin"@) || contains(lower, "/logon"@)
}

/// Whether an address is one to sign in at.
pub fn is_login_redirect(url: &str) -> (answer: bool)
    ensures
        answer == login_address(url@),
{
    let lower = to_lowercase(url);
    contains_text(lower.as_str(), "/login") || contains_text(lower.as_str(), "/signin")
        || contains_text(lower.as_str(), "/logon")
}

/// How long to wait before the next attempt: half a second, then twice as
/// long each time.
pub open spec fn backoff_millis(attempt: nat) -> nat
    decreases attempt,
{
    if attempt <= 1 {
        500
    } else {
        2 * backoff_millis((attempt - 1) as nat)
    }
}

/// Whether a request may be sent once more.
pub open spec fn may_send_again(sending: Sending) -> bool {
    sending.retryable && sending.attempt < MAX_RETRIES
}

/// The request, once more sent again.
pub open spec fn sent_again(sending: Sending) -> Sending {
    Sending { retryable: sending.retryable, attempt: (sending.attempt + 1) as u32 }
}

/// What is done about what came of a request.
pub open spec fn send_step(sending: Sending, event: SendEvent) -> SendStep {
    let again = SendStep::WaitAndSend {
        sending: sent_again(sending),
        millis: backoff_millis((sending.attempt + 1) as nat) as u64,
    };
    match event {
        SendEvent::Failed { transient } => if may_send_again(sending) && transient {
            again
        } else {
            SendStep::Fail
        },
        SendEvent::Answered { login_page, status } => if !may_send_again(sending) {
            SendStep::Take
        } else if login_page {
            SendStep::SignInAndSend { sending: sent_again(sending) }
        } else if transient_status(status) {
            again
        } else {
            SendStep::Take
        },
    }
}

/// How long to wait before an attempt.
pub fn retry_backoff(attempt: u32) -> (millis: u64)
    requires
        1 <= attempt <= MAX_RETRIES,
    ensures
        millis == backoff_millis(attempt as nat),
        500 <= millis <= 2000,
{
    proof {
        reveal_with_fuel(backoff_millis, 4);
    }
    if attempt == 1 {
        500
    } else if attempt == 2 {
        1000
    } else {
        2000
    }
}

impl Sending {
    /// A request that was not sent yet.
    pub fn start(retryable: bool) -> (sending: Sending)
        ensures
            sending == (Sending { retryable, attempt: 0 }),
    {
        Sending { retryable, attempt: 0 }
    }

    /// What is done about what came of the request.
    pub fn after(self, event: SendEvent) -> (step: SendStep)
        ensures
            step == send_step(self, event),
    {
        let again = self.retryable && self.attempt < MAX_RETRIES;
        match event {
            SendEvent::Failed { transient } => {
                if again && transient {
                    let next = Sending { retryable: self.retryable, attempt: self.attempt + 1 };
                    SendStep::WaitAndSend { sending: next, millis: retry_backoff(next.attempt) }
                } else {
                    SendStep::Fail
                }
            },
            SendEvent::Answered { login_page, status } => {
                if !again {
                    return SendStep::Take;
                }
                let next = Sending { retryable: self.retryable, attempt: self.attempt + 1 };
                if login_page {
                    SendStep::SignInAndSend { sending: next }
                } else if is_transient_status(status) {
                    SendStep::WaitAndSend { sending: next, millis: retry_backoff(next.attempt) }
                } else {
                    SendStep::Take
                }
            },
        }
    }
}

/// A request that may not be sent again is sent once: whatever comes of it, it
/// fails or its answer is taken.
pub proof fn writes_are_sent_once(sending: Sending, event: SendEvent)
    requires
        !sending.retryable,
    ensures
        send_step(sending, event) is Fail || send_step(sending, event) is Take,
{
}

/// A request is sent again at most three times: each time the count grows by
/// one and stays within the limit.
pub proof fn requests_are_sent_again_at_most_thrice(sending: Sending, event: SendEvent)
    requires
        sending.attempt <= MAX_RETRIES,
    ensures
        send_step(sending, event) matches SendStep::WaitAndSend { sending: next, millis }
            ==> next.attempt == sending.attempt + 1 && next.attempt <= MAX_RETRIES && 500 <= millis
            <= 2000,
        send_step(sending, event) matches SendStep::SignInAndSend { sending: next } ==> next.attempt
            == sending.attempt + 1 && next.attempt <= MAX_RETRIES,
        sending.attempt == MAX_RETRIES ==> send_step(sending, event) is Fail || send_step(
            sending,
            event,
        ) is Take,
{
    reveal_with_fuel(backoff_millis, 4);
}

// ---------------------------------------------------------------------------
// Keeping the session
// ---------------------------------------------------------------------------

/// The length of the key that a session is kept under.
pub const COOKIE_KEY_LEN: usize = 32;

/// The length of the number that is used once for each encryption.
pub const COOKIE_NONCE_LEN: usize = 12;

/// The length of the tag by which changed bytes are told.
pub const COOKIE_TAG_LEN: usize = 16;

/// What `aes_gcm::Aes256Gcm` encrypts bytes to, where it does.
pub uninterp spec fn aes_sealed(key: Seq<u8>, nonce: Seq<u8>, plaintext: Seq<u8>) -> Option<
    Seq<u8>,
>;

/// What `aes_gcm::Aes256Gcm` decrypts bytes to, where they are its own.
pub uninterp spec fn aes_opened(key: Seq<u8>, nonce: Seq<u8>, ciphertext: Seq<u8>) -> Option<
    Seq<u8>,
>;

/// The most bytes that `aes_gcm` encrypts at once.
pub const SEALED_MAX_LEN: u64 = 0x10_0000_0000;

/// Calls `aes_gcm::aead::Aead::encrypt` of `aes_gcm::Aes256Gcm`, which fails
/// only for more bytes than it takes at once. It adds a tag of 16 bytes, and
/// what it encrypts, it decrypts again under the same key and nonce.
#[verifier::external_body]
fn aes_seal(key: &Vec<u8>, nonce: &Vec<u8>, plaintext: &Vec<u8>) -> (sealed: Option<Vec<u8>>)
    requires
        key@.len() == COOKIE_KEY_LEN,
        nonce@.len() == COOKIE_NONCE_LEN,
    ensures
        crate::config::opt_bytes(sealed) == aes_sealed(key@, nonce@, plaintext@),
        sealed is Some == (plaintext@.len() <= SEALED_MAX_LEN),
        sealed matches Some(sealed) ==> aes_opened(key@, nonce@, sealed@) == Some(plaintext@),
        sealed matches Some(sealed) ==> sealed@.len() == plaintext@.len() + COOKIE_TAG_LEN,
{
    let cipher = <aes_gcm::Aes256Gcm as aes_gcm::KeyInit>::new_from_slice(key).ok()?;
    let nonce = aes_gcm::Nonce::from_slice(nonce);
    aes_gcm::aead::Aead::encrypt(&cipher, nonce, plaintext.as_slice()).ok()
}

/// Calls `aes_gcm::aead::Aead::decrypt` of `aes_gcm::Aes256Gcm`.
#[verifier::external_body]
fn aes_open(key: &Vec<u8>, nonce: &Vec<u8>, ciphertext: &Vec<u8>) -> (opened: Option<Vec<u8>>)
    requires
        key@.len() == COOKIE_KEY_LEN,
        nonce@.len() == COOKIE_NONCE_LEN,
    ensures
        crate::config::opt_bytes(opened) == aes_opened(key@, nonce@, ciphertext@),
{
    let cipher = <aes_gcm::Aes256Gcm as aes_gcm::KeyInit>::new_from_slice(key).ok()?;
    let nonce = aes_gcm::Nonce::from_slice(nonce);
    aes_gcm::aead::Aead::decrypt(&cipher, nonce, ciphertext.as_slice()).ok()
}

/// What a blob was made of, or what is wrong with it: the nonce stands first,
/// then the encrypted bytes.
pub open spec fn blob_contents(key: Seq<u8>, blob: Seq<u8>) -> Result<Seq<u8>, Seq<char>> {
    if blob.len() < COOKIE_NONCE_LEN {
        Err("encrypted cookie blob shorter than nonce"@)
    } else {
        match aes_opened(
            key,
            blob.take(COOKIE_NONCE_LEN as int),
            blob.skip(COOKIE_NONCE_LEN as int),
        ) {
            Some(plaintext) => Ok(plaintext),
            None => Err("decrypt cookie blob: aead::Error"@),
        }
    }
}

/// The blob of some bytes under a nonce.
pub open spec fn blob_of(key: Seq<u8>, nonce: Seq<u8>, plaintext: Seq<u8>) -> Result<
    Seq<u8>,
    Seq<char>,
> {
    match aes_sealed(key, nonce, plaintext) {
        Some(ciphertext) => Ok(nonce + ciphertext),
        None => Err("encrypt cookie blob: aead::Error"@),
    }
}

/// The view of bytes or an error.
pub open spec fn bytes_view(bytes: Result<Vec<u8>, String>) -> Result<Seq<u8>, Seq<char>> {
    match bytes {
        Ok(bytes) => Ok(bytes@),
        Err(message) => Err(message@),
    }
}

/// Encrypts bytes under a nonce. What is encrypted can be decrypted.
pub fn encrypt_with_nonce(key: &Vec<u8>, nonce: &Vec<u8>, plaintext: &Vec<u8>) -> (blob: Result<
    Vec<u8>,
    String,
>)
    requires
        key@.len() == COOKIE_KEY_LEN,
        nonce@.len() == COOKIE_NONCE_LEN,
    ensures
        bytes_view(blob) == blob_of(key@, nonce@, plaintext@),
        blob is Ok == (plaintext@.len() <= SEALED_MAX_LEN),
        blob matches Ok(blob) ==> blob_contents(key@, blob@) == Ok::<Seq<u8>, Seq<char>>(
            plaintext@,
        ),
        blob matches Ok(blob) ==> blob@.len() == COOKIE_NONCE_LEN + plaintext@.len()
            + COOKIE_TAG_LEN,
{
    let ciphertext = match aes_seal(key, nonce, plaintext) {
        Some(ciphertext) => ciphertext,
        None => {
            return Err("encrypt cookie blob: aead::Error".to_owned());
        },
    };
    let mut blob: Vec<u8> = Vec::new();
    let mut i: usize = 0;
    while i < nonce.len()
        invariant
            i <= nonce.len(),
            blob@ == nonce@.take(i as int),
        decreases nonce.len() - i,
    {
        blob.push(nonce[i]);
        i = i + 1;
        assert(blob@ == nonce@.take(i as int));
    }
    assert(blob@ == nonce@);
    let ghost sealed = ciphertext@;
    let mut rest = ciphertext;
    blob.append(&mut rest);
    assert(blob@ == nonce@ + sealed);
    assert((nonce@ + sealed).take(COOKIE_NONCE_LEN as int) == nonce@);
    assert((nonce@ + sealed).skip(COOKIE_NONCE_LEN as int) == sealed);
    Ok(blob)
}

/// Encrypts bytes under a new nonce. Whatever the nonce was, what is encrypted
/// can be decrypted, and is longer than the bytes and so not the same.
pub fn encrypt_cookie_blob(key: &Vec<u8>, plaintext: &Vec<u8>) -> (blob: Result<Vec<u8>, String>)
    requires
        key@.len() == COOKIE_KEY_LEN,
    ensures
        blob is Ok == (plaintext@.len() <= SEALED_MAX_LEN),
        blob matches Ok(blob) ==> blob_contents(key@, blob@) == Ok::<Seq<u8>, Seq<char>>(
            plaintext@,
        ),
        blob matches Ok(blob) ==> blob@.len() == COOKIE_NONCE_LEN + plaintext@.len()
            + COOKIE_TAG_LEN,
        blob matches Ok(blob) ==> blob@ != plaintext@,
        blob matches Err(message) ==> message@ == "encrypt cookie blob: aead::Error"@,
{
    let nonce = random_bytes(COOKIE_NONCE_LEN);
    encrypt_with_nonce(key, &nonce, plaintext)
}

/// Decrypts a blob.
pub fn decrypt_cookie_blob(key: &Vec<u8>, blob: &Vec<u8>) -> (plaintext: Result<Vec<u8>, String>)
    requires
        key@.len() == COOKIE_KEY_LEN,
    ensures
        bytes_view(plaintext) == blob_contents(key@, blob@),
{
    if blob.len() < COOKIE_NONCE_LEN {
        return Err("encrypted cookie blob shorter than nonce".to_owned());
    }
    let mut nonce: Vec<u8> = Vec::new();
    let mut ciphertext: Vec<u8> = Vec::new();
    let mut i: usize = 0;
    while i < blob.len()
        invariant
            i <= blob.len(),
            COOKIE_NONCE_LEN <= blob.len(),
            i <= COOKIE_NONCE_LEN ==> nonce@ == blob@.take(i as int) && ciphertext@.len() == 0,
            i > COOKIE_NONCE_LEN ==> nonce@ == blob@.take(COOKIE_NONCE_LEN as int) && ciphertext@
                == blob@.subrange(COOKIE_NONCE_LEN as int, i as int),
        decreases blob.len() - i,
    {
        if i < COOKIE_NONCE_LEN {
            nonce.push(blob[i]);
            assert(nonce@ == blob@.take(i + 1));
        } else {
            ciphertext.push(blob[i]);
            assert(ciphertext@ == blob@.subrange(COOKIE_NONCE_LEN as int, i + 1));
        }
        i = i + 1;
    }
    assert(ciphertext@ == blob@.skip(COOKIE_NONCE_LEN as int));
    match aes_open(key, &nonce, &ciphertext) {
        Some(plaintext) => Ok(plaintext),
        None => Err("decrypt cookie blob: aead::Error".to_owned()),
    }
}

// ---------------------------------------------------------------------------
// Salaries
// ---------------------------------------------------------------------------

/// A column of the salary table.
#[derive(Debug)]
pub struct SalaryTableColumn {
    pub name: String,
    pub display_name: String,
}

/// A cell of the salary table.
#[derive(Debug)]
pub enum SalaryCell {
    /// A number as a whole amount, where it has one.
    Number(Option<u64>),
    Text(String),
    /// Something else, as it is written.
    Other(String),
}

/// A cell as mathematics.
pub enum CellView {
    Number(Option<nat>),
    Text(Seq<char>),
    Other(Seq<char>),
}

impl View for SalaryCell {
    type V = CellView;

    open spec fn view(&self) -> CellView {
        match self {
            SalaryCell::Number(amount) => CellView::Number(crate::json::opt_nat(*amount)),
            SalaryCell::Text(text) => CellView::Text(text@),
            SalaryCell::Other(text) => CellView::Other(text@),
        }
    }
}

/// The views of the cells of a row.
pub open spec fn cell_views(row: Seq<(String, SalaryCell)>) -> Seq<(Seq<char>, CellView)> {
    row.map_values(|cell: (String, SalaryCell)| (cell.0@, cell.1@))
}

/// What the service gives of salaries.
#[derive(Debug)]
pub struct SalaryInitialData {
    pub selected_dates: Vec<String>,
    pub selected_single_date: Option<String>,
    pub table_columns: Vec<SalaryTableColumn>,
    pub table_data: Vec<Vec<(String, SalaryCell)>>,
}

/// The decimal digits of a text.
pub open spec fn digits_of(text: Seq<char>) -> Seq<char>
    decreases text.len(),
{
    if text.len() == 0 {
        seq![]
    } else {
        let before = digits_of(text.drop_last());
        if '0' <= text.last() && text.last() <= '9' {
            before.push(text.last())
        } else {
            before
        }
    }
}

/// The amount that a text shows: its digits as a number of 64 bits.
pub open spec fn amount_in(text: Seq<char>) -> Option<nat> {
    if digits_of(text).len() == 0 {
        None
    } else {
        parsed_up_to(digits_of(text), u64::MAX as nat)
    }
}

/// The amount that a text shows.
pub fn extract_amount(cell: &str) -> (amount: Option<u64>)
    ensures
        crate::json::opt_nat(amount) == amount_in(cell@),
{
    let chars = chars_of(cell);
    let mut digits = String::new();
    let mut i: usize = 0;
    while i < chars.len()
        invariant
            i <= chars.len(),
            chars@ == cell@,
            digits@ == digits_of(cell@.take(i as int)),
        decreases chars.len() - i,
    {
        assert(cell@.take(i + 1).drop_last() == cell@.take(i as int));
        let c = chars[i];
        if '0' <= c && c <= '9' {
            push_char(&mut digits, c);
        }
        i = i + 1;
    }
    assert(cell@.take(cell@.len() as int) == cell@);
    if digits.as_str().is_empty() {
        None
    } else {
        parse_up_to(digits.as_str(), u64::MAX)
    }
}

/// The cell of a name.
pub open spec fn named_cell(row: Seq<(Seq<char>, CellView)>, key: Seq<char>) -> Option<CellView>
    decreases row.len(),
{
    if row.len() == 0 {
        None
    } else if row[0].0 == key {
        Some(row[0].1)
    } else {
        named_cell(row.skip(1), key)
    }
}

/// The gross amount of a row, or what is wrong with it.
pub open spec fn gross_amount(row: Seq<(Seq<char>, CellView)>) -> Result<nat, Seq<char>> {
    match named_cell(row, "Bruto"@) {
        Some(CellView::Number(Some(amount))) => Ok(amount),
        Some(CellView::Number(None)) => Err("salary ASMX Bruto is not a finite amount"@),
        Some(CellView::Text(text)) => match amount_in(text) {
            Some(amount) => Ok(amount),
            None => Err("salary ASMX Bruto string did not contain digits"@),
        },
        Some(CellView::Other(text)) => Err(
            "salary ASMX Bruto has unsupported value type: "@ + text,
        ),
        None => Err("salary ASMX row missing Bruto"@),
    }
}

/// The view of an amount or an error.
pub open spec fn amount_view(amount: Result<u64, String>) -> Result<nat, Seq<char>> {
    match amount {
        Ok(amount) => Ok(amount as nat),
        Err(message) => Err(message@),
    }
}

/// The gross amount of a row.
pub fn salary_amount(row: &Vec<(String, SalaryCell)>) -> (amount: Result<u64, String>)
    ensures
        amount_view(amount) == gross_amount(cell_views(row@)),
{
    let ghost all = cell_views(row@);
    let mut i: usize = 0;
    assert(all.skip(0) == all);
    while i < row.len()
        invariant
            i <= row.len(),
            all == cell_views(row@),
            named_cell(all.skip(i as int), "Bruto"@) == named_cell(all, "Bruto"@),
        decreases row.len() - i,
    {
        assert(all.skip(i as int).skip(1) == all.skip(i + 1));
        assert(all.skip(i as int)[0] == (row@[i as int].0@, row@[i as int].1@));
        if same(row[i].0.as_str(), "Bruto") {
            return match &row[i].1 {
                SalaryCell::Number(Some(amount)) => Ok(*amount),
                SalaryCell::Number(None) => Err(
                    "salary ASMX Bruto is not a finite amount".to_owned(),
                ),
                SalaryCell::Text(text) => match extract_amount(text.as_str()) {
                    Some(amount) => Ok(amount),
                    None => Err("salary ASMX Bruto string did not contain digits".to_owned()),
                },
                SalaryCell::Other(text) => {
                    let mut message = "salary ASMX Bruto has unsupported value type: ".to_owned();
                    message.append(text.as_str());
                    Err(message)
                },
            };
        }
        i = i + 1;
    }
    Err("salary ASMX row missing Bruto".to_owned())
}

/// The month of a token such as `03/2026`, or what is wrong with it.
pub open spec fn token_month(token: Seq<char>) -> Result<CalendarDate, Seq<char>> {
    match parsed_date("01/"@ + token, "%d/%m/%Y"@) {
        Ok(date) => Ok(date),
        Err(_) => Err("parse salary month token "@ + token),
    }
}

/// The months of some tokens, or what is wrong with the first that is none.
pub open spec fn token_months(tokens: Seq<Seq<char>>) -> Result<Seq<CalendarDate>, Seq<char>>
    decreases tokens.len(),
{
    if tokens.len() == 0 {
        Ok(seq![])
    } else {
        match token_months(tokens.drop_last()) {
            Ok(before) => match token_month(tokens.last()) {
                Ok(month) => Ok(before.push(month)),
                Err(message) => Err(message),
            },
            Err(message) => Err(message),
        }
    }
}

/// The months that salaries are given for: those selected, else the single one.
pub open spec fn selected_months(dates: Seq<Seq<char>>, single: Option<Seq<char>>) -> Result<
    Seq<CalendarDate>,
    Seq<char>,
> {
    let tokens = if dates.len() > 0 {
        dates
    } else {
        match single {
            Some(token) => seq![token],
            None => seq![],
        }
    };
    if tokens.len() == 0 {
        Err("salary ASMX response did not include selected months"@)
    } else {
        token_months(tokens)
    }
}

proof fn token_errors_stay(tokens: Seq<Seq<char>>, at: int)
    requires
        0 <= at <= tokens.len(),
        token_months(tokens.take(at)) is Err,
    ensures
        token_months(tokens) == token_months(tokens.take(at)),
    decreases tokens.len() - at,
{
    if at == tokens.len() {
        assert(tokens.take(at) == tokens);
    } else {
        assert(tokens.take(at + 1).drop_last() == tokens.take(at));
        token_errors_stay(tokens, at + 1);
    }
}

fn parse_tokens(tokens: &Vec<String>) -> (months: Result<Vec<NaiveDate>, String>)
    ensures
        match months {
            Ok(months) => token_months(texts(tokens@)) == Ok::<Seq<CalendarDate>, Seq<char>>(
                date_views(months@),
            ),
            Err(message) => token_months(texts(tokens@)) == Err::<Seq<CalendarDate>, Seq<char>>(
                message@,
            ),
        },
{
    let ghost all = texts(tokens@);
    let mut months: Vec<NaiveDate> = Vec::new();
    let mut i: usize = 0;
    assert(date_views(months@) == Seq::<CalendarDate>::empty());
    while i < tokens.len()
        invariant
            i <= tokens.len(),
            all == texts(tokens@),
            token_months(all.take(i as int)) == Ok::<Seq<CalendarDate>, Seq<char>>(
                date_views(months@),
            ),
        decreases tokens.len() - i,
    {
        assert(all.take(i + 1).drop_last() == all.take(i as int));
        assert(all.take(i + 1).last() == tokens@[i as int]@);
        let ghost before = date_views(months@);
        let mut text = "01/".to_owned();
        text.append(tokens[i].as_str());
        match NaiveDate::parse_from_str(text.as_str(), "%d/%m/%Y") {
            Ok(month) => {
                months.push(month);
                assert(date_views(months@) == before.push(month@));
            },
            Err(_) => {
                let mut message = "parse salary month token ".to_owned();
                message.append(tokens[i].as_str());
                proof {
                    token_errors_stay(all, i + 1);
                }
                return Err(message);
            },
        }
        i = i + 1;
    }
    assert(all.take(all.len() as int) == all);
    Ok(months)
}

/// The months that salaries are given for.
pub fn parse_selected_salary_months(data: &SalaryInitialData) -> (months: Result<
    Vec<NaiveDate>,
    String,
>)
    ensures
        match months {
            Ok(months) => selected_months(
                texts(data.selected_dates@),
                opt_text(data.selected_single_date),
            ) == Ok::<Seq<CalendarDate>, Seq<char>>(date_views(months@)),
            Err(message) => selected_months(
                texts(data.selected_dates@),
                opt_text(data.selected_single_date),
            ) == Err::<Seq<CalendarDate>, Seq<char>>(message@),
        },
{
    assert(data.selected_dates.len() == texts(data.selected_dates@).len());
    if data.selected_dates.len() > 0 {
        return parse_tokens(&data.selected_dates);
    }
    match &data.selected_single_date {
        Some(token) => {
            let tokens: Vec<String> = vec![token.clone()];
            assert(texts(tokens@) == seq![token@]);
            parse_tokens(&tokens)
        },
        None => Err("salary ASMX response did not include selected months".to_owned()),
    }
}

/// A month's salary as mathematics.
pub struct SalaryView {
    pub month: CalendarDate,
    pub amount: nat,
}

/// The views of a list of salaries.
pub open spec fn salary_views(entries: Seq<SalaryEntry>) -> Seq<SalaryView> {
    entries.map_values(
        |entry: SalaryEntry| SalaryView { month: entry.month@, amount: entry.amount as nat },
    )
}

/// The two last amounts, where a change can be reckoned from them: where the
/// one before the last is not zero.
pub open spec fn last_two(entries: Seq<SalaryView>) -> Option<(nat, nat)> {
    if entries.len() >= 2 && entries[entries.len() - 2].amount != 0 {
        Some((entries[entries.len() - 2].amount, entries.last().amount))
    } else {
        None
    }
}

/// The view of two amounts.
pub open spec fn opt_pair(pair: Option<(u64, u64)>) -> Option<(nat, nat)> {
    match pair {
        Some(pair) => Some((pair.0 as nat, pair.1 as nat)),
        None => None,
    }
}

/// The two last amounts, where a change can be reckoned from them.
pub fn latest_change(entries: &Vec<SalaryEntry>) -> (pair: Option<(u64, u64)>)
    ensures
        opt_pair(pair) == last_two(salary_views(entries@)),
{
    let ghost all = salary_views(entries@);
    let count: usize = entries.len();
    if count < 2 {
        return None;
    }
    assert(all[count - 2].amount == entries@[count - 2].amount);
    assert(all.last().amount == entries@[count - 1].amount);
    if entries[count - 2].amount == 0 {
        None
    } else {
        Some((entries[count - 2].amount, entries[count - 1].amount))
    }
}

/// The display name of the gross column.
pub open spec fn gross_label(columns: Seq<SalaryTableColumn>) -> Seq<char>
    decreases columns.len(),
{
    if columns.len() == 0 {
        "Bruto"@
    } else if columns[0].name@ == "Bruto"@ {
        columns[0].display_name@
    } else {
        gross_label(columns.skip(1))
    }
}

fn find_gross_label(columns: &Vec<SalaryTableColumn>) -> (label: String)
    ensures
        label@ == gross_label(columns@),
{
    let mut i: usize = 0;
    assert(columns@.skip(0) == columns@);
    while i < columns.len()
        invariant
            i <= columns.len(),
            gross_label(columns@.skip(i as int)) == gross_label(columns@),
        decreases columns.len() - i,
    {
        assert(columns@.skip(i as int).skip(1) == columns@.skip(i + 1));
        if same(columns[i].name.as_str(), "Bruto") {
            return columns[i].display_name.clone();
        }
        i = i + 1;
    }
    "Bruto".to_owned()
}

/// The cells of rows.
pub open spec fn data_rows(rows: Seq<Vec<(String, SalaryCell)>>) -> Seq<
    Seq<(Seq<char>, CellView)>,
> {
    rows.map_values(|row: Vec<(String, SalaryCell)>| cell_views(row@))
}

/// The salaries of months and rows, one for one, or what is wrong with the
/// first row that gives none.
pub open spec fn salaries_of(
    months: Seq<CalendarDate>,
    rows: Seq<Seq<(Seq<char>, CellView)>>,
    count: nat,
) -> Result<Seq<SalaryView>, Seq<char>>
    decreases count,
{
    if count == 0 || count > months.len() || count > rows.len() {
        Ok(seq![])
    } else {
        match salaries_of(months, rows, (count - 1) as nat) {
            Ok(before) => match gross_amount(rows[count - 1]) {
                Ok(amount) => Ok(before.push(SalaryView { month: months[count - 1], amount })),
                Err(message) => Err(message),
            },
            Err(message) => Err(message),
        }
    }
}

/// The smaller of two numbers.
pub open spec fn smaller(a: nat, b: nat) -> nat {
    if a <= b {
        a
    } else {
        b
    }
}

/// The salaries that the service gives for the last months, or what is wrong.
pub open spec fn given_salaries(
    months: Result<Seq<CalendarDate>, Seq<char>>,
    rows: Seq<Seq<(Seq<char>, CellView)>>,
    requested: nat,
) -> Result<Seq<SalaryView>, Seq<char>> {
    match months {
        Ok(months) => {
            let available = smaller(months.len(), rows.len());
            let count = smaller(requested, available);
            if available == 0 {
                Err("salary ASMX response did not include any salary rows"@)
            } else {
                salaries_of(months.skip(months.len() - count), rows.skip(rows.len() - count), count)
            }
        },
        Err(message) => Err(message),
    }
}

proof fn salary_errors_stay(
    months: Seq<CalendarDate>,
    rows: Seq<Seq<(Seq<char>, CellView)>>,
    at: nat,
    count: nat,
)
    requires
        at <= count,
        count <= months.len(),
        count <= rows.len(),
        salaries_of(months, rows, at) is Err,
    ensures
        salaries_of(months, rows, count) == salaries_of(months, rows, at),
    decreases count - at,
{
    if at < count {
        salary_errors_stay(months, rows, at, (count - 1) as nat);
    }
}

/// The salaries that the service gives for the last months.
pub fn salary_summary_from_initial_data(data: &SalaryInitialData, months: u32) -> (summary: Result<
    SalarySummary,
    String,
>)
    ensures
        ({
            let given = given_salaries(
                selected_months(
                    texts(data.selected_dates@),
                    opt_text(data.selected_single_date),
                ),
                data_rows(data.table_data@),
                months as nat,
            );
            match summary {
                Ok(summary) => given == Ok::<Seq<SalaryView>, Seq<char>>(
                    salary_views(summary.entries@),
                ) && summary.label@ == gross_label(data.table_columns@) && opt_pair(
                    summary.latest_change,
                ) == last_two(salary_views(summary.entries@)),
                Err(message) => given == Err::<Seq<SalaryView>, Seq<char>>(message@),
            }
        }),
{
    let selected = match parse_selected_salary_months(data) {
        Ok(selected) => selected,
        Err(message) => {
            return Err(message);
        },
    };
    let ghost all_months = date_views(selected@);
    let ghost all_rows = data_rows(data.table_data@);
    let available: usize = if selected.len() <= data.table_data.len() {
        selected.len()
    } else {
        data.table_data.len()
    };
    if available == 0 {
        return Err("salary ASMX response did not include any salary rows".to_owned());
    }
    let count: usize = if (months as u64) <= available as u64 {
        months as usize
    } else {
        available
    };
    let month_start: usize = selected.len() - count;
    let row_start: usize = data.table_data.len() - count;
    let ghost last_months = all_months.skip(month_start as int);
    let ghost last_rows = all_rows.skip(row_start as int);
    let mut entries: Vec<SalaryEntry> = Vec::new();
    let mut i: usize = 0;
    assert(salary_views(entries@) == Seq::<SalaryView>::empty());
    while i < count
        invariant
            i <= count,
            count <= selected.len(),
            count <= data.table_data.len(),
            month_start == selected.len() - count,
            row_start == data.table_data.len() - count,
            all_months == date_views(selected@),
            all_rows == data_rows(data.table_data@),
            last_months == all_months.skip(month_start as int),
            last_rows == all_rows.skip(row_start as int),
            given_salaries(
                selected_months(
                    texts(data.selected_dates@),
                    opt_text(data.selected_single_date),
                ),
                all_rows,
                months as nat,
            ) == salaries_of(last_months, last_rows, count as nat),
            salaries_of(last_months, last_rows, i as nat) == Ok::<Seq<SalaryView>, Seq<char>>(
                salary_views(entries@),
            ),
        decreases count - i,
    {
        let ghost before = salary_views(entries@);
        assert(last_rows[i as int] == cell_views(data.table_data@[row_start + i]@));
        assert(last_months[i as int] == selected@[month_start + i]@);
        let amount: u64 = match salary_amount(&data.table_data[row_start + i]) {
            Ok(amount) => amount,
            Err(message) => {
                proof {
                    salary_errors_stay(last_months, last_rows, (i + 1) as nat, count as nat);
                }
                return Err(message);
            },
        };
        let entry = SalaryEntry { month: selected[month_start + i], amount };
        entries.push(entry);
        assert(salary_views(entries@) == before.push(
            SalaryView { month: entry.month@, amount: amount as nat },
        ));
        i = i + 1;
    }
    let label = find_gross_label(&data.table_columns);
    let change = latest_change(&entries);
    Ok(SalarySummary { label, entries, latest_change: change })
}

/// The cells of a row that show something.
pub open spec fn shown_cells(dom: Dom, cells: Seq<int>) -> Seq<Seq<char>>
    decreases cells.len(),
{
    if cells.len() == 0 {
        seq![]
    } else {
        let before = shown_cells(dom, cells.drop_last());
        let text = spaced_text(dom, cells.last());
        if text.len() == 0 {
            before
        } else {
            before.push(text)
        }
    }
}

/// The rows of the salary page that show something.
pub open spec fn shown_rows(dom: Dom, rows: Seq<int>) -> Seq<Seq<Seq<char>>>
    decreases rows.len(),
{
    if rows.len() == 0 {
        seq![]
    } else {
        let before = shown_rows(dom, rows.drop_last());
        let row = shown_cells(dom, select_in(dom, rows.last(), Selector::TableCell));
        if row.len() == 0 {
            before
        } else {
            before.push(row)
        }
    }
}

/// The rows of a salary page.
pub open spec fn salary_rows(dom: Dom) -> Seq<Seq<Seq<char>>> {
    shown_rows(dom, select(dom, Selector::SalaryRow))
}

fn row_cells(page: &Page, row: usize) -> (cells: Vec<String>)
    requires
        row < page@.nodes.len(),
    ensures
        texts(cells@) == shown_cells(page@, select_in(page@, row as int, Selector::TableCell)),
{
    let found = page.select_in(row, Selector::TableCell);
    let ghost all = positions(found@);
    let mut cells: Vec<String> = Vec::new();
    let mut i: usize = 0;
    while i < found.len()
        invariant
            i <= found.len(),
            all == positions(found@),
            forall|j: int| 0 <= j < found.len() ==> (#[trigger] found@[j]) < page@.nodes.len(),
            texts(cells@) == shown_cells(page@, all.take(i as int)),
        decreases found.len() - i,
    {
        assert(all.take(i + 1).drop_last() == all.take(i as int));
        assert(all.take(i + 1).last() == found@[i as int]);
        let ghost before = texts(cells@);
        let text = page.spaced_text(found[i]);
        if !text.as_str().is_empty() {
            cells.push(text);
            assert(texts(cells@) == before.push(text@));
        }
        i = i + 1;
    }
    assert(all.take(all.len() as int) == all);
    cells
}

/// The rows of a parsed salary page.
pub fn rows_of_salary_page(page: &Page) -> (rows: Vec<Vec<String>>)
    ensures
        row_texts(rows@) == salary_rows(page@),
{
    let found = page.select(Selector::SalaryRow);
    let ghost all = positions(found@);
    let mut rows: Vec<Vec<String>> = Vec::new();
    let mut i: usize = 0;
    while i < found.len()
        invariant
            i <= found.len(),
            all == positions(found@),
            forall|j: int| 0 <= j < found.len() ==> (#[trigger] found@[j]) < page@.nodes.len(),
            row_texts(rows@) == shown_rows(page@, all.take(i as int)),
        decreases found.len() - i,
    {
        assert(all.take(i + 1).drop_last() == all.take(i as int));
        assert(all.take(i + 1).last() == found@[i as int]);
        let ghost before = row_texts(rows@);
        let row = row_cells(page, found[i]);
        assert(row.len() == texts(row@).len());
        if row.len() > 0 {
            rows.push(row);
            assert(row_texts(rows@) == before.push(texts(row@)));
        }
        i = i + 1;
    }
    assert(all.take(all.len() as int) == all);
    rows
}

/// The rows of a salary page.
pub fn extract_salary_rows(html: &str) -> (rows: Vec<Vec<String>>)
    ensures
        row_texts(rows@) == salary_rows(page_of(html@)),
{
    let page = Page::parse(html);
    rows_of_salary_page(&page)
}

/// Whether a salary page shows salaries.
pub fn contains_salary_rows(html: &str) -> (answer: bool)
    ensures
        answer == (salary_rows(page_of(html@)).len() > 0),
{
    let rows = extract_salary_rows(html);
    assert(rows.len() == row_texts(rows@).len());
    rows.len() > 0
}

/// The amounts that some cells show.
pub open spec fn amounts_in(cells: Seq<Seq<char>>) -> Seq<nat>
    decreases cells.len(),
{
    if cells.len() == 0 {
        seq![]
    } else {
        let before = amounts_in(cells.drop_last());
        match amount_in(cells.last()) {
            Some(amount) => before.push(amount),
            None => before,
        }
    }
}

/// The first row that has an amount for each of some months behind its label.
pub open spec fn salary_row(rows: Seq<Seq<Seq<char>>>, months: nat) -> Option<
    (Seq<char>, Seq<nat>),
>
    decreases rows.len(),
{
    if rows.len() == 0 {
        None
    } else if rows[0].len() > 0 && amounts_in(rows[0].skip(1)).len() >= months {
        Some((rows[0][0], amounts_in(rows[0].skip(1))))
    } else {
        salary_row(rows.skip(1), months)
    }
}

/// The salaries of months and the last amounts of a row.
pub open spec fn paired_salaries(months: Seq<CalendarDate>, amounts: Seq<nat>) -> Seq<SalaryView> {
    Seq::new(
        months.len(),
        |i: int|
            SalaryView {
                month: months[i],
                amount: amounts[amounts.len() - months.len() + i],
            },
    )
}

/// The numbers of a list.
pub open spec fn nats(list: Seq<u64>) -> Seq<nat> {
    list.map_values(|n: u64| n as nat)
}

fn row_amounts(row: &Vec<String>) -> (amounts: Vec<u64>)
    requires
        row.len() > 0,
    ensures
        nats(amounts@) == amounts_in(texts(row@).skip(1)),
{
    let ghost cells = texts(row@).skip(1);
    let mut amounts: Vec<u64> = Vec::new();
    let mut i: usize = 1;
    while i < row.len()
        invariant
            1 <= i <= row.len(),
            cells == texts(row@).skip(1),
            nats(amounts@) == amounts_in(cells.take(i - 1)),
        decreases row.len() - i,
    {
        assert(cells.take(i as int).drop_last() == cells.take(i - 1));
        assert(cells.take(i as int).last() == row@[i as int]@);
        let ghost before = nats(amounts@);
        if let Some(amount) = extract_amount(row[i].as_str()) {
            amounts.push(amount);
            assert(nats(amounts@) == before.push(amount as nat));
        }
        i = i + 1;
    }
    assert(cells.take(cells.len() as int) == cells);
    amounts
}

/// The salaries of some months in the rows of a salary page.
pub fn summary_of_rows(rows: &Vec<Vec<String>>, months: &Vec<NaiveDate>) -> (summary: Result<
    SalarySummary,
    String,
>)
    ensures
        match summary {
            Ok(summary) => salary_row(row_texts(rows@), months@.len()) matches Some(row)
                && summary.label@ == row.0 && salary_views(summary.entries@) == paired_salaries(
                date_views(months@),
                row.1,
            ) && opt_pair(summary.latest_change) == last_two(salary_views(summary.entries@)),
            Err(message) => salary_row(row_texts(rows@), months@.len()) is None && message@
                == "Could not find a salary row in the summary table"@,
        },
{
    let ghost all = row_texts(rows@);
    let mut i: usize = 0;
    assert(all.skip(0) == all);
    while i < rows.len()
        invariant
            i <= rows.len(),
            all == row_texts(rows@),
            salary_row(all.skip(i as int), months@.len()) == salary_row(all, months@.len()),
        decreases rows.len() - i,
    {
        assert(all.skip(i as int).skip(1) == all.skip(i + 1));
        assert(all.skip(i as int)[0] == texts(rows@[i as int]@));
        let row = &rows[i];
        assert(row.len() == texts(row@).len());
        if row.len() > 0 {
            let amounts = row_amounts(row);
            assert(amounts.len() == nats(amounts@).len());
            if amounts.len() >= months.len() {
                let start: usize = amounts.len() - months.len();
                let mut entries: Vec<SalaryEntry> = Vec::new();
                let ghost goal = paired_salaries(date_views(months@), nats(amounts@));
                let mut k: usize = 0;
                while k < months.len()
                    invariant
                        k <= months.len(),
                        start == amounts.len() - months.len(),
                        goal == paired_salaries(date_views(months@), nats(amounts@)),
                        salary_views(entries@) == goal.take(k as int),
                    decreases months.len() - k,
                {
                    let ghost before = salary_views(entries@);
                    let entry = SalaryEntry { month: months[k], amount: amounts[start + k] };
                    entries.push(entry);
                    assert(salary_views(entries@) == before.push(
                        SalaryView { month: entry.month@, amount: entry.amount as nat },
                    ));
                    assert(goal[k as int].amount == nats(amounts@)[start + k]);
                    k = k + 1;
                    assert(salary_views(entries@) == goal.take(k as int));
                }
                assert(goal.take(goal.len() as int) == goal);
                let change = latest_change(&entries);
                return Ok(SalarySummary { label: row[0].clone(), entries, latest_change: change });
            }
        }
        i = i + 1;
    }
    Err("Could not find a salary row in the summary table".to_owned())
}

/// The months that a salary request of today is about: the last ones before
/// the current month.
pub open spec fn salary_months(today: CalendarDate, months: nat) -> Seq<CalendarDate> {
    months_from(month_shifted(today, -(months as int)), months)
}

/// The months that a salary request of today is about.
pub fn salary_month_range(today: NaiveDate, months: u32) -> (list: Vec<NaiveDate>)
    requires
        0 < months,
        is_date(month_shifted(today@, -1)),
        is_date(month_shifted(today@, -(months as int))),
    ensures
        date_views(list@) == salary_months(today@, months as nat),
{
    let year: i32 = today.year();
    let month: u32 = today.month();
    let latest = previous_month_start(today);
    proof {
        let number = crate::months::month_number(today@);
        assert((number - months) / 12 >= crate::date::MIN_YEAR);
        assert(number <= 12 * 262143);
        assert(months < 0x7fff_ffff);
        crate::months::month_shifts_add_up(today@, -1, -((months - 1) as int));
        crate::months::month_shifts_add_up(today@, -(months as int), (months - 1) as int);
    }
    let oldest = shift_month(latest, -((months - 1) as i32));
    month_range(oldest, months)
}

/// How the salary page is told the months: from the first day of the first to
/// the thirtieth of the last.
pub open spec fn picker_state(oldest: CalendarDate, latest: CalendarDate) -> Seq<char> {
    "01/"@ + padded(oldest.month as nat, 2) + "/"@ + signed_padded(oldest.year, 4) + ",0,30/"@
        + padded(latest.month as nat, 2) + "/"@ + signed_padded(latest.year, 4) + ",0"@
}

/// How the salary page is told the months.
pub fn date_picker_state(oldest: NaiveDate, latest: NaiveDate) -> (text: String)
    ensures
        text@ == picker_state(oldest@, latest@),
{
    let mut text = "01/".to_owned();
    let month = padded_text(oldest.month() as u64, 2);
    text.append(month.as_str());
    text.append("/");
    let year = signed_padded_text(oldest.year() as i64, 4);
    text.append(year.as_str());
    text.append(",0,30/");
    let month = padded_text(latest.month() as u64, 2);
    text.append(month.as_str());
    text.append("/");
    let year = signed_padded_text(latest.year() as i64, 4);
    text.append(year.as_str());
    text.append(",0");
    text
}

/// The pairs of a list but those of a key.
pub open spec fn pairs_without(pairs: Seq<(Seq<char>, Seq<char>)>, key: Seq<char>) -> Seq<
    (Seq<char>, Seq<char>),
>
    decreases pairs.len(),
{
    if pairs.len() == 0 {
        seq![]
    } else {
        let before = pairs_without(pairs.drop_last(), key);
        if pairs.last().0 == key {
            before
        } else {
            before.push(pairs.last())
        }
    }
}

/// A list with an empty value for a key, unless it has the key.
pub open spec fn with_blank(pairs: Seq<(Seq<char>, Seq<char>)>, key: Seq<char>) -> Seq<
    (Seq<char>, Seq<char>),
> {
    if crate::forms::lists_key(pairs, key) {
        pairs
    } else {
        pairs.push((key, ""@))
    }
}

/// What is posted to the salary page: the fields of the page, an event, and
/// the months.
pub open spec fn salary_form(fields: Map<Seq<char>, Seq<char>>, state: Seq<char>) -> Seq<
    (Seq<char>, Seq<char>),
> {
    with_blank(
        with_blank(
            pairs_without(sorted_pairs(fields), "__DatePicker_State"@),
            "__EVENTTARGET"@,
        ),
        "__EVENTARGUMENT"@,
    ).push(("__DatePicker_State"@, state))
}

fn put_blank(form: &mut Vec<(String, String)>, key: &str)
    ensures
        pair_texts(final(form)@) == with_blank(pair_texts(old(form)@), key@),
{
    let ghost all = pair_texts(form@);
    let mut i: usize = 0;
    while i < form.len()
        invariant
            i <= form.len(),
            all == pair_texts(form@),
            all == pair_texts(old(form)@),
            forall|j: int| 0 <= j < i ==> (#[trigger] all[j]).0 != key@,
        decreases form.len() - i,
    {
        assert(all[i as int].0 == form@[i as int].0@);
        if same(form[i].0.as_str(), key) {
            return ;
        }
        i = i + 1;
    }
    form.push((key.to_owned(), "".to_owned()));
    assert(pair_texts(form@) == all.push((key@, ""@)));
}

/// What is posted to the salary page.
pub fn salary_page_form(fields: &FormFields, state: &str) -> (form: Vec<(String, String)>)
    ensures
        pair_texts(form@) == salary_form(fields@, state@),
{
    let list = fields.to_pairs();
    let ghost all = pair_texts(list@);
    let mut form: Vec<(String, String)> = Vec::new();
    let mut i: usize = 0;
    while i < list.len()
        invariant
            i <= list.len(),
            all == pair_texts(list@),
            pair_texts(form@) == pairs_without(all.take(i as int), "__DatePicker_State"@),
        decreases list.len() - i,
    {
        assert(all.take(i + 1).drop_last() == all.take(i as int));
        assert(all.take(i + 1).last() == (list@[i as int].0@, list@[i as int].1@));
        let ghost before = pair_texts(form@);
        if !same(list[i].0.as_str(), "__DatePicker_State") {
            form.push((list[i].0.clone(), list[i].1.clone()));
            assert(pair_texts(form@) == before.push(all[i as int]));
        }
        i = i + 1;
    }
    assert(all.take(all.len() as int) == all);
    put_blank(&mut form, "__EVENTTARGET");
    put_blank(&mut form, "__EVENTARGUMENT");
    let ghost before = pair_texts(form@);
    form.push(("__DatePicker_State".to_owned(), state.to_owned()));
    assert(pair_texts(form@) == before.push(("__DatePicker_State"@, state@)));
    form
}

/// The salaries of some months on a salary page.
pub fn parse_salary_summary(html: &str, months: &Vec<NaiveDate>) -> (summary: Result<
    SalarySummary,
    String,
>)
    ensures
        ({
            let found = salary_row(salary_rows(page_of(html@)), months@.len());
            match summary {
                Ok(summary) => found matches Some(row) && summary.label@ == row.0 && salary_views(
                    summary.entries@,
                ) == paired_salaries(date_views(months@), row.1) && opt_pair(
                    summary.latest_change,
                ) == last_two(salary_views(summary.entries@)),
                Err(message) => found is None && message@
                    == "Could not find a salary row in the summary table"@,
            }
        }),
{
    let rows = extract_salary_rows(html);
    summary_of_rows(&rows, months)
}

} // verus!
