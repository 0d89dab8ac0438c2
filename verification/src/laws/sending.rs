//! Laws of signing in, of sending requests and of what is fetched.

use crate::client::{
    aes_opened, aes_sealed, backoff_millis, blob_contents, blob_of, is_subdomain, login_address,
    login_error, may_pass, payslip_address, payslip_parts, pdf_mark, send_step, FailureCause,
    IoFailure, SendEvent, SendStep, Sending,
};
use crate::date::CalendarDate;
use crate::text::{contains, lowercased, padded, signed_padded};
use vstd::prelude::*;

verus! {

/// A sign-in is good just where it did not fail and no captcha is shown; each
/// way of failing is told apart, and a captcha counts first.
pub proof fn a_sign_in_is_good_unless_it_failed(
    is_fail: bool,
    captcha: Option<bool>,
    code: Option<i32>,
    message: Option<Seq<char>>,
    base_url: Seq<char>,
)
    ensures
        ({
            let error = login_error(is_fail, captcha, code, message, base_url);
            &&& (error is None <==> !is_fail && captcha != Some(true))
            &&& (is_fail && captcha != Some(true) && code == Some(6i32) ==> error == Some(
                "Password change required. Please update your password at "@ + base_url + "."@,
            ))
            &&& (is_fail && captcha != Some(true) && code == Some(18i32) ==> error == Some(
                "Temporary login error. Please try again in a few minutes."@,
            ))
            &&& (is_fail && captcha != Some(true) && code != Some(6i32) && code != Some(18i32) ==> (
            message matches Some(said) ==> error == Some("Login failed: "@ + said)))
            &&& (captcha == Some(true) ==> error == Some(
                "CAPTCHA required. Please log in via browser at "@ + base_url
                    + " and solve the captcha, then try again."@,
            ))
        }),
{
}

/// What came of a request is taken or fails where it may not be sent again:
/// that is where it changes something, or was sent again three times.
pub proof fn a_request_is_sent_again_only_where_it_may(sending: Sending, event: SendEvent)
    requires
        !sending.retryable || sending.attempt >= 3,
    ensures
        event is Answered ==> send_step(sending, event) == SendStep::Take,
        event is Failed ==> send_step(sending, event) == SendStep::Fail,
{
}

/// A request that may be sent again is: after a failure that may pass and
/// after a server's own errors once some time is waited, which doubles from half
/// a second on, and after a page to sign in at once that is done.
pub proof fn a_request_is_sent_again_where_it_helps(sending: Sending, status: u16)
    requires
        sending.retryable,
        sending.attempt < 3,
    ensures
        ({
            let next = Sending { retryable: true, attempt: (sending.attempt + 1) as u32 };
            let millis: u64 = if sending.attempt == 0 {
                500
            } else if sending.attempt == 1 {
                1000
            } else {
                2000
            };
            &&& send_step(sending, SendEvent::Failed { transient: true }) == (
            SendStep::WaitAndSend { sending: next, millis })
            &&& send_step(sending, SendEvent::Failed { transient: false }) == SendStep::Fail
            &&& send_step(sending, SendEvent::Answered { login_page: true, status }) == (
            SendStep::SignInAndSend { sending: next })
            &&& (status == 500 || status == 502 || status == 503 ==> send_step(
                sending,
                SendEvent::Answered { login_page: false, status },
            ) == (SendStep::WaitAndSend { sending: next, millis }))
            &&& (status != 500 && status != 502 && status != 503 ==> send_step(
                sending,
                SendEvent::Answered { login_page: false, status },
            ) == SendStep::Take)
        }),
{
    reveal_with_fuel(backoff_millis, 4);
}

/// Each wait is twice as long as the one before.
pub proof fn each_wait_is_twice_the_one_before(attempt: nat)
    requires
        attempt >= 1,
    ensures
        backoff_millis(1) == 500,
        backoff_millis(attempt + 1) == 2 * backoff_millis(attempt),
{
}

/// Whether a cause by itself says that a failure may pass.
pub open spec fn passes(cause: FailureCause) -> bool {
    match cause {
        FailureCause::Request { timeout, connect, request } => timeout || connect || request,
        FailureCause::Io(failure) => failure == IoFailure::ConnectionReset || failure
            == IoFailure::ConnectionRefused || failure == IoFailure::BrokenPipe || failure
            == IoFailure::TimedOut,
        FailureCause::Other => false,
    }
}

/// Whether a cause says that a failure may pass, and no failure to read or
/// write of another sort stands before it.
pub open spec fn passes_at(causes: Seq<FailureCause>, at: int) -> bool {
    &&& 0 <= at < causes.len()
    &&& passes(causes[at])
    &&& forall|i: int| 0 <= i < at ==> #[trigger] causes[i] != FailureCause::Io(IoFailure::Other)
}

/// A failure may pass where one of its causes says so and no failure to read
/// or write of another sort stands before that cause; else it may not.
pub proof fn a_failure_passes_by_one_of_its_causes(causes: Seq<FailureCause>)
    ensures
        forall|at: int| #[trigger] passes_at(causes, at) ==> may_pass(causes),
        may_pass(causes) ==> exists|at: int| #[trigger] passes_at(causes, at),
    decreases causes.len(),
{
    if causes.len() > 0 {
        let rest = causes.skip(1);
        a_failure_passes_by_one_of_its_causes(rest);
        let first = causes[0];
        assert(passes(first) ==> may_pass(causes));
        assert(first == FailureCause::Io(IoFailure::Other) ==> !may_pass(causes));
        assert(!passes(first) && first != FailureCause::Io(IoFailure::Other) ==> may_pass(causes)
            == may_pass(rest));
        assert forall|at: int| #[trigger] passes_at(causes, at) implies may_pass(causes) by {
            if at > 0 {
                assert(causes[0] != FailureCause::Io(IoFailure::Other));
                assert(rest[at - 1] == causes[at]);
                assert forall|i: int| 0 <= i < at - 1 implies #[trigger] rest[i]
                    != FailureCause::Io(IoFailure::Other) by {
                    assert(rest[i] == causes[i + 1]);
                }
                assert(passes_at(rest, at - 1));
            }
        }
        if may_pass(causes) {
            if passes(first) {
                assert(passes_at(causes, 0));
            } else {
                let at = choose|at: int| #[trigger] passes_at(rest, at);
                assert(causes[at + 1] == rest[at]);
                assert forall|i: int| 0 <= i < at + 1 implies #[trigger] causes[i]
                    != FailureCause::Io(IoFailure::Other) by {
                    if i > 0 {
                        assert(causes[i] == rest[i - 1]);
                    }
                }
                assert(passes_at(causes, at + 1));
            }
        }
    }
}

/// An address is one to sign in at where it holds one of three words, whatever
/// the case.
pub proof fn an_address_to_sign_in_at_says_so(url: Seq<char>)
    ensures
        contains(lowercased(url), "/login"@) ==> login_address(url),
        contains(lowercased(url), "/signin"@) ==> login_address(url),
        contains(lowercased(url), "/logon"@) ==> login_address(url),
        login_address(url) ==> contains(lowercased(url), "/login"@) || contains(
            lowercased(url),
            "/signin"@,
        ) || contains(lowercased(url), "/logon"@),
{
}

/// A subdomain holds no character that could end the name of a host.
pub proof fn a_subdomain_stays_in_the_name(text: Seq<char>)
    ensures
        is_subdomain(text) ==> !text.contains('/') && !text.contains('@') && !text.contains(':')
            && !text.contains('?') && !text.contains('#') && !text.contains(' '),
{
    if is_subdomain(text) {
        assert forall|i: int| 0 <= i < text.len() implies text[i] != '/' && text[i] != '@'
            && text[i] != ':' && text[i] != '?' && text[i] != '#' && text[i] != ' ' by {
            assert(crate::client::is_subdomain_char(text[i]));
        }
    }
}

/// A text of letters, digits, hyphens and dots can be a subdomain.
pub proof fn letters_and_digits_can_be_a_subdomain(text: Seq<char>)
    requires
        forall|i: int|
            0 <= i < text.len() ==> ('a' <= #[trigger] text[i] <= 'z' || 'A' <= text[i] <= 'Z'
                || '0' <= text[i] <= '9' || text[i] == '-' || text[i] == '.'),
    ensures
        is_subdomain(text),
{
}

/// A payslip is asked for by the first day of its month, and for the user of
/// the organization.
pub proof fn a_payslip_is_that_of_its_month(
    base_url: Seq<char>,
    month: CalendarDate,
    org_id: Seq<char>,
    username: Seq<char>,
)
    ensures
        payslip_address(base_url, month, org_id, username) == base_url
            + "/Hilannetv2/PersonalFile/PdfPaySlip.aspx?Date=01/"@ + padded(month.month as nat, 2)
            + "/"@ + signed_padded(month.year, 4) + "&UserId="@ + org_id + username,
{
}

/// A payslip is stored under its name in the directory that is named, in the
/// very file that is named, or else in the folder of the settings.
pub proof fn a_payslip_is_stored_where_it_is_wanted(
    name: Seq<char>,
    path: Seq<char>,
    folder: Option<Seq<char>>,
)
    ensures
        payslip_parts(name, Some((path, true)), folder) == seq![path, name],
        payslip_parts(name, Some((path, false)), folder) == seq![path],
        folder matches Some(dir) ==> payslip_parts(name, None, folder) == seq![dir, name],
        folder is None ==> payslip_parts(name, None, folder) == seq![name],
{
}

/// A PDF begins with `%PDF`.
pub proof fn a_pdf_begins_with_its_mark()
    ensures
        pdf_mark() == seq!['%' as u8, 'P' as u8, 'D' as u8, 'F' as u8],
{
}

/// A blob begins with its nonce of twelve bytes, and what follows is opened
/// under that nonce.
pub proof fn a_blob_begins_with_its_nonce(key: Seq<u8>, nonce: Seq<u8>, plaintext: Seq<u8>)
    requires
        nonce.len() == 12,
    ensures
        blob_of(key, nonce, plaintext) matches Ok(blob) ==> blob.take(12) == nonce && aes_sealed(
            key,
            nonce,
            plaintext,
        ) == Some(blob.skip(12)) && (aes_opened(key, nonce, blob.skip(12)) matches Some(opened)
            ==> blob_contents(key, blob) == Ok::<Seq<u8>, Seq<char>>(opened)),
        forall|short: Seq<u8>|
            short.len() < 12 ==> (#[trigger] blob_contents(key, short)) is Err,
{
    if let Ok(blob) = blob_of(key, nonce, plaintext) {
        assert(blob.take(12) == nonce);
        assert(blob.skip(12) == aes_sealed(key, nonce, plaintext)->Some_0);
    }
}

} // verus!
