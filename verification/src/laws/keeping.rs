//! Laws of what is kept: locked payslips and stored credentials.

use crate::commit::{
    after_read_back, after_rewrite, after_store, is_next, read_record, CommitAction,
    CommitStageView, CommitView,
};
use crate::config::{stored_in, StoredView};
use crate::payslip::payslip_lock;
use vstd::prelude::*;

verus! {

/// A payslip is locked with the one password that is given, for its owner and
/// for its user, and its metadata with it.
pub proof fn a_payslip_is_locked_with_its_password(password: Seq<char>)
    ensures
        payslip_lock(password).user_password == password,
        payslip_lock(password).owner_password == password,
        payslip_lock(password).encrypt_metadata,
        payslip_lock(password).version == 4,
        payslip_lock(password).method == "AESV2"@,
{
}

/// Credentials are stored and read back under the account of their
/// organization and user, and what is stored is the record itself.
pub proof fn credentials_are_stored_under_their_account(flow: CommitView, action: CommitAction)
    requires
        is_next(flow, action),
    ensures
        flow.stage is Storing ==> (action matches CommitAction::Store { account, text } && account@
            == flow.config.subdomain + "/"@ + flow.config.username && stored_in(text@) == Ok::<
            StoredView,
            Seq<char>,
        >(flow.record)),
        flow.stage is ReadingBack ==> (action matches CommitAction::ReadBack { account }
            && account@ == flow.config.subdomain + "/"@ + flow.config.username),
        flow.stage is Rewriting ==> (action matches CommitAction::Rewrite(config)
            && config@.password is None && config@.subdomain == flow.config.subdomain
            && config@.username == flow.config.username && config@.payslip_folder
            == flow.config.payslip_folder && config@.payslip_format == flow.config.payslip_format),
        flow.stage is Finished ==> action is Finish,
{
}

/// A record that could not be stored, or is not read back as it was stored,
/// ends the flow with an error.
pub proof fn a_record_that_is_not_read_back_is_an_error(
    flow: CommitView,
    message: Seq<char>,
    read: Result<Option<Seq<char>>, Seq<char>>,
)
    ensures
        after_store(flow, Err(message)).stage == CommitStageView::Finished(Err(message)),
        after_store(flow, Ok(())).stage is ReadingBack,
        read_record(read) != Ok::<Option<StoredView>, Seq<char>>(Some(flow.record)) ==> (
        after_read_back(flow, read).stage matches CommitStageView::Finished(Err(_))),
        read_record(read) == Ok::<Option<StoredView>, Seq<char>>(Some(flow.record))
            && flow.clear_plaintext_password ==> after_read_back(flow, read).stage is Rewriting,
        read_record(read) == Ok::<Option<StoredView>, Seq<char>>(Some(flow.record))
            && !flow.clear_plaintext_password ==> (after_read_back(
            flow,
            read,
        ).stage matches CommitStageView::Finished(Ok(outcome)) && outcome.0 == flow.config),
        after_rewrite(flow, Err(message)).stage matches CommitStageView::Finished(Err(_)),
        flow.clear_plaintext_password ==> (after_rewrite(
            flow,
            Ok(()),
        ).stage matches CommitStageView::Finished(Ok(outcome)) && outcome.0.password is None
            && outcome.0.username == flow.config.username && outcome.0.subdomain
            == flow.config.subdomain),
{
}

/// What the keychain gave is the record in its text; nothing there is no
/// record, and a text that holds none is an error.
pub proof fn a_record_is_what_the_keychain_gave(raw: Seq<char>, message: Seq<char>)
    ensures
        stored_in(raw) matches Ok(record) ==> read_record(Ok(Some(raw))) == Ok::<
            Option<StoredView>,
            Seq<char>,
        >(Some(record)),
        stored_in(raw) is Err ==> read_record(Ok(Some(raw))) is Err,
        read_record(Ok(None)) == Ok::<Option<StoredView>, Seq<char>>(None),
        read_record(Err(message)) == Err::<Option<StoredView>, Seq<char>>(message),
{
}

} // verus!
